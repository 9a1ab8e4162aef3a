//! How two peers behind network address translation can reach each other.
use crate::text::text_eq;
use vstd::prelude::*;

verus! {

/// How hard a peer's network is to reach from outside.
pub enum NatModel {
    /// No translation, or one that keeps its mapping: `open` or `cone`.
    Reachable,
    /// A mapping for each destination: `symmetric`.
    Symmetric,
    /// Anything else, or nothing reported.
    Unknown,
}

/// The view of an optional text.
pub open spec fn opt_str(s: Option<&str>) -> Option<Seq<char>> {
    match s {
        Some(t) => Some(t@),
        None => None,
    }
}

/// What a report says about a peer's network.
pub open spec fn nat_model(report: Option<Seq<char>>) -> NatModel {
    match report {
        Some(s) => if s == "open"@ || s == "cone"@ {
            NatModel::Reachable
        } else if s == "symmetric"@ {
            NatModel::Symmetric
        } else {
            NatModel::Unknown
        },
        None => NatModel::Unknown,
    }
}

/// The strategy for two peers, and whether a direct connection is worth a try.
pub open spec fn nat_strategy(a: NatModel, b: NatModel) -> (Seq<char>, bool) {
    match (a, b) {
        (NatModel::Reachable, NatModel::Reachable) => ("direct_exchange"@, true),
        (NatModel::Reachable, NatModel::Symmetric) => ("port_prediction"@, true),
        (NatModel::Symmetric, NatModel::Reachable) => ("port_prediction"@, true),
        _ => ("relay"@, false),
    }
}

/// Whether a report names an open network or a cone.
fn is_reachable(report: Option<&str>) -> (r: bool)
    ensures
        r == (nat_model(opt_str(report)) is Reachable),
{
    match report {
        Some(s) => text_eq(s, "open") || text_eq(s, "cone"),
        None => false,
    }
}

/// Whether a report names a symmetric network.
fn is_symmetric(report: Option<&str>) -> (r: bool)
    ensures
        r == (nat_model(opt_str(report)) is Symmetric),
{
    proof {
        reveal_strlit("open");
        reveal_strlit("cone");
        reveal_strlit("symmetric");
        assert("open"@.len() != "symmetric"@.len());
        assert("cone"@.len() != "symmetric"@.len());
    }
    match report {
        Some(s) => text_eq(s, "symmetric"),
        None => false,
    }
}

/// The hole-punching strategy for a publisher and a subscriber, and whether a direct
/// connection is worth a try.
pub fn classify_nat_pair(pub_nat: Option<&str>, sub_nat: Option<&str>) -> (r: (&'static str, bool))
    ensures
        (r.0@, r.1) == nat_strategy(nat_model(opt_str(pub_nat)), nat_model(opt_str(sub_nat))),
{
    if is_reachable(pub_nat) && is_reachable(sub_nat) {
        ("direct_exchange", true)
    } else if (is_reachable(pub_nat) && is_symmetric(sub_nat)) || (is_symmetric(pub_nat)
        && is_reachable(sub_nat)) {
        ("port_prediction", true)
    } else {
        ("relay", false)
    }
}

} // verus!
