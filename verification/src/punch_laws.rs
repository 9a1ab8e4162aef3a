//! How subscribers get through to publishers: who does, what both sides are told, and how a
//! relay between them goes.
use crate::frames::{
    opt_frame, p2p_asked, relay_next, relay_settled, relay_started, FrameStep, RelayEvent,
    RelayState, RelayStep, P2P_CLIENT_ADDR, RELAY_TIMEOUT_SECS,
};
use crate::peer::{nat_model, nat_strategy};
use crate::protocol::FrameModel;
use crate::router_model::{bytes_added, CoreModel, PublisherModel};
use crate::session::ConfigModel;
use crate::tunnel::TunnelModel;
use vstd::prelude::*;

verus! {

/// Whether a report says that a network is open or a cone.
pub open spec fn is_easy(report: Option<Seq<char>>) -> bool {
    report == Some("open"@) || report == Some("cone"@)
}

/// The three networks that a report can name differ.
proof fn lemma_reports_differ()
    ensures
        "open"@ != "symmetric"@,
        "cone"@ != "symmetric"@,
        "open"@ != "cone"@,
{
    reveal_strlit("open");
    reveal_strlit("cone");
    reveal_strlit("symmetric");
    assert("open"@.len() != "symmetric"@.len());
    assert("cone"@.len() != "symmetric"@.len());
    assert("open"@[0] != "cone"@[0]);
}

/// Two peers can reach each other directly exactly if one of them is open or a cone and the
/// other open, a cone or symmetric. They exchange addresses where neither is symmetric, and
/// predict ports where one is; it does not matter which of them asks.
pub proof fn law_who_reaches_whom(a: Option<Seq<char>>, b: Option<Seq<char>>)
    ensures
        ({
            let s = nat_strategy(nat_model(a), nat_model(b));
            let symmetric = Some("symmetric"@);
            &&& s.1 <==> is_easy(a) && is_easy(b) || is_easy(a) && b == symmetric || a == symmetric
                && is_easy(b)
            &&& s.0 == if is_easy(a) && is_easy(b) {
                "direct_exchange"@
            } else if s.1 {
                "port_prediction"@
            } else {
                "relay"@
            }
            &&& nat_strategy(nat_model(b), nat_model(a)) == s
        }),
{
    lemma_reports_differ();
}

/// For a subscriber that gets through to a publisher with at least one mapped address,
/// instructions for punching are sent exactly if the publisher's network is open, a cone or
/// symmetric. They are for this connection, list all the mapped addresses, give both sides five
/// seconds, and say to exchange addresses where the network is open or a cone and to predict
/// ports where it is symmetric. Without a mapped address none are sent.
pub proof fn law_punch_instructions(
    before: CoreModel,
    after: CoreModel,
    cfg: ConfigModel,
    request_id: Seq<char>,
    name: Seq<char>,
    secret_hash: Seq<char>,
    conn_id: u128,
    step: FrameStep,
)
    requires
        p2p_asked(before, after, cfg, request_id, name, secret_hash, conn_id, step),
        step is TellPublisher,
    ensures
        ({
            let p = before.p2p[name];
            let punch = opt_frame(step->punch);
            &&& p.mapped_addrs.len() == 0 ==> step->punch is None
            &&& p.mapped_addrs.len() > 0 ==> (step->punch is Some <==> p.nat_type == Some("open"@)
                || p.nat_type == Some("cone"@) || p.nat_type == Some("symmetric"@))
            &&& step->punch is Some ==> (punch matches Some(
                FrameModel::P2pPunchInstructions {
                    conn_id: id,
                    peer_addrs,
                    strategy,
                    punch_timeout_ms,
                },
            ) && id == conn_id && peer_addrs == p.mapped_addrs && punch_timeout_ms == 5000
                && strategy == if p.nat_type == Some("symmetric"@) {
                "port_prediction"@
            } else {
                "direct_exchange"@
            })
        }),
{
    lemma_reports_differ();
}

/// A subscriber gets through exactly if peer-to-peer tunnels are on, the publisher is there and
/// the secret is the publisher's; otherwise the answer says what is missing, in that order, and
/// nothing changes.
pub proof fn law_who_gets_through(
    before: CoreModel,
    after: CoreModel,
    cfg: ConfigModel,
    request_id: Seq<char>,
    name: Seq<char>,
    secret_hash: Seq<char>,
    conn_id: u128,
    step: FrameStep,
)
    requires
        p2p_asked(before, after, cfg, request_id, name, secret_hash, conn_id, step),
    ensures
        ({
            let there = before.p2p.contains_key(name) && before.sessions.contains_key(
                before.p2p[name].tunnel_info.session_id,
            );
            let refused = |message: Seq<char>|
                after == before && (step matches FrameStep::Reply(f) && f@ == (
                FrameModel::P2pError { request_id, message }));
            &&& step is TellPublisher <==> cfg.p2p_enabled && there
                && before.p2p[name].secret_hash == secret_hash
            &&& !cfg.p2p_enabled ==> refused("P2P tunnels are not enabled on this server"@)
            &&& cfg.p2p_enabled && !there ==> refused("P2P tunnel '"@ + name + "' not found"@)
            &&& cfg.p2p_enabled && there && before.p2p[name].secret_hash != secret_hash ==> refused(
                "invalid P2P secret"@,
            )
        }),
{
}

/// A subscriber that gets through is one more request of the publisher and one more connection
/// that waits; the publisher's own session is told, of this connection and of its own tunnel.
/// Nothing else changes.
pub proof fn law_getting_through(
    before: CoreModel,
    after: CoreModel,
    cfg: ConfigModel,
    request_id: Seq<char>,
    name: Seq<char>,
    secret_hash: Seq<char>,
    conn_id: u128,
    step: FrameStep,
)
    requires
        p2p_asked(before, after, cfg, request_id, name, secret_hash, conn_id, step),
        step is TellPublisher,
    ensures
        ({
            let (p, q) = (before.p2p[name], after.p2p[name]);
            &&& step matches FrameStep::TellPublisher {
                publisher_session,
                conn_id: id,
                tunnel_id,
                ..
            } && publisher_session == p.tunnel_info.session_id && id == conn_id && tunnel_id
                == p.tunnel_info.tunnel_id
            &&& after == (CoreModel { pending: after.pending, p2p: after.p2p, ..before })
            &&& forall|id: u128| #[trigger]
                after.pending.contains(id) <==> before.pending.contains(id) || id == conn_id
            &&& after.p2p.dom() =~= before.p2p.dom()
            &&& forall|other: Seq<char>| #[trigger]
                before.p2p.contains_key(other) && other != name ==> after.p2p[other]
                    == before.p2p[other]
            &&& q == (PublisherModel {
                tunnel_info: TunnelModel {
                    request_count: q.tunnel_info.request_count,
                    ..p.tunnel_info
                },
                ..p
            })
            &&& p.tunnel_info.request_count < u64::MAX ==> q.tunnel_info.request_count
                == p.tunnel_info.request_count + 1
        }),
{
}

// ── the relay ────────────────────────────────────────────────────────────────

/// Once the publisher was told, the subscriber is answered under the id of its own side, which
/// then waits for a stream; and its own session is told if that is there. A publisher that
/// could not be told leaves nothing that waits, and the subscriber hears so.
pub proof fn law_relay_starts_when_delivered(
    before: CoreModel,
    after: CoreModel,
    session_id: u128,
    request_id: Seq<char>,
    conn_id: u128,
    delivered: bool,
    sub_conn_id: u128,
    step: RelayStep,
)
    requires
        relay_started(
            before,
            after,
            session_id,
            request_id,
            conn_id,
            delivered,
            sub_conn_id,
            step,
        ),
    ensures
        after == (CoreModel { pending: after.pending, ..before }),
        step is Relay <==> delivered,
        delivered ==> (step matches RelayStep::Relay { reply, sub_conn_id: id, tell_self } && reply@
            == (FrameModel::P2pConnected { request_id, conn_id: sub_conn_id }) && id == sub_conn_id
            && (tell_self <==> before.sessions.contains_key(session_id))),
        !delivered ==> (step matches RelayStep::Refuse(f) && f@ == (FrameModel::P2pError {
            request_id,
            message: "publisher session is disconnected"@,
        })),
        forall|id: u128| #[trigger]
            after.pending.contains(id) <==> if delivered {
                before.pending.contains(id) || id == sub_conn_id
            } else {
                before.pending.contains(id) && id != conn_id
            },
{
}

/// A relay passes bytes on exactly once both streams have come, the publisher's first; it ends
/// when either never comes, when both sides are done or when bytes cannot be passed on. Nothing
/// wakes one that has ended.
pub proof fn law_how_a_relay_goes(state: RelayState, event: RelayEvent)
    ensures
        ({
            let next = relay_next(state, event);
            &&& next is AwaitSubscriber && !(state is AwaitSubscriber) <==> state is AwaitPublisher
                && event == RelayEvent::Publisher(true)
            &&& next is Bridging && !(state is Bridging) <==> state is AwaitSubscriber && event
                == RelayEvent::Subscriber(true)
            &&& next is Ended && !(state is Ended) <==> (state is AwaitPublisher && event
                == RelayEvent::Publisher(false)) || (state is AwaitSubscriber && event
                == RelayEvent::Subscriber(false)) || (state is Bridging && (event is Done
                || event is Failed))
            &&& next is AwaitPublisher ==> state is AwaitPublisher
            &&& state is Ended ==> next is Ended
            &&& state is Bridging ==> next is Bridging || next is Ended
        }),
{
}

/// What a relay leaves: without a publisher, the subscriber's side waits no longer; when both
/// sides are done, the bytes of both ways count for the publisher's tunnel; and nothing else
/// that happens to a relay touches the core.
pub proof fn law_what_a_relay_leaves(
    c: CoreModel,
    state: RelayState,
    event: RelayEvent,
    sub_conn_id: u128,
    tunnel_id: u128,
)
    ensures
        ({
            let after = relay_settled(c, state, event, sub_conn_id, tunnel_id);
            &&& state is AwaitPublisher && event == RelayEvent::Publisher(false) ==> {
                &&& after == (CoreModel { pending: after.pending, ..c })
                &&& forall|id: u128| #[trigger]
                    after.pending.contains(id) <==> c.pending.contains(id) && id != sub_conn_id
            }
            &&& state is Bridging ==> (event matches RelayEvent::Done { up, down } ==> (up + down
                <= u64::MAX ==> after == bytes_added(c, tunnel_id, (up + down) as u64)))
            &&& !(state is AwaitPublisher && event == RelayEvent::Publisher(false)) && !(
            state is Bridging && event is Done) ==> after == c
        }),
{
}

/// A relay waits half a minute for each stream, and clients are told of no address that a
/// peer-to-peer connection comes from.
pub proof fn law_relay_limits()
    ensures
        RELAY_TIMEOUT_SECS == 30,
        P2P_CLIENT_ADDR@ == "0.0.0.0:0"@,
{
}

} // verus!
