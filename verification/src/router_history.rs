//! What the routing core has done over its whole history.
use crate::group::{healthy_ids, is_member_protocol, GroupSpecModel};
use crate::protocol::TunnelProtocol;
use crate::router_laws::{
    consistent, group_sound, groups_sound, index_sound, is_fresh, is_member, law_alert_consistent,
    law_bad_report_consistent, law_bytes_consistent, law_dispatch_consistent,
    law_good_report_consistent, law_http_registration_consistent, law_nat_report_consistent,
    law_p2p_dispatch_consistent, law_p2p_registration_consistent, law_request_count_consistent,
    law_session_registration_consistent, law_session_removal_consistent,
    law_tcp_registration_consistent, law_tunnel_removal_consistent,
    law_udp_registration_consistent, member_at, members_indexed, owners_sound, pools_sound,
    ports_sound, publishers_indexed, sessions_sound,
};
use crate::router_model::{
    alert_due_for, alert_sent, bytes_added, can_serve, dispatched, group_at, http_label,
    http_registration, is_published, marked_healthy, marked_unhealthy, member_key, nat_updated,
    p2p_dispatched, p2p_registration, request_counted, session_removed, tcp_registration, tunnel_at, tunnel_removed,
    tunnels_removed, udp_registration, CoreModel, Draw, KeyModel,
};
use crate::session_info::new_session;
use vstd::prelude::*;

verus! {

/// Something that is done to the core.
pub enum CoreOp {
    OpenSession {
        session_id: u128,
        client_addr: Seq<char>,
        auth_token_id: Seq<char>,
        db_token_id: Option<Seq<char>>,
        user_id: Option<u128>,
        now: u64,
    },
    RegisterHttp {
        session_id: u128,
        subdomain: Option<Seq<char>>,
        protocol: TunnelProtocol,
        group: Option<GroupSpecModel>,
        draw: Draw,
        existing: Option<TunnelProtocol>,
    },
    RegisterTcp { session_id: u128, group: Option<GroupSpecModel>, draw: Draw },
    RegisterUdp { session_id: u128, draw: Draw },
    RegisterP2p { session_id: u128, name: Seq<char>, secret_hash: Seq<char>, draw: Draw },
    RemoveTunnel { id: u128 },
    RemoveSession { session_id: u128 },
    /// A good report.
    Healthy { id: u128, at: u64 },
    /// A bad report.
    Unhealthy { id: u128, reason: Seq<char>, at: u64 },
    /// The alert on a tunnel's group is asked for.
    PopAlert { id: u128 },
    /// A request goes to a member of a route's group.
    Dispatch { key: KeyModel, id: u128 },
    /// A request goes to a publisher.
    DispatchP2p { name: Seq<char> },
    /// A request that goes to a tunnel is counted.
    CountRequest { id: u128 },
    AddBytes { id: u128, n: u64 },
    ReportNat { id: u128, nat_type: Seq<char>, mapped_addrs: Seq<Seq<char>> },
    /// Something that leaves the routes and who owns what as they are: a connection that waits
    /// or does no longer, a pipe, a sign of life, or news that are taken.
    Aside { after: CoreModel },
}

/// Whether two cores have the same routes and the same owners.
pub open spec fn same_routes_and_owners(a: CoreModel, b: CoreModel) -> bool {
    &&& b == (CoreModel {
        sessions: b.sessions,
        pending: b.pending,
        tcp_events: b.tcp_events,
        udp_events: b.udp_events,
        group_events: b.group_events,
        ..a
    })
    &&& forall|sid: u128| #[trigger]
        b.sessions.contains_key(sid) <==> a.sessions.contains_key(sid)
    &&& forall|sid: u128| #[trigger]
        b.sessions.contains_key(sid) ==> b.sessions[sid].tunnels == a.sessions[sid].tunnels
}

/// Whether something can be done to a core: ids that are drawn are new, and a request goes
/// only where it can be served.
pub open spec fn is_possible(c: CoreModel, op: CoreOp) -> bool {
    match op {
        CoreOp::OpenSession { session_id, .. } => !c.sessions.contains_key(session_id),
        CoreOp::RegisterHttp { subdomain, draw, existing, .. } => {
            &&& is_fresh(c, draw.tunnel_id)
            &&& c.http.contains_key(http_label(subdomain, draw)) ==> is_member_protocol(
                c.http[http_label(subdomain, draw)],
                existing,
            )
        },
        CoreOp::RegisterTcp { draw, .. } => is_fresh(c, draw.tunnel_id),
        CoreOp::RegisterUdp { draw, .. } => is_fresh(c, draw.tunnel_id),
        CoreOp::RegisterP2p { draw, .. } => is_fresh(c, draw.tunnel_id),
        CoreOp::Dispatch { key, id } => can_serve(c, key, id),
        CoreOp::DispatchP2p { name } => is_published(c, name),
        CoreOp::Aside { after } => same_routes_and_owners(c, after),
        _ => true,
    }
}

/// A core after something was done to it. What is refused changes nothing.
pub open spec fn core_stepped(c: CoreModel, op: CoreOp) -> CoreModel {
    match op {
        CoreOp::OpenSession {
            session_id,
            client_addr,
            auth_token_id,
            db_token_id,
            user_id,
            now,
        } => CoreModel {
            sessions: c.sessions.insert(
                session_id,
                new_session(client_addr, auth_token_id, db_token_id, user_id, now),
            ),
            ..c
        },
        CoreOp::RegisterHttp { session_id, subdomain, protocol, group, draw, existing } =>
            match http_registration(c, session_id, subdomain, protocol, group, draw, existing) {
            Ok(c1) => c1,
            Err(_) => c,
        },
        CoreOp::RegisterTcp { session_id, group, draw } => match tcp_registration(
            c,
            session_id,
            group,
            draw,
        ) {
            Ok((c1, _)) => c1,
            Err(_) => c,
        },
        CoreOp::RegisterUdp { session_id, draw } => match udp_registration(c, session_id, draw) {
            Ok((c1, _)) => c1,
            Err(_) => c,
        },
        CoreOp::RegisterP2p { session_id, name, secret_hash, draw } => match p2p_registration(
            c,
            session_id,
            name,
            secret_hash,
            draw,
        ) {
            Ok(c1) => c1,
            Err(_) => c,
        },
        CoreOp::RemoveTunnel { id } => tunnel_removed(c, id),
        CoreOp::RemoveSession { session_id } => session_removed(c, session_id),
        CoreOp::Healthy { id, at } => marked_healthy(c, id, at),
        CoreOp::Unhealthy { id, reason, at } => marked_unhealthy(c, id, reason, at),
        CoreOp::PopAlert { id } => if alert_due_for(c, id) {
            alert_sent(c, id)
        } else {
            c
        },
        CoreOp::Dispatch { key, id } => dispatched(c, key, id),
        CoreOp::DispatchP2p { name } => p2p_dispatched(c, name),
        CoreOp::CountRequest { id } => request_counted(c, id),
        CoreOp::AddBytes { id, n } => bytes_added(c, id, n),
        CoreOp::ReportNat { id, nat_type, mapped_addrs } => nat_updated(
            c,
            id,
            nat_type,
            mapped_addrs,
        ),
        CoreOp::Aside { after } => after,
    }
}

/// A core after a history, the oldest first.
pub open spec fn core_after(c: CoreModel, ops: Seq<CoreOp>) -> CoreModel
    decreases ops.len(),
{
    if ops.len() == 0 {
        c
    } else {
        core_stepped(core_after(c, ops.drop_last()), ops.last())
    }
}

/// Whether everything in a history can be done when it is done.
pub open spec fn is_history(c: CoreModel, ops: Seq<CoreOp>) -> bool
    decreases ops.len(),
{
    ops.len() > 0 ==> is_history(c, ops.drop_last()) && is_possible(
        core_after(c, ops.drop_last()),
        ops.last(),
    )
}

/// The core when the step `i` of a history is up.
pub open spec fn core_before(c: CoreModel, ops: Seq<CoreOp>, i: int) -> CoreModel {
    core_after(c, ops.take(i))
}

/// Whether something done to a core hands the alert on the group at `key` out.
pub open spec fn hands_alert_out(c: CoreModel, op: CoreOp, key: KeyModel) -> bool {
    op matches CoreOp::PopAlert { id } && alert_due_for(c, id) && c.index[id] == key
}

/// Whether something done to a core is a good report on a member of the group at `key`.
pub open spec fn is_recovery(c: CoreModel, op: CoreOp, key: KeyModel) -> bool {
    op matches CoreOp::Healthy { id, .. } && member_key(c, id) == Some(key)
}

/// Whether the step `i` of a history handed the alert on the group at `key` out.
pub open spec fn alerted_at(c: CoreModel, ops: Seq<CoreOp>, key: KeyModel, i: int) -> bool {
    hands_alert_out(core_before(c, ops, i), ops[i], key)
}

/// Whether the step `i` of a history was a good report on a member of the group at `key`.
pub open spec fn recovered_at(c: CoreModel, ops: Seq<CoreOp>, key: KeyModel, i: int) -> bool {
    is_recovery(core_before(c, ops, i), ops[i], key)
}

/// Whether there was a group at `key` when the step `i` of a history was up.
pub open spec fn stands_at(c: CoreModel, ops: Seq<CoreOp>, key: KeyModel, i: int) -> bool {
    group_at(core_before(c, ops, i), key) is Some
}

/// Whether the step `i` of a history handed an alert out on the group that is still at `key`
/// when the history ends, and no member of it has had a good report since.
pub open spec fn is_standing_alert(c: CoreModel, ops: Seq<CoreOp>, key: KeyModel, i: int) -> bool {
    &&& 0 <= i < ops.len()
    &&& alerted_at(c, ops, key, i)
    &&& forall|j: int| i < j < ops.len() ==> !#[trigger] recovered_at(c, ops, key, j)
    &&& forall|j: int| i < j <= ops.len() ==> #[trigger] stands_at(c, ops, key, j)
}

/// Whether an alert went out on the group that is at `key` when a history ends, and no member
/// of it has had a good report since.
pub open spec fn has_standing_alert(c: CoreModel, ops: Seq<CoreOp>, key: KeyModel) -> bool {
    exists|i: int| #[trigger] is_standing_alert(c, ops, key, i)
}

/// Whether the group at `key` is marked as reported.
spec fn is_reported(c: CoreModel, key: KeyModel) -> bool {
    group_at(c, key) is Some && (group_at(c, key)->0).zero_healthy_alerted
}

/// Cores with the same routes and owners are consistent together.
proof fn lemma_aside_consistent(c: CoreModel, c2: CoreModel)
    requires
        consistent(c),
        same_routes_and_owners(c, c2),
    ensures
        consistent(c2),
{
    assert forall|key: KeyModel| #[trigger] group_at(c2, key) == group_at(c, key) by {}
    assert forall|id: u128| #[trigger] tunnel_at(c2, id) == tunnel_at(c, id) by {}
    assert forall|key: KeyModel, id: u128| #[trigger]
        is_member(c2, key, id) implies is_member(c, key, id) && member_at(c2, key, id)
        == member_at(c, key, id) by {}
    assert(members_indexed(c2));
    assert(index_sound(c2)) by {
        assert forall|id: u128| #[trigger] c2.index.contains_key(id) implies match c2.index[id] {
            KeyModel::P2p(name) => c2.p2p.contains_key(name) && c2.p2p[name].tunnel_info.tunnel_id
                == id,
            key => is_member(c2, key, id),
        } by {
            assert(c.index.contains_key(id));
        }
    }
    assert(publishers_indexed(c2));
    assert(groups_sound(c2)) by {
        assert forall|key: KeyModel| (#[trigger] group_at(c2, key)) is Some implies group_sound(
            group_at(c2, key)->0,
        ) by {
            assert(group_at(c, key) is Some);
        }
    }
    assert(pools_sound(c2));
    assert(ports_sound(c2));
    assert(owners_sound(c2)) by {
        assert forall|id: u128| #[trigger] c2.index.contains_key(id) implies {
            &&& tunnel_at(c2, id) is Some
            &&& c2.sessions.contains_key((tunnel_at(c2, id)->0).session_id)
            &&& c2.sessions[(tunnel_at(c2, id)->0).session_id].tunnels.contains(id)
        } by {
            assert(c.index.contains_key(id));
            let sid = (tunnel_at(c, id)->0).session_id;
            assert(c.sessions.contains_key(sid));
            assert(c2.sessions.contains_key(sid));
        }
    }
    assert(sessions_sound(c2)) by {
        assert forall|sid: u128| #[trigger] c2.sessions.contains_key(sid) implies {
            &&& c2.sessions[sid].tunnels.len() <= c2.max_tunnels
            &&& forall|id: u128| #[trigger]
                c2.sessions[sid].tunnels.contains(id) && c2.index.contains_key(id) ==> (tunnel_at(
                    c2,
                    id,
                )->0).session_id == sid
        } by {
            assert(c.sessions.contains_key(sid));
            assert(c2.sessions[sid].tunnels == c.sessions[sid].tunnels);
            assert forall|id: u128| #[trigger]
                c2.sessions[sid].tunnels.contains(id) && c2.index.contains_key(
                    id,
                ) implies (tunnel_at(c2, id)->0).session_id == sid by {
                assert(c.sessions[sid].tunnels.contains(id) && c.index.contains_key(id));
            }
        }
    }
}

/// Whatever can be done to a consistent core leaves it consistent.
pub proof fn law_steps_keep_the_core_consistent(c: CoreModel, op: CoreOp)
    requires
        consistent(c),
        is_possible(c, op),
    ensures
        consistent(core_stepped(c, op)),
{
    match op {
        CoreOp::OpenSession {
            session_id,
            client_addr,
            auth_token_id,
            db_token_id,
            user_id,
            now,
        } => {
            law_session_registration_consistent(
                c,
                session_id,
                client_addr,
                auth_token_id,
                db_token_id,
                user_id,
                now,
            );
        },
        CoreOp::RegisterHttp { session_id, subdomain, protocol, group, draw, existing } => {
            law_http_registration_consistent(
                c,
                session_id,
                subdomain,
                protocol,
                group,
                draw,
                existing,
            );
        },
        CoreOp::RegisterTcp { session_id, group, draw } => {
            law_tcp_registration_consistent(c, session_id, group, draw);
        },
        CoreOp::RegisterUdp { session_id, draw } => {
            law_udp_registration_consistent(c, session_id, draw);
        },
        CoreOp::RegisterP2p { session_id, name, secret_hash, draw } => {
            law_p2p_registration_consistent(c, session_id, name, secret_hash, draw);
        },
        CoreOp::RemoveTunnel { id } => {
            law_tunnel_removal_consistent(c, id);
        },
        CoreOp::RemoveSession { session_id } => {
            law_session_removal_consistent(c, session_id);
        },
        CoreOp::Healthy { id, at } => {
            law_good_report_consistent(c, id, at);
        },
        CoreOp::Unhealthy { id, reason, at } => {
            law_bad_report_consistent(c, id, reason, at);
        },
        CoreOp::PopAlert { id } => {
            if alert_due_for(c, id) {
                law_alert_consistent(c, id);
            }
        },
        CoreOp::Dispatch { key, id } => {
            law_dispatch_consistent(c, key, id);
        },
        CoreOp::DispatchP2p { name } => {
            law_p2p_dispatch_consistent(c, name);
        },
        CoreOp::CountRequest { id } => {
            law_request_count_consistent(c, id);
        },
        CoreOp::AddBytes { id, n } => {
            law_bytes_consistent(c, id, n);
        },
        CoreOp::ReportNat { id, nat_type, mapped_addrs } => {
            law_nat_report_consistent(c, id, nat_type, mapped_addrs);
        },
        CoreOp::Aside { after } => {
            lemma_aside_consistent(c, after);
        },
    }
}

/// A core that starts consistent is consistent after every history.
pub proof fn law_histories_keep_the_core_consistent(c: CoreModel, ops: Seq<CoreOp>)
    requires
        consistent(c),
        is_history(c, ops),
    ensures
        consistent(core_after(c, ops)),
    decreases ops.len(),
{
    if ops.len() > 0 {
        law_histories_keep_the_core_consistent(c, ops.drop_last());
        law_steps_keep_the_core_consistent(core_after(c, ops.drop_last()), ops.last());
    }
}

/// Taking tunnels out unmarks no group that stays, and opens none.
proof fn lemma_removals_keep_mark(c: CoreModel, ids: Seq<u128>, key: KeyModel)
    ensures
        ({
            let c1 = tunnels_removed(c, ids);
            &&& group_at(c1, key) is Some ==> group_at(c, key) is Some
            &&& is_reported(c1, key) <==> is_reported(c, key) && group_at(c1, key) is Some
        }),
    decreases ids.len(),
{
    if ids.len() > 0 {
        lemma_removals_keep_mark(c, ids.drop_last(), key);
    }
}

/// Whether `c2` comes from `c` without an alert or a good report on the group at `key`: it is
/// marked as before, if it is there at all.
spec fn keeps_mark(c: CoreModel, c2: CoreModel, key: KeyModel) -> bool {
    is_reported(c2, key) <==> is_reported(c, key) && group_at(c2, key) is Some
}

/// A new HTTP tunnel changes no mark.
proof fn lemma_http_keeps_mark(
    c: CoreModel,
    session_id: u128,
    subdomain: Option<Seq<char>>,
    protocol: TunnelProtocol,
    group: Option<GroupSpecModel>,
    draw: Draw,
    existing: Option<TunnelProtocol>,
    key: KeyModel,
)
    ensures
        http_registration(c, session_id, subdomain, protocol, group, draw, existing) matches Ok(c1)
            ==> keeps_mark(c, c1, key),
{
}

/// A new TCP tunnel changes no mark.
proof fn lemma_tcp_keeps_mark(
    c: CoreModel,
    session_id: u128,
    group: Option<GroupSpecModel>,
    draw: Draw,
    key: KeyModel,
)
    requires
        ports_sound(c),
    ensures
        tcp_registration(c, session_id, group, draw) matches Ok((c1, _)) ==> keeps_mark(c, c1, key),
{
    if c.tcp_ports.len() > 0 {
        assert(!c.tcp.contains_key(c.tcp_ports[c.tcp_ports.len() - 1]));
    }
}

/// A new UDP tunnel changes no mark.
proof fn lemma_udp_keeps_mark(c: CoreModel, session_id: u128, draw: Draw, key: KeyModel)
    requires
        ports_sound(c),
    ensures
        udp_registration(c, session_id, draw) matches Ok((c1, _)) ==> keeps_mark(c, c1, key),
{
    if c.udp_ports.len() > 0 {
        assert(!c.udp.contains_key(c.udp_ports[c.udp_ports.len() - 1]));
    }
}

/// A session that ends changes no mark.
proof fn lemma_session_removal_keeps_mark(c: CoreModel, session_id: u128, key: KeyModel)
    ensures
        keeps_mark(c, session_removed(c, session_id), key),
{
    if c.sessions.contains_key(session_id) {
        let c1 = CoreModel { sessions: c.sessions.remove(session_id), ..c };
        assert(group_at(c1, key) == group_at(c, key));
        lemma_removals_keep_mark(c1, c.sessions[session_id].tunnels, key);
    }
}

/// A new publisher changes no mark.
proof fn lemma_p2p_keeps_mark(
    c: CoreModel,
    session_id: u128,
    name: Seq<char>,
    secret_hash: Seq<char>,
    draw: Draw,
    key: KeyModel,
)
    ensures
        p2p_registration(c, session_id, name, secret_hash, draw) matches Ok(c1) ==> keeps_mark(
            c,
            c1,
            key,
        ),
{
}

/// Taking a tunnel out changes no mark.
proof fn lemma_removal_keeps_mark(c: CoreModel, id: u128, key: KeyModel)
    ensures
        keeps_mark(c, tunnel_removed(c, id), key),
{
}

/// A bad report changes no mark.
proof fn lemma_bad_report_keeps_mark(
    c: CoreModel,
    id: u128,
    reason: Seq<char>,
    at: u64,
    key: KeyModel,
)
    ensures
        keeps_mark(c, marked_unhealthy(c, id, reason, at), key),
{
}

/// Counting changes no mark.
proof fn lemma_counts_keep_mark(c: CoreModel, id: u128, n: u64, key: KeyModel)
    ensures
        keeps_mark(c, request_counted(c, id), key),
        keeps_mark(c, bytes_added(c, id, n), key),
{
}

/// A step marks a group as reported exactly if it hands the alert out, and a group keeps its
/// mark as long as it stands and has no good report.
proof fn lemma_step_marks(c: CoreModel, op: CoreOp, key: KeyModel)
    requires
        ports_sound(c),
        is_possible(c, op),
    ensures
        is_reported(core_stepped(c, op), key) <==> hands_alert_out(c, op, key) || (is_reported(
            c,
            key,
        ) && !is_recovery(c, op, key) && group_at(core_stepped(c, op), key) is Some),
{
    match op {
        CoreOp::RegisterHttp { session_id, subdomain, protocol, group, draw, existing } => {
            lemma_http_keeps_mark(
                c,
                session_id,
                subdomain,
                protocol,
                group,
                draw,
                existing,
                key,
            );
        },
        CoreOp::RegisterTcp { session_id, group, draw } => {
            lemma_tcp_keeps_mark(c, session_id, group, draw, key);
        },
        CoreOp::RegisterUdp { session_id, draw } => {
            lemma_udp_keeps_mark(c, session_id, draw, key);
        },
        CoreOp::RegisterP2p { session_id, name, secret_hash, draw } => {
            lemma_p2p_keeps_mark(c, session_id, name, secret_hash, draw, key);
        },
        CoreOp::RemoveTunnel { id } => {
            lemma_removal_keeps_mark(c, id, key);
        },
        CoreOp::RemoveSession { session_id } => {
            lemma_session_removal_keeps_mark(c, session_id, key);
        },
        CoreOp::Unhealthy { id, reason, at } => {
            lemma_bad_report_keeps_mark(c, id, reason, at, key);
        },
        CoreOp::CountRequest { id } => {
            lemma_counts_keep_mark(c, id, 0, key);
        },
        CoreOp::AddBytes { id, n } => {
            lemma_counts_keep_mark(c, id, n, key);
        },
        _ => {},
    }
}

/// What happened before the last step of a history does not depend on that step.
proof fn lemma_past_is_settled(c: CoreModel, ops: Seq<CoreOp>, key: KeyModel)
    requires
        ops.len() > 0,
    ensures
        ({
            let before = ops.drop_last();
            let n = ops.len() - 1;
            &&& forall|j: int|
                0 <= j < n ==> (#[trigger] recovered_at(c, ops, key, j) <==> recovered_at(
                    c,
                    before,
                    key,
                    j,
                ))
            &&& forall|j: int|
                0 <= j < n ==> (#[trigger] alerted_at(c, ops, key, j) <==> alerted_at(
                    c,
                    before,
                    key,
                    j,
                ))
            &&& forall|j: int|
                0 <= j <= n ==> (#[trigger] stands_at(c, ops, key, j) <==> stands_at(
                    c,
                    before,
                    key,
                    j,
                ))
            &&& core_before(c, ops, n) == core_after(c, before)
            &&& core_before(c, ops, n + 1) == core_after(c, ops)
        }),
{
    let before = ops.drop_last();
    let n = ops.len() - 1;
    assert(ops.take(n) =~= before);
    assert(ops.take(n + 1) =~= ops);
    assert forall|j: int| 0 <= j <= n implies #[trigger] core_before(c, ops, j) == core_before(
        c,
        before,
        j,
    ) by {
        assert(ops.take(j) =~= before.take(j));
    }
    assert forall|j: int| 0 <= j < n implies #[trigger] ops[j] == before[j] by {}
}

/// An alert that stood before the last step of a history stands after it, if the group does
/// and that step was no good report on a member of it; and one that stands after it stood
/// before, if that step did not hand it out.
proof fn lemma_standing_alert_stays(c: CoreModel, ops: Seq<CoreOp>, key: KeyModel, i: int)
    requires
        ops.len() > 0,
        0 <= i < ops.len() - 1,
    ensures
        is_standing_alert(c, ops, key, i) <==> is_standing_alert(c, ops.drop_last(), key, i)
            && !is_recovery(core_after(c, ops.drop_last()), ops.last(), key) && group_at(
            core_after(c, ops),
            key,
        ) is Some,
{
    let before = ops.drop_last();
    let n = ops.len() - 1;
    lemma_past_is_settled(c, ops, key);
    assert(alerted_at(c, ops, key, i) <==> alerted_at(c, before, key, i));
    if is_standing_alert(c, ops, key, i) {
        assert(!recovered_at(c, ops, key, n));
        assert(stands_at(c, ops, key, n + 1));
        assert forall|j: int| i < j < n implies !#[trigger] recovered_at(c, before, key, j) by {
            assert(!recovered_at(c, ops, key, j));
        }
        assert forall|j: int| i < j <= n implies #[trigger] stands_at(c, before, key, j) by {
            assert(stands_at(c, ops, key, j));
        }
    }
}

/// How a standing alert comes and goes with the last step of a history.
proof fn lemma_standing_alert_steps(c: CoreModel, ops: Seq<CoreOp>, key: KeyModel)
    requires
        ops.len() > 0,
    ensures
        ({
            let c1 = core_after(c, ops.drop_last());
            let c2 = core_after(c, ops);
            has_standing_alert(c, ops, key) <==> group_at(c2, key) is Some && (hands_alert_out(
                c1,
                ops.last(),
                key,
            ) || (has_standing_alert(c, ops.drop_last(), key) && !is_recovery(
                c1,
                ops.last(),
                key,
            )))
        }),
{
    let n = ops.len() - 1;
    let before = ops.drop_last();
    lemma_past_is_settled(c, ops, key);
    assert(is_standing_alert(c, ops, key, n) <==> alerted_at(c, ops, key, n) && stands_at(
        c,
        ops,
        key,
        n + 1,
    ));
    if has_standing_alert(c, before, key) {
        let i = choose|i: int| #[trigger] is_standing_alert(c, before, key, i);
        lemma_standing_alert_stays(c, ops, key, i);
    }
    if has_standing_alert(c, ops, key) {
        let i = choose|i: int| #[trigger] is_standing_alert(c, ops, key, i);
        if i < n {
            lemma_standing_alert_stays(c, ops, key, i);
        }
    }
}

/// A group is marked as reported exactly if there is a standing alert on it.
proof fn lemma_mark_is_standing_alert(c: CoreModel, ops: Seq<CoreOp>, key: KeyModel)
    requires
        consistent(c),
        is_history(c, ops),
        !is_reported(c, key),
    ensures
        is_reported(core_after(c, ops), key) <==> has_standing_alert(c, ops, key),
    decreases ops.len(),
{
    if ops.len() > 0 {
        let before = ops.drop_last();
        lemma_mark_is_standing_alert(c, before, key);
        law_histories_keep_the_core_consistent(c, before);
        lemma_step_marks(core_after(c, before), ops.last(), key);
        lemma_standing_alert_steps(c, ops, key);
    }
}

/// When an alert goes out is what the history says: the alert on a tunnel's group is due
/// exactly if the tunnel belongs to a pool, none of its members is healthy, and no alert has
/// gone out on that pool since the last good report on one of its members. A pool that has
/// gone and been opened again is a new one.
pub proof fn law_alert_by_history(c: CoreModel, ops: Seq<CoreOp>, id: u128)
    requires
        consistent(c),
        forall|key: KeyModel| (#[trigger] group_at(c, key)) is None,
        is_history(c, ops),
    ensures
        ({
            let c1 = core_after(c, ops);
            alert_due_for(c1, id) <==> (member_key(c1, id) matches Some(key) && {
                &&& (group_at(c1, key)->0).key_hash is Some
                &&& healthy_ids(group_at(c1, key)->0).len() == 0
                &&& !has_standing_alert(c, ops, key)
            })
        }),
{
    let c1 = core_after(c, ops);
    law_histories_keep_the_core_consistent(c, ops);
    if c1.index.contains_key(id) {
        let key = c1.index[id];
        assert(group_at(c, key) is None);
        lemma_mark_is_standing_alert(c, ops, key);
        if group_at(c1, key) is Some {
            assert(is_member(c1, key, id));
        }
    }
}

/// Between two alerts on one pool there is a good report on a member of it.
pub proof fn law_one_alert_between_recoveries(
    c: CoreModel,
    ops: Seq<CoreOp>,
    key: KeyModel,
    first: int,
    second: int,
)
    requires
        consistent(c),
        forall|k: KeyModel| (#[trigger] group_at(c, k)) is None,
        is_history(c, ops),
        0 <= first < second < ops.len(),
        alerted_at(c, ops, key, first),
        alerted_at(c, ops, key, second),
        forall|j: int| first < j <= second ==> #[trigger] stands_at(c, ops, key, j),
    ensures
        exists|j: int| first < j < second && #[trigger] recovered_at(c, ops, key, j),
{
    let before = ops.take(second);
    lemma_prefix_is_history(c, ops, second);
    let c1 = core_after(c, before);
    law_histories_keep_the_core_consistent(c, before);
    assert(group_at(c, key) is None);
    lemma_mark_is_standing_alert(c, before, key);
    assert(!is_reported(c1, key));
    if forall|j: int| first < j < second ==> !#[trigger] recovered_at(c, ops, key, j) {
        assert forall|j: int| 0 <= j <= second implies #[trigger] ops.take(j) == before.take(j) by {
            assert(ops.take(j) =~= before.take(j));
        }
        assert(ops.take(first) == before.take(first));
        assert(alerted_at(c, before, key, first));
        assert forall|j: int| first < j < before.len() implies !#[trigger] recovered_at(
            c,
            before,
            key,
            j,
        ) by {
            assert(ops.take(j) == before.take(j));
            assert(!recovered_at(c, ops, key, j));
        }
        assert forall|j: int| first < j <= before.len() implies #[trigger] stands_at(
            c,
            before,
            key,
            j,
        ) by {
            assert(ops.take(j) == before.take(j));
            assert(stands_at(c, ops, key, j));
        }
        assert(is_standing_alert(c, before, key, first));
    }
}

/// The beginning of a history is one.
proof fn lemma_prefix_is_history(c: CoreModel, ops: Seq<CoreOp>, n: int)
    requires
        is_history(c, ops),
        0 <= n <= ops.len(),
    ensures
        is_history(c, ops.take(n)),
    decreases ops.len(),
{
    if n < ops.len() {
        lemma_prefix_is_history(c, ops.drop_last(), n);
        assert(ops.drop_last().take(n) =~= ops.take(n));
    } else {
        assert(ops.take(n) =~= ops);
    }
}

} // verus!
