//! What traffic counts for, what is left once a tunnel is gone, and which ports there are.
use crate::frames::{closed_tunnel, frame_handled, listed_tunnels, FrameStep};
use crate::group::GroupModel;
use crate::health_laws::{differs_at_home, differs_in_member, home};
use crate::protocol::FrameModel;
use crate::router_model::{
    bytes_added, can_serve, dispatched, empty_core, is_published, is_served, p2p_dispatched,
    port_range, request_counted, tunnel_removed, CoreModel, KeyModel, PublisherModel,
};
use crate::session::ConfigModel;
use crate::tunnel::{MemberModel, TcpTunnelEvent, TunnelModel, UdpTunnelEvent};
use vstd::prelude::*;

verus! {

// ── counting ─────────────────────────────────────────────────────────────────

/// Whether `after` differs from `before` in nothing but what a member of a group is registered
/// as, which is `info` now.
pub open spec fn only_info_changed(
    before: CoreModel,
    after: CoreModel,
    id: u128,
    info: TunnelModel,
) -> bool {
    let (g, h) = (home(before, id)->0, home(after, id)->0);
    &&& home(after, id) is Some
    &&& differs_at_home(before, after, id) && differs_in_member(g, h, id)
    &&& after.group_events == before.group_events
    &&& h.zero_healthy_alerted == g.zero_healthy_alerted
    &&& h.members[id] == (MemberModel { info, ..g.members[id] })
}

/// Whether `after` differs from `before` in nothing but what a publisher is registered as, which
/// is `info` now.
pub open spec fn only_publisher_changed(
    before: CoreModel,
    after: CoreModel,
    name: Seq<char>,
    info: TunnelModel,
) -> bool {
    &&& after == (CoreModel { p2p: after.p2p, ..before })
    &&& after.p2p.dom() =~= before.p2p.dom()
    &&& after.p2p[name] == (PublisherModel { tunnel_info: info, ..before.p2p[name] })
    &&& forall|other: Seq<char>| #[trigger]
        before.p2p.contains_key(other) && other != name ==> after.p2p[other] == before.p2p[other]
}

/// Every request counts once, for the tunnel that it went to, and for nothing else.
pub proof fn law_requests_count_once(c: CoreModel, id: u128)
    ensures
        ({
            let after = request_counted(c, id);
            let more = |info: TunnelModel|
                TunnelModel {
                    request_count: if info.request_count == u64::MAX {
                        0
                    } else {
                        (info.request_count + 1) as u64
                    },
                    ..info
                };
            &&& home(c, id) matches Some(g) ==> only_info_changed(
                c,
                after,
                id,
                more(g.members[id].info),
            ) && dispatched(c, c.index[id], id) == after
            &&& c.index.contains_key(id) ==> (c.index[id] matches KeyModel::P2p(name) ==> (
            c.p2p.contains_key(name) ==> only_publisher_changed(
                c,
                after,
                name,
                more(c.p2p[name].tunnel_info),
            ) && p2p_dispatched(c, name) == after))
            &&& home(c, id) is None && !(c.index.contains_key(id) && (c.index[id] matches
                KeyModel::P2p(name) && c.p2p.contains_key(name))) ==> after == c
        }),
{
}

/// Every byte counts once, for the tunnel that carried it, and for nothing else.
pub proof fn law_bytes_count_once(c: CoreModel, id: u128, n: u64)
    ensures
        ({
            let after = bytes_added(c, id, n);
            let more = |info: TunnelModel|
                TunnelModel {
                    bytes_proxied: if info.bytes_proxied + n > u64::MAX {
                        (info.bytes_proxied + n - u64::MAX - 1) as u64
                    } else {
                        (info.bytes_proxied + n) as u64
                    },
                    ..info
                };
            &&& home(c, id) matches Some(g) ==> only_info_changed(
                c,
                after,
                id,
                more(g.members[id].info),
            )
            &&& c.index.contains_key(id) ==> (c.index[id] matches KeyModel::P2p(name) ==> (
            c.p2p.contains_key(name) ==> only_publisher_changed(
                c,
                after,
                name,
                more(c.p2p[name].tunnel_info),
            )))
            &&& home(c, id) is None && !(c.index.contains_key(id) && (c.index[id] matches
                KeyModel::P2p(name) && c.p2p.contains_key(name))) ==> after == c
        }),
{
}

/// The group behind a route.
pub open spec fn behind(c: CoreModel, key: KeyModel) -> Option<GroupModel> {
    match key {
        KeyModel::Http(s) if c.http.contains_key(s) => Some(c.http[s]),
        KeyModel::Tcp(p) if c.tcp.contains_key(p) => Some(c.tcp[p]),
        KeyModel::Udp(p) if c.udp.contains_key(p) => Some(c.udp[p]),
        _ => None,
    }
}

/// A request for a route can go to exactly those members of its group that are healthy and
/// whose session is there; and it is served exactly if there is such a member.
pub proof fn law_who_can_serve(c: CoreModel, key: KeyModel, id: u128)
    ensures
        can_serve(c, key, id) <==> (behind(c, key) matches Some(g) && g.members.contains_key(id)
            && g.members[id].healthy && c.sessions.contains_key(g.members[id].info.session_id)),
        can_serve(c, key, id) ==> is_served(c, key),
        is_served(c, key) <==> exists|m: u128|
            {
                &&& behind(c, key) is Some
                &&& #[trigger] (behind(c, key)->0).members.contains_key(m)
                &&& (behind(c, key)->0).members[m].healthy
                &&& c.sessions.contains_key((behind(c, key)->0).members[m].info.session_id)
            },
{
    let g = behind(c, key)->0;
    if is_served(c, key) {
        let m = choose|m: u128| can_serve(c, key, m);
        assert(behind(c, key) is Some);
        assert(g.members.contains_key(m));
    }
    if exists|m: u128|
        {
            &&& behind(c, key) is Some
            &&& #[trigger] g.members.contains_key(m)
            &&& g.members[m].healthy
            &&& c.sessions.contains_key(g.members[m].info.session_id)
        } {
        let m = choose|m: u128|
            {
                &&& behind(c, key) is Some
                &&& #[trigger] g.members.contains_key(m)
                &&& g.members[m].healthy
                &&& c.sessions.contains_key(g.members[m].info.session_id)
            };
        assert(can_serve(c, key, m));
    }
}

/// A publisher can be reached exactly if it is registered and its session is there.
pub proof fn law_who_is_published(c: CoreModel, name: Seq<char>)
    ensures
        is_published(c, name) <==> c.p2p.contains_key(name) && c.sessions.contains_key(
            c.p2p[name].tunnel_info.session_id,
        ),
{
}

// ── what a client reports ────────────────────────────────────────────────────

/// What a publisher's client reports of its network replaces what it reported before, and
/// changes nothing else; a report on anything but a publisher is passed over.
pub proof fn law_network_reports(
    before: CoreModel,
    after: CoreModel,
    cfg: ConfigModel,
    session_id: u128,
    tunnel_id: u128,
    nat_type: Seq<char>,
    mapped_addrs: Seq<Seq<char>>,
    local_addrs: Seq<Seq<char>>,
    conn_id: u128,
    at: u64,
    now: u64,
    step: FrameStep,
)
    requires
        frame_handled(
            before,
            after,
            cfg,
            session_id,
            FrameModel::P2pNatInfo { tunnel_id, nat_type, mapped_addrs, local_addrs },
            conn_id,
            at,
            now,
            step,
        ),
    ensures
        step is Ignore,
        after == (CoreModel { p2p: after.p2p, ..before }),
        after.p2p.dom() =~= before.p2p.dom(),
        forall|name: Seq<char>| #[trigger]
            before.p2p.contains_key(name) ==> after.p2p[name] == if before.index.contains_key(
                tunnel_id,
            ) && before.index[tunnel_id] == KeyModel::P2p(name) {
                PublisherModel { nat_type: Some(nat_type), mapped_addrs, ..before.p2p[name] }
            } else {
                before.p2p[name]
            },
{
}

/// A request for a tunnel is looked at as it came. A ping is answered with its own time, and the
/// answer to a ping is passed on with its time. None of them changes anything but when the
/// session was last heard of; and what only a server sends is passed over.
pub proof fn law_plain_frames(
    before: CoreModel,
    after: CoreModel,
    cfg: ConfigModel,
    session_id: u128,
    frame: FrameModel,
    conn_id: u128,
    at: u64,
    now: u64,
    step: FrameStep,
)
    requires
        frame_handled(before, after, cfg, session_id, frame, conn_id, at, now, step),
    ensures
        frame matches FrameModel::RegisterTunnel(req) ==> after == before && (step matches
            FrameStep::Gate(r) && r@ == req),
        frame matches FrameModel::Ping { timestamp } ==> (step matches FrameStep::Reply(f) && f@
            == (FrameModel::Pong { timestamp })),
        frame matches FrameModel::Pong { timestamp } ==> step == FrameStep::Heard(timestamp),
        step is Gate <==> frame is RegisterTunnel,
        step is Heard <==> frame is Pong,
        step is Closed <==> frame is UnregisterTunnel,
        step is Alert ==> frame is TunnelUnhealthy,
        step is TellPublisher ==> frame is P2pConnect,
        step is Reply ==> frame is Ping || frame is P2pConnect,
        frame is TunnelHealthy || frame is P2pNatInfo ==> step is Ignore,
        !(frame is RegisterTunnel || frame is UnregisterTunnel || frame is P2pConnect
            || frame is Ping || frame is Pong || frame is P2pNatInfo || frame is TunnelHealthy
            || frame is TunnelUnhealthy) ==> after == before && step is Ignore,
        (frame is Ping || frame is Pong) && !before.sessions.contains_key(session_id) ==> after
            == before,
{
}

// ── removing ─────────────────────────────────────────────────────────────────

/// A client that closes a tunnel has it taken out, and what is logged of it is what it had
/// counted by then; of a tunnel that is not there, nothing is taken out and zeros are logged.
pub proof fn law_closing_reports_the_counters(
    before: CoreModel,
    after: CoreModel,
    cfg: ConfigModel,
    session_id: u128,
    tunnel_id: u128,
    conn_id: u128,
    at: u64,
    now: u64,
    step: FrameStep,
)
    requires
        frame_handled(
            before,
            after,
            cfg,
            session_id,
            FrameModel::UnregisterTunnel { tunnel_id },
            conn_id,
            at,
            now,
            step,
        ),
    ensures
        !after.index.contains_key(tunnel_id),
        step matches FrameStep::Closed(t) && t == closed_tunnel(before, tunnel_id) && t.tunnel_id
            == tunnel_id && (home(before, tunnel_id) matches Some(g) ==> t.request_count
            == g.members[tunnel_id].info.request_count && t.bytes_proxied
            == g.members[tunnel_id].info.bytes_proxied) && (before.index.contains_key(tunnel_id)
            ==> (before.index[tunnel_id] matches KeyModel::P2p(name) ==> (before.p2p.contains_key(
            name,
        ) ==> t.request_count == before.p2p[name].tunnel_info.request_count && t.bytes_proxied
            == before.p2p[name].tunnel_info.bytes_proxied))) && (!before.index.contains_key(
            tunnel_id,
        ) ==> t.request_count == 0 && t.bytes_proxied == 0 && after == before),
{
}

/// What is logged when a session ends: each tunnel that it lists, in order, with what the tunnel
/// has counted; of a session that is not there, nothing.
pub proof fn law_what_is_logged_at_the_end(c: CoreModel, session_id: u128, i: int)
    ensures
        !c.sessions.contains_key(session_id) ==> listed_tunnels(c, session_id).len() == 0,
        c.sessions.contains_key(session_id) ==> listed_tunnels(c, session_id).len()
            == c.sessions[session_id].tunnels.len(),
        c.sessions.contains_key(session_id) && 0 <= i < c.sessions[session_id].tunnels.len() ==> {
            let id = c.sessions[session_id].tunnels[i];
            let t = listed_tunnels(c, session_id)[i];
            &&& t.tunnel_id == id
            &&& home(c, id) matches Some(g) ==> t.request_count == g.members[id].info.request_count
                && t.bytes_proxied == g.members[id].info.bytes_proxied
            &&& !c.index.contains_key(id) ==> t.request_count == 0 && t.bytes_proxied == 0
        },
{
}

/// A tunnel that leaves while others of its group stay takes nothing but itself: the route, the
/// port and the pool stay, the others stay as they were, and no edge is told.
pub proof fn law_leaving_a_group(c: CoreModel, id: u128, other: u128)
    requires
        home(c, id) matches Some(g) && g.members.contains_key(other) && other != id,
    ensures
        ({
            let after = tunnel_removed(c, id);
            let g = home(c, id)->0;
            let h = GroupModel { members: g.members.remove(id), ..g };
            after == (match c.index[id] {
                KeyModel::Http(s) => CoreModel {
                    index: c.index.remove(id),
                    http: c.http.insert(s, h),
                    ..c
                },
                KeyModel::Tcp(p) => CoreModel {
                    index: c.index.remove(id),
                    tcp: c.tcp.insert(p, h),
                    ..c
                },
                KeyModel::Udp(p) => CoreModel {
                    index: c.index.remove(id),
                    udp: c.udp.insert(p, h),
                    ..c
                },
                KeyModel::P2p(_) => c,
            })
        }),
{
    let g = home(c, id)->0;
    assert(g.members.remove(id).dom().contains(other));
}

/// The last tunnel of a group takes the route with it. A port is free again, as the next to be
/// handed out; its edge is told; and a TCP pool's name and key no longer lead to it.
pub proof fn law_leaving_as_the_last(c: CoreModel, id: u128)
    requires
        home(c, id) matches Some(g) && forall|x: u128| #[trigger] g.members.contains_key(x) ==> x
            == id,
    ensures
        ({
            let after = tunnel_removed(c, id);
            let g = home(c, id)->0;
            match c.index[id] {
                KeyModel::Http(s) => after == (CoreModel {
                    index: c.index.remove(id),
                    http: c.http.remove(s),
                    ..c
                }),
                KeyModel::Tcp(p) => after == (CoreModel {
                    index: c.index.remove(id),
                    tcp: c.tcp.remove(p),
                    tcp_ports: c.tcp_ports + seq![p],
                    tcp_events: c.tcp_events + seq![TcpTunnelEvent::Unregistered { port: p }],
                    tcp_groups: after.tcp_groups,
                    ..c
                }) && (g.key_hash is None ==> after.tcp_groups == c.tcp_groups) && (
                g.key_hash matches Some(key) ==> after.tcp_groups == c.tcp_groups.remove(
                    (g.name, key),
                )),
                KeyModel::Udp(p) => after == (CoreModel {
                    index: c.index.remove(id),
                    udp: c.udp.remove(p),
                    udp_ports: c.udp_ports + seq![p],
                    udp_events: c.udp_events + seq![UdpTunnelEvent::Unregistered { port: p }],
                    ..c
                }),
                KeyModel::P2p(_) => false,
            }
        }),
{
    let g = home(c, id)->0;
    assert(g.members.remove(id).dom() =~= Set::empty());
    assert forall|p: u16| c.tcp_ports.push(p) =~= c.tcp_ports + seq![p] by {}
    assert forall|p: u16| c.udp_ports.push(p) =~= c.udp_ports + seq![p] by {}
    assert forall|e: TcpTunnelEvent| c.tcp_events.push(e) =~= c.tcp_events + seq![e] by {}
    assert forall|e: UdpTunnelEvent| c.udp_events.push(e) =~= c.udp_events + seq![e] by {}
}

/// A publisher that leaves frees its name, and takes nothing else.
pub proof fn law_leaving_publisher(c: CoreModel, id: u128, name: Seq<char>)
    requires
        c.index.contains_key(id) && c.index[id] == KeyModel::P2p(name),
    ensures
        tunnel_removed(c, id) == (CoreModel {
            index: c.index.remove(id),
            p2p: c.p2p.remove(name),
            ..c
        }),
{
}

/// Taking out a tunnel that is not there changes nothing; so does taking one out again.
pub proof fn law_leaving_twice(c: CoreModel, id: u128)
    ensures
        !c.index.contains_key(id) ==> tunnel_removed(c, id) == c,
        tunnel_removed(tunnel_removed(c, id), id) == tunnel_removed(c, id),
{
}

// ── ports ────────────────────────────────────────────────────────────────────

/// A range of ports holds every port from the lowest to the highest, both included, each once,
/// with the highest to be handed out first.
pub proof fn law_port_range(low: u16, high: u16, p: u16)
    ensures
        port_range(low, high).contains(p) <==> low <= p <= high,
        port_range(low, high).no_duplicates(),
        low <= high ==> port_range(low, high).len() == high - low + 1 && port_range(
            low,
            high,
        ).last() == high && port_range(low, high)[0] == low,
        low > high ==> port_range(low, high).len() == 0,
{
    if low <= p <= high {
        assert(port_range(low, high)[p - low] == p);
    }
}

/// A new core has its ports and its limits, and nothing else: no tunnel, no session, nothing
/// that waits and nothing to tell.
pub proof fn law_new_core(
    tcp_ports: Seq<u16>,
    udp_ports: Seq<u16>,
    max_tunnels: usize,
    max_connections: usize,
    ip_rate_limit: u32,
)
    ensures
        ({
            let c = empty_core(tcp_ports, udp_ports, max_tunnels, max_connections, ip_rate_limit);
            &&& c.tcp_ports == tcp_ports && c.udp_ports == udp_ports
            &&& c.max_tunnels == max_tunnels && c.max_connections == max_connections
                && c.ip_rate_limit == ip_rate_limit
            &&& c.http.dom().len() == 0 && c.tcp.dom().len() == 0 && c.udp.dom().len() == 0
                && c.p2p.dom().len() == 0 && c.tcp_groups.dom().len() == 0
            &&& c.sessions.dom().len() == 0 && c.index.dom().len() == 0 && c.pending.len() == 0
            &&& c.tcp_events.len() == 0 && c.udp_events.len() == 0 && c.group_events.len() == 0
        }),
{
}

} // verus!
