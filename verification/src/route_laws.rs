//! Who serves a route, and how remote peers talk to a UDP tunnel.
use crate::group::GroupModel;
use crate::health_laws::differs_in_member;
use crate::loop_laws::number_of;
use crate::proxy::StreamEnd;
use crate::router_model::{bytes_added, can_serve, group_at, CoreModel, KeyModel};
use crate::router_ops::{picked, resolved};
use crate::traffic_laws::behind;
use crate::tunnel::{MemberModel, TunnelInfo, TunnelModel, UdpTunnelEvent};
use crate::udp::{
    be_bytes, be_value, caught_up, datagram_handled, edge_stepped, framed, peer_key, reaped,
    udp_settled, udp_stepped, DatagramStep, EdgeEvent, EdgeStep, Peer, UdpEvent, UdpState,
    MAX_BUFFERED_PACKETS, MAX_DATAGRAM_SIZE, REAPER_INTERVAL_SECS, SESSION_IDLE_TIMEOUT_SECS,
};
use vstd::prelude::*;

verus! {

// ── picking and resolving ────────────────────────────────────────────────────

/// Whether the member `id` of `g` is healthy and has its session.
pub open spec fn is_ready(c: CoreModel, g: GroupModel, id: u128) -> bool {
    g.members.contains_key(id) && g.members[id].healthy && c.sessions.contains_key(
        g.members[id].info.session_id,
    )
}

/// Whether some member of `g` that is ready is registered as `info`.
pub open spec fn is_some_ready(c: CoreModel, g: GroupModel, info: TunnelModel) -> bool {
    exists|id: u128| #[trigger] is_ready(c, g, id) && info == g.members[id].info
}

/// Whoever is picked for a route is a healthy member of its group whose session is there. Where
/// there is a healthy member and all of them have their sessions, somebody is picked; where
/// there is no group, or none of its members is healthy, nobody is.
pub proof fn law_who_is_picked(c: CoreModel, key: KeyModel, r: Option<TunnelInfo>, one: u128)
    requires
        picked(c, key, r),
    ensures
        r matches Some(info) ==> (behind(c, key) matches Some(g) && is_some_ready(c, g, info@)),
        (behind(c, key) matches Some(g) && is_ready(c, g, one) && forall|id: u128| #[trigger]
            g.members.contains_key(id) && g.members[id].healthy ==> is_ready(c, g, id))
            ==> r is Some,
        behind(c, key) is None ==> r is None,
{
    if let Some(info) = r {
        let id = choose|id: u128| #[trigger]
            can_serve(c, key, id) && info@ == (group_at(c, key)->0).members[id].info;
        assert(is_ready(c, behind(c, key)->0, id));
    } else if let Some(g) = behind(c, key) {
        if is_ready(c, g, one) {
            assert(crate::group::healthy_ids(g).contains(one));
        }
    }
}

/// Whether `after` is `before` with one more request for the member `id` of the group behind a
/// route, and nothing else.
pub open spec fn one_more_for(
    before: CoreModel,
    after: CoreModel,
    key: KeyModel,
    id: u128,
) -> bool {
    let (g, h) = (behind(before, key)->0, behind(after, key)->0);
    let (m, n) = (g.members[id], h.members[id]);
    &&& match key {
        KeyModel::Http(s) => after == (CoreModel { http: before.http.insert(s, h), ..before }),
        KeyModel::Tcp(p) => after == (CoreModel { tcp: before.tcp.insert(p, h), ..before }),
        KeyModel::Udp(p) => after == (CoreModel { udp: before.udp.insert(p, h), ..before }),
        KeyModel::P2p(_) => false,
    }
    &&& differs_in_member(g, h, id) && h.zero_healthy_alerted == g.zero_healthy_alerted
    &&& n == (MemberModel {
        info: TunnelModel { request_count: n.info.request_count, ..m.info },
        ..m
    })
    &&& m.info.request_count < u64::MAX ==> n.info.request_count == m.info.request_count + 1
}

/// Resolving a route gives a healthy member whose session is there, as it is registered with
/// this request counted; that is all that changes. Where nobody is given, nothing changes.
pub proof fn law_resolving(
    before: CoreModel,
    after: CoreModel,
    key: KeyModel,
    r: Option<TunnelInfo>,
)
    requires
        resolved(before, after, key, r),
    ensures
        r matches Some(info) ==> behind(before, key) is Some && behind(after, key) is Some
            && exists|id: u128| #[trigger]
            is_ready(before, behind(before, key)->0, id) && one_more_for(before, after, key, id)
                && info@ == (behind(after, key)->0).members[id].info,
        r is None ==> after == before,
        behind(before, key) is None ==> r is None,
{
    if let Some(info) = r {
        let id = choose|id: u128| #[trigger]
            can_serve(before, key, id) && after == crate::router_model::dispatched(before, key, id)
                && info@ == (group_at(after, key)->0).members[id].info;
        assert(is_ready(before, behind(before, key)->0, id));
        assert(one_more_for(before, after, key, id));
    }
}

// ── datagrams on a byte stream ───────────────────────────────────────────────

/// The head of a datagram is its length, in four bytes with the most significant first; the
/// datagram follows as it is.
pub proof fn law_datagram_heads(data: Seq<u8>)
    requires
        data.len() <= u32::MAX,
    ensures
        framed(data).len() == 4 + data.len(),
        number_of(framed(data).take(4)) == data.len(),
        framed(data).skip(4) == data,
{
    let n = data.len();
    law_four_bytes(be_bytes(n));
    assert(framed(data).take(4) =~= be_bytes(n));
    assert(framed(data).skip(4) =~= data);
    crate::udp::law_datagram_head(n);
}

/// Four bytes stand for a number with the most significant first.
pub proof fn law_four_bytes(b: Seq<u8>)
    requires
        b.len() == 4,
    ensures
        be_value(b) == number_of(b),
{
    reveal_with_fuel(number_of, 5);
    let b3 = b.drop_last();
    let b2 = b3.drop_last();
    let b1 = b2.drop_last();
    assert(b1.drop_last() =~= Seq::empty());
    assert(b1.last() == b[0] && b2.last() == b[1] && b3.last() == b[2] && b.last() == b[3]);
}

/// What the UDP edge allows: datagrams of up to 65535 bytes, 64 of them waiting, a minute
/// without any, and a look at what has ended every ten seconds.
pub proof fn law_udp_limits()
    ensures
        MAX_DATAGRAM_SIZE == 65535,
        MAX_BUFFERED_PACKETS == 64,
        SESSION_IDLE_TIMEOUT_SECS == 60,
        REAPER_INTERVAL_SECS == 10,
{
}

// ── listeners ────────────────────────────────────────────────────────────────

/// There is a listener on a port from when a tunnel registers there until one leaves it. A
/// listener is started for every registration, in place of the one that is there if there is
/// one, and stopped where there is one to stop.
pub proof fn law_listeners_follow_tunnels(
    before: Set<u16>,
    after: Set<u16>,
    event: EdgeEvent,
    step: EdgeStep,
    p: u16,
)
    requires
        edge_stepped(before, after, event, step),
    ensures
        event matches EdgeEvent::Tunnel(UdpTunnelEvent::Registered { port, .. }) ==> (
        after.contains(p) <==> before.contains(p) || p == port) && (step matches EdgeStep::Start {
            port: q,
            replace,
        } && q == port && (replace <==> before.contains(port))),
        event matches EdgeEvent::Tunnel(UdpTunnelEvent::Unregistered { port }) ==> (after.contains(
            p,
        ) <==> before.contains(p) && p != port) && (before.contains(port) ==> step == (
        EdgeStep::Stop { port })) && (!before.contains(port) ==> step is Wait),
        event is Lagged ==> after == before && step is Resync,
        event is Closed ==> after == before && step is End,
{
}

/// Catching up stops exactly the listeners on ports that are no longer in use, and starts
/// exactly those that are missing, each once.
pub proof fn law_catching_up(
    before: Set<u16>,
    in_use: Set<u16>,
    after: Set<u16>,
    stop: Seq<u16>,
    start: Seq<u16>,
    p: u16,
)
    requires
        caught_up(before, in_use, after, stop, start),
    ensures
        after.contains(p) <==> in_use.contains(p),
        stop.contains(p) <==> before.contains(p) && !in_use.contains(p),
        start.contains(p) <==> in_use.contains(p) && !before.contains(p),
        stop.no_duplicates() && start.no_duplicates(),
{
    assert(stop.to_set().contains(p) <==> before.difference(in_use).contains(p));
    assert(start.to_set().contains(p) <==> in_use.difference(before).contains(p));
}

/// Looking for what has ended forgets exactly the sessions whose connection has closed; the
/// others keep theirs.
pub proof fn law_reaping(
    sessions: Map<(u8, u128, u16), u128>,
    closed: Seq<u128>,
    key: (u8, u128, u16),
)
    ensures
        reaped(sessions, closed).contains_key(key) <==> sessions.contains_key(key)
            && !closed.contains(sessions[key]),
        reaped(sessions, closed).contains_key(key) ==> reaped(sessions, closed)[key]
            == sessions[key],
{
}

// ── sessions of remote peers ─────────────────────────────────────────────────

/// Two peers share a session exactly if they have the same family, address and port.
pub proof fn law_peers_are_apart(a: Peer, b: Peer)
    ensures
        peer_key(a) == peer_key(b) <==> a.family == b.family && a.bits == b.bits && a.port == b.port,
{
}

/// A datagram that its address may not send is dropped. A peer with a session has its
/// datagrams passed on to its own connection. For any other peer, a healthy member of the
/// group behind the port whose session is there is asked; where nobody can serve, the datagram
/// is dropped.
pub proof fn law_where_datagrams_go(
    c: CoreModel,
    sessions: Map<(u8, u128, u16), u128>,
    port: u16,
    peer: Peer,
    allowed: bool,
    step: DatagramStep,
    one: u128,
)
    requires
        datagram_handled(c, sessions, port, peer, allowed, step),
    ensures
        !allowed ==> step is Drop,
        step is PassOn <==> allowed && sessions.contains_key((peer.family, peer.bits, peer.port)),
        step matches DatagramStep::PassOn(id) ==> id == sessions[(
            peer.family,
            peer.bits,
            peer.port,
        )],
        step matches DatagramStep::TakePermit(info) ==> c.udp.contains_key(port) && is_some_ready(
            c,
            c.udp[port],
            info@,
        ),
        allowed && !sessions.contains_key((peer.family, peer.bits, peer.port))
            && c.udp.contains_key(port) && is_ready(c, c.udp[port], one) && (forall|id: u128|
         #[trigger]
            c.udp[port].members.contains_key(id) && c.udp[port].members[id].healthy ==> is_ready(
                c,
                c.udp[port],
                id,
            )) ==> step is TakePermit,
        !c.udp.contains_key(port) ==> !(step is TakePermit),
{
    if allowed && !sessions.contains_key(peer_key(peer)) {
        let key = KeyModel::Udp(port);
        let r = choose|r: Option<TunnelInfo>| #[trigger]
            picked(c, key, r) && step == match r {
                Some(info) => DatagramStep::TakePermit(info),
                None => DatagramStep::Drop,
            };
        law_who_is_picked(c, key, r, one);
        assert(c.udp.contains_key(port) ==> behind(c, key) == Some(c.udp[port]));
    }
}

/// How a session of a remote peer goes: it is told, gets its stream, and then passes datagrams
/// on, each way as they come; it ends where it could not be told, where no stream came, where a
/// datagram could not be passed on, and when either side ends or nothing happens for too long.
/// Nothing wakes one that has ended.
pub proof fn law_how_a_udp_session_goes(state: UdpState, event: UdpEvent)
    ensures
        ({
            let (next, step) = udp_stepped(state, event);
            &&& state is AwaitTold && event == UdpEvent::Told(true) ==> next is AwaitStream
                && step is AwaitStream
            &&& step is AwaitStream ==> state is AwaitTold && event == UdpEvent::Told(true)
            &&& state is AwaitStream && event == UdpEvent::Stream(StreamEnd::Arrived) ==> next == (
            UdpState::Bridging { total: 0 }) && step is Bridge
            &&& step is Bridge ==> state is AwaitStream && event == UdpEvent::Stream(
                StreamEnd::Arrived,
            )
            &&& step is ToStream <==> state is Bridging && event is FromPeer
            &&& step is ToPeer <==> state is Bridging && event is FromStream
            &&& step is ToStream || step is ToPeer ==> next == state
            &&& state matches UdpState::Bridging { total } ==> (event matches UdpEvent::Passed {
                bytes,
                ok,
            } ==> (ok && total + bytes <= u64::MAX ==> step is Wait && next == (UdpState::Bridging {
                total: (total + bytes) as u64,
            })))
            &&& step is End <==> match state {
                UdpState::AwaitTold => event == UdpEvent::Told(false),
                UdpState::AwaitStream => event == UdpEvent::Stream(StreamEnd::Dropped) || event
                    == UdpEvent::Stream(StreamEnd::TimedOut),
                UdpState::Bridging { .. } => event is PeerEnded || event is StreamFailed
                    || event is Idle || (event is Passed && !event->ok),
                UdpState::Ended => false,
            }
            &&& step is End ==> next is Ended
            &&& state is Ended ==> next is Ended && step is Wait
        }),
{
}

/// What a session leaves: one that the edge gave up waits no longer, and what a session passed
/// on counts for its tunnel when it ends, not before. Nothing else that happens to it touches
/// the core.
pub proof fn law_what_a_udp_session_leaves(
    c: CoreModel,
    state: UdpState,
    event: UdpEvent,
    conn_id: u128,
    tunnel_id: u128,
)
    ensures
        ({
            let after = udp_settled(c, state, event, conn_id, tunnel_id);
            let given_up = (state is AwaitTold && event == UdpEvent::Told(false)) || (
            state is AwaitStream && event == UdpEvent::Stream(StreamEnd::TimedOut));
            &&& given_up ==> {
                &&& after == (CoreModel { pending: after.pending, ..c })
                &&& forall|id: u128| #[trigger]
                    after.pending.contains(id) <==> c.pending.contains(id) && id != conn_id
            }
            &&& state matches UdpState::Bridging { total } ==> (event is PeerEnded
                || event is StreamFailed || event is Idle || (event is Passed && !event->ok)
                ==> after == bytes_added(c, tunnel_id, total))
            &&& !given_up && !(state is Bridging && udp_stepped(state, event).1 is End) ==> after
                == c
        }),
{
}

} // verus!
