//! What the routing core keeps true from one operation to the next.
use crate::group::{
    group_dispatched, group_failed, group_joined, group_left, group_proxied, group_recovered,
    healthy_ids, is_healthy_member, is_member_protocol, solo_group, GroupModel, GroupSpecModel,
};
use crate::protocol::TunnelProtocol;
use crate::router_model::{
    alert_due_for, alert_sent, bytes_added, can_serve, dispatched, empty_core, group_at, http_label,
    http_registration, is_last_member, limit_error, marked_healthy, marked_unhealthy, member_key,
    nat_updated, new_tunnel, opened_group, p2p_dispatched, p2p_registration, port_range,
    request_counted, routed, session_heard, session_removed, tcp_registration, tunnel_at, tunnel_removed, tunnels_removed, udp_registration,
    with_group, CoreModel, Draw, KeyModel, PublisherModel,
};
use crate::router_ops::{picked, resolved};
use crate::session_info::{new_session, SessionModel};
use crate::tunnel::{
    checked_member, info_dispatched, info_proxied, trusted_member, MemberModel, TcpTunnelEvent,
    TunnelInfo, TunnelModel, UdpTunnelEvent, HEALTH_EVENT_RING_SIZE,
};
use vstd::prelude::*;

verus! {

/// Whether the tunnel `id` is a member of the group at a route.
pub open spec fn is_member(c: CoreModel, key: KeyModel, id: u128) -> bool {
    group_at(c, key) is Some && (group_at(c, key)->0).members.contains_key(id)
}

/// The member `id` of the group at a route.
pub open spec fn member_at(c: CoreModel, key: KeyModel, id: u128) -> MemberModel {
    (group_at(c, key)->0).members[id]
}

/// What a tunnel is registered as agrees with its route.
pub open spec fn fits_route(key: KeyModel, info: TunnelModel) -> bool {
    match key {
        KeyModel::Http(label) => info.subdomain == Some(label) && info.assigned_port is None,
        KeyModel::Tcp(port) => info.assigned_port == Some(port) && info.protocol
            == TunnelProtocol::Tcp && info.subdomain is None,
        KeyModel::Udp(port) => info.assigned_port == Some(port) && info.protocol
            == TunnelProtocol::Udp && info.subdomain is None,
        KeyModel::P2p(_) => info.assigned_port is None && info.subdomain is None && info.protocol
            == TunnelProtocol::P2p,
    }
}

/// Every member of a group is known, under its own id, at the group's route; and it keeps
/// no more history than the ring holds.
pub open spec fn members_indexed(c: CoreModel) -> bool {
    forall|key: KeyModel, id: u128| #[trigger]
        is_member(c, key, id) ==> {
            &&& c.index.contains_key(id)
            &&& c.index[id] == key
            &&& member_at(c, key, id).info.tunnel_id == id
            &&& fits_route(key, member_at(c, key, id).info)
            &&& member_at(c, key, id).health_events.len() <= HEALTH_EVENT_RING_SIZE
        }
}

/// Every known tunnel is where the index says.
pub open spec fn index_sound(c: CoreModel) -> bool {
    forall|id: u128| #[trigger]
        c.index.contains_key(id) ==> match c.index[id] {
            KeyModel::P2p(name) => c.p2p.contains_key(name) && c.p2p[name].tunnel_info.tunnel_id
                == id,
            key => is_member(c, key, id),
        }
}

/// Every publisher is known, under its own id, at its name.
pub open spec fn publishers_indexed(c: CoreModel) -> bool {
    forall|name: Seq<char>| #[trigger]
        c.p2p.contains_key(name) ==> {
            &&& c.index.contains_key(c.p2p[name].tunnel_info.tunnel_id)
            &&& c.index[c.p2p[name].tunnel_info.tunnel_id] == KeyModel::P2p(name)
            &&& c.p2p[name].name == name
            &&& fits_route(KeyModel::P2p(name), c.p2p[name].tunnel_info)
        }
}

/// A group has members; one without a key has a single one; and all have one protocol.
pub open spec fn group_sound(g: GroupModel) -> bool {
    &&& exists|id: u128| #[trigger] g.members.contains_key(id)
    &&& g.key_hash is None ==> forall|a: u128, b: u128| #[trigger]
        g.members.contains_key(a) && #[trigger] g.members.contains_key(b) ==> a == b
    &&& forall|a: u128, b: u128| #[trigger]
        g.members.contains_key(a) && #[trigger] g.members.contains_key(b)
            ==> g.members[a].info.protocol == g.members[b].info.protocol
}

/// Every group is sound.
pub open spec fn groups_sound(c: CoreModel) -> bool {
    forall|key: KeyModel| (#[trigger] group_at(c, key)) is Some ==> group_sound(group_at(c, key)->0)
}

/// The pools that the index of TCP pools gives are the groups with a key, no other.
pub open spec fn pools_sound(c: CoreModel) -> bool {
    &&& forall|pool: (Seq<char>, Seq<char>)| #[trigger]
        c.tcp_groups.contains_key(pool) ==> {
            &&& c.tcp.contains_key(c.tcp_groups[pool])
            &&& c.tcp[c.tcp_groups[pool]].name == pool.0
            &&& c.tcp[c.tcp_groups[pool]].key_hash == Some(pool.1)
        }
    &&& forall|port: u16| #[trigger]
        c.tcp.contains_key(port) && c.tcp[port].key_hash is Some ==> {
            &&& c.tcp_groups.contains_key((c.tcp[port].name, c.tcp[port].key_hash->0))
            &&& c.tcp_groups[(c.tcp[port].name, c.tcp[port].key_hash->0)] == port
        }
}

/// A free port is free once, and nothing is routed to it.
pub open spec fn ports_sound(c: CoreModel) -> bool {
    &&& c.tcp_ports.no_duplicates()
    &&& c.udp_ports.no_duplicates()
    &&& forall|i: int| 0 <= i < c.tcp_ports.len() ==> !c.tcp.contains_key(#[trigger] c.tcp_ports[i])
    &&& forall|i: int| 0 <= i < c.udp_ports.len() ==> !c.udp.contains_key(#[trigger] c.udp_ports[i])
}

/// The session that owns a known tunnel is there, and lists it.
pub open spec fn owners_sound(c: CoreModel) -> bool {
    forall|id: u128| #[trigger]
        c.index.contains_key(id) ==> {
            &&& tunnel_at(c, id) is Some
            &&& c.sessions.contains_key((tunnel_at(c, id)->0).session_id)
            &&& c.sessions[(tunnel_at(c, id)->0).session_id].tunnels.contains(id)
        }
}

/// A session lists no more tunnels than the limit, and no known tunnel of another session.
pub open spec fn sessions_sound(c: CoreModel) -> bool {
    forall|sid: u128| #[trigger]
        c.sessions.contains_key(sid) ==> {
            &&& c.sessions[sid].tunnels.len() <= c.max_tunnels
            &&& forall|id: u128| #[trigger]
                c.sessions[sid].tunnels.contains(id) && c.index.contains_key(id) ==> (tunnel_at(
                    c,
                    id,
                )->0).session_id == sid
        }
}

/// What holds of the core between operations.
pub open spec fn consistent(c: CoreModel) -> bool {
    &&& members_indexed(c)
    &&& index_sound(c)
    &&& publishers_indexed(c)
    &&& groups_sound(c)
    &&& pools_sound(c)
    &&& ports_sound(c)
    &&& owners_sound(c)
    &&& sessions_sound(c)
}

/// Whether no tunnel has ever had the id `id`, as far as the core remembers.
pub open spec fn is_fresh(c: CoreModel, id: u128) -> bool {
    &&& !c.index.contains_key(id)
    &&& forall|sid: u128| #[trigger]
        c.sessions.contains_key(sid) ==> !c.sessions[sid].tunnels.contains(id)
}

/// The TCP ports that the core has charge of: the free ones and those in use.
pub open spec fn all_tcp_ports(c: CoreModel) -> Set<u16> {
    c.tcp_ports.to_set().union(c.tcp.dom())
}

/// The UDP ports that the core has charge of: the free ones and those in use.
pub open spec fn all_udp_ports(c: CoreModel) -> Set<u16> {
    c.udp_ports.to_set().union(c.udp.dom())
}

/// A core that has served nobody yet is consistent.
pub proof fn law_empty_core_consistent(
    tcp_low: u16,
    tcp_high: u16,
    udp_low: u16,
    udp_high: u16,
    max_tunnels: usize,
    max_connections: usize,
    ip_rate_limit: u32,
)
    ensures
        consistent(
            empty_core(
                port_range(tcp_low, tcp_high),
                port_range(udp_low, udp_high),
                max_tunnels,
                max_connections,
                ip_rate_limit,
            ),
        ),
        consistent(
            empty_core(
                port_range(tcp_low, tcp_high),
                Seq::empty(),
                max_tunnels,
                max_connections,
                ip_rate_limit,
            ),
        ),
{
}

/// What routing a fresh tunnel of a session to a group keeps, ports and pools aside.
proof fn lemma_routed(c: CoreModel, sid: u128, key: KeyModel, g: GroupModel, m: MemberModel)
    requires
        consistent(c),
        is_fresh(c, m.info.tunnel_id),
        limit_error(c, sid) is None,
        key !is P2p,
        m.info.session_id == sid,
        fits_route(key, m.info),
        m.health_events.len() <= HEALTH_EVENT_RING_SIZE,
        group_sound(g),
        match group_at(c, key) {
            None => g.members == Map::<u128, MemberModel>::empty().insert(m.info.tunnel_id, m),
            Some(g0) => g.members == g0.members.insert(m.info.tunnel_id, m),
        },
    ensures
        ({
            let c1 = routed(c, sid, m.info.tunnel_id, key, g);
            &&& members_indexed(c1)
            &&& index_sound(c1)
            &&& publishers_indexed(c1)
            &&& groups_sound(c1)
            &&& owners_sound(c1)
            &&& sessions_sound(c1)
        }),
{
    let id = m.info.tunnel_id;
    let c1 = routed(c, sid, id, key, g);
    assert forall|k: KeyModel| k != key implies group_at(c1, k) == group_at(c, k) by {
    }
    assert(group_at(c1, key) == Some(g));
    assert forall|k: KeyModel, x: u128| #[trigger] is_member(c1, k, x) implies (if k == key && x
        == id {
        true
    } else {
        is_member(c, k, x) && member_at(c1, k, x) == member_at(c, k, x)
    }) by {
    }
    assert forall|k: KeyModel, x: u128| #[trigger] is_member(c, k, x) implies is_member(c1, k, x)
        && x != id by {
    }
    assert(is_member(c1, key, id));
    assert forall|x: u128| c.index.contains_key(x) implies tunnel_at(c1, x) == tunnel_at(c, x) by {
        assert(x != id);
        match c.index[x] {
            KeyModel::P2p(_) => {},
            k => {
                assert(is_member(c, k, x));
                assert(is_member(c1, k, x));
            },
        }
    }
    assert(tunnel_at(c1, id) == Some(m.info));
    let t0 = c.sessions[sid].tunnels;
    assert(t0.push(id)[t0.len() as int] == id);
    assert forall|x: u128| #[trigger] t0.push(id).contains(x) <==> x == id || t0.contains(x) by {
        if t0.contains(x) {
            let i = choose|i: int| 0 <= i < t0.len() && t0[i] == x;
            assert(t0.push(id)[i] == x);
        }
    }
}

/// Registering an HTTP tunnel under a fresh id keeps the core consistent, and leaves the
/// ports alone.
pub proof fn law_http_registration_consistent(
    c: CoreModel,
    sid: u128,
    subdomain: Option<Seq<char>>,
    protocol: TunnelProtocol,
    group: Option<GroupSpecModel>,
    draw: Draw,
    existing: Option<TunnelProtocol>,
)
    requires
        consistent(c),
        is_fresh(c, draw.tunnel_id),
        c.http.contains_key(http_label(subdomain, draw)) ==> is_member_protocol(
            c.http[http_label(subdomain, draw)],
            existing,
        ),
    ensures
        http_registration(c, sid, subdomain, protocol, group, draw, existing) matches Ok(c1)
            ==> consistent(c1) && all_tcp_ports(c1) == all_tcp_ports(c) && all_udp_ports(c1)
            == all_udp_ports(c),
{
    let label = http_label(subdomain, draw);
    let key = KeyModel::Http(label);
    let info = new_tunnel(c, sid, draw, protocol, Some(label), None);
    let r = http_registration(c, sid, subdomain, protocol, group, draw, existing);
    if r is Ok {
        if c.http.contains_key(label) {
            let m = checked_member(info, (group->0).health_check, draw.at);
            let g0 = c.http[label];
            let g = group_joined(g0, m);
            assert(group_at(c, key) == Some(g0));
            assert(group_sound(g0));
            assert(g.members.contains_key(m.info.tunnel_id));
            lemma_routed(c, sid, key, g, m);
        } else {
            let m = match group {
                None => trusted_member(info),
                Some(asked) => checked_member(info, asked.health_check, draw.at),
            };
            let g = opened_group(label, info, group, draw.at);
            assert(g.members.contains_key(m.info.tunnel_id));
            lemma_routed(c, sid, key, g, m);
        }
    }
}

/// In a consistent core, registering an HTTP tunnel has one outcome: all members of a group
/// have the same protocol, so it does not matter which one is asked.
pub proof fn law_http_registration_determined(
    c: CoreModel,
    sid: u128,
    subdomain: Option<Seq<char>>,
    protocol: TunnelProtocol,
    group: Option<GroupSpecModel>,
    draw: Draw,
    a: Option<TunnelProtocol>,
    b: Option<TunnelProtocol>,
)
    requires
        consistent(c),
        c.http.contains_key(http_label(subdomain, draw)) ==> is_member_protocol(
            c.http[http_label(subdomain, draw)],
            a,
        ) && is_member_protocol(c.http[http_label(subdomain, draw)], b),
    ensures
        http_registration(c, sid, subdomain, protocol, group, draw, a) == http_registration(
            c,
            sid,
            subdomain,
            protocol,
            group,
            draw,
            b,
        ),
{
    let label = http_label(subdomain, draw);
    if c.http.contains_key(label) {
        assert(group_at(c, KeyModel::Http(label)) == Some(c.http[label]));
        assert(group_sound(c.http[label]));
        let id = choose|id: u128| #[trigger] c.http[label].members.contains_key(id);
        assert(c.http[label].members.dom().contains(id));
        assert(a == Some(c.http[label].members[id].info.protocol));
        assert(b == Some(c.http[label].members[id].info.protocol));
    }
}

/// Registering a TCP tunnel under a fresh id keeps the core consistent; the ports in use and
/// the free ones stay the same ports altogether.
pub proof fn law_tcp_registration_consistent(
    c: CoreModel,
    sid: u128,
    group: Option<GroupSpecModel>,
    draw: Draw,
)
    requires
        consistent(c),
        is_fresh(c, draw.tunnel_id),
    ensures
        tcp_registration(c, sid, group, draw) matches Ok((c1, _)) ==> consistent(c1)
            && all_tcp_ports(c1) == all_tcp_ports(c) && all_udp_ports(c1) == all_udp_ports(c),
{
    let r = tcp_registration(c, sid, group, draw);
    if r is Ok {
        let c1 = (r->Ok_0).0;
        if group is Some && c.tcp_groups.contains_key(
            ((group->0).group_name, (group->0).key_hash),
        ) {
            let port = c.tcp_groups[((group->0).group_name, (group->0).key_hash)];
            let key = KeyModel::Tcp(port);
            let info = new_tunnel(c, sid, draw, TunnelProtocol::Tcp, None, Some(port));
            let m = checked_member(info, (group->0).health_check, draw.at);
            let g0 = c.tcp[port];
            let g = group_joined(g0, m);
            assert(group_at(c, key) == Some(g0));
            assert(group_sound(g0));
            assert(g.members.contains_key(m.info.tunnel_id));
            assert forall|id: u128| g0.members.contains_key(id) implies (
            #[trigger] g0.members[id]).info.protocol == TunnelProtocol::Tcp by {
                assert(is_member(c, key, id));
            }
            lemma_routed(c, sid, key, g, m);
            assert(all_tcp_ports(c1) =~= all_tcp_ports(c));
        } else {
            let port = c.tcp_ports.last();
            let key = KeyModel::Tcp(port);
            let info = new_tunnel(c, sid, draw, TunnelProtocol::Tcp, None, Some(port));
            let m = match group {
                None => trusted_member(info),
                Some(asked) => checked_member(info, asked.health_check, draw.at),
            };
            let g = opened_group(crate::text::decimal(port as nat), info, group, draw.at);
            assert(!c.tcp.contains_key(c.tcp_ports[c.tcp_ports.len() - 1]));
            assert(g.members.contains_key(m.info.tunnel_id));
            lemma_routed(c, sid, key, g, m);
            let c0 = routed(c, sid, draw.tunnel_id, key, g);
            lemma_same_routes(c0, c1);
            assert(pools_sound(c1));
            assert(ports_sound(c1));
            assert(all_tcp_ports(c1) =~= all_tcp_ports(c)) by {
                assert forall|p: u16| #[trigger]
                    all_tcp_ports(c1).contains(p) <==> all_tcp_ports(c).contains(p) by {
                    if c.tcp_ports.contains(p) && p != port {
                        let i = choose|i: int| 0 <= i < c.tcp_ports.len() && c.tcp_ports[i] == p;
                        assert(c1.tcp_ports[i] == p);
                    }
                    if c1.tcp_ports.contains(p) {
                        let i = choose|i: int| 0 <= i < c1.tcp_ports.len() && c1.tcp_ports[i] == p;
                        assert(c.tcp_ports[i] == p);
                    }
                    assert(c.tcp_ports[c.tcp_ports.len() - 1] == port);
                }
            }
            assert(all_udp_ports(c1) =~= all_udp_ports(c));
        }
    }
}

/// What does not speak of ports and pools carries over between cores with the same routes.
proof fn lemma_same_routes(a: CoreModel, b: CoreModel)
    requires
        a.http == b.http,
        a.tcp == b.tcp,
        a.udp == b.udp,
        a.p2p == b.p2p,
        a.index == b.index,
        a.sessions == b.sessions,
        a.max_tunnels == b.max_tunnels,
    ensures
        members_indexed(a) == members_indexed(b),
        index_sound(a) == index_sound(b),
        publishers_indexed(a) == publishers_indexed(b),
        groups_sound(a) == groups_sound(b),
        owners_sound(a) == owners_sound(b),
        sessions_sound(a) == sessions_sound(b),
{
    assert forall|key: KeyModel| group_at(a, key) == group_at(b, key) by {
    }
    assert forall|key: KeyModel, id: u128| is_member(a, key, id) == is_member(b, key, id) by {
    }
    assert forall|id: u128| tunnel_at(a, id) == tunnel_at(b, id) by {
    }
}

/// Registering a UDP tunnel under a fresh id keeps the core consistent; the ports in use and
/// the free ones stay the same ports altogether.
pub proof fn law_udp_registration_consistent(c: CoreModel, sid: u128, draw: Draw)
    requires
        consistent(c),
        is_fresh(c, draw.tunnel_id),
    ensures
        udp_registration(c, sid, draw) matches Ok((c1, _)) ==> consistent(c1)
            && all_tcp_ports(c1) == all_tcp_ports(c) && all_udp_ports(c1) == all_udp_ports(c),
{
    let r = udp_registration(c, sid, draw);
    if r is Ok {
        let c1 = (r->Ok_0).0;
        let port = c.udp_ports.last();
        let key = KeyModel::Udp(port);
        let info = new_tunnel(c, sid, draw, TunnelProtocol::Udp, None, Some(port));
        let m = trusted_member(info);
        let g = solo_group(crate::text::decimal(port as nat), info);
        assert(!c.udp.contains_key(c.udp_ports[c.udp_ports.len() - 1]));
        assert(g.members.contains_key(m.info.tunnel_id));
        lemma_routed(c, sid, key, g, m);
        let c0 = routed(c, sid, draw.tunnel_id, key, g);
        lemma_same_routes(c0, c1);
        assert(pools_sound(c1));
        assert(ports_sound(c1));
        assert(all_udp_ports(c1) =~= all_udp_ports(c)) by {
            assert forall|p: u16| #[trigger]
                all_udp_ports(c1).contains(p) <==> all_udp_ports(c).contains(p) by {
                if c.udp_ports.contains(p) && p != port {
                    let i = choose|i: int| 0 <= i < c.udp_ports.len() && c.udp_ports[i] == p;
                    assert(c1.udp_ports[i] == p);
                }
                if c1.udp_ports.contains(p) {
                    let i = choose|i: int| 0 <= i < c1.udp_ports.len() && c1.udp_ports[i] == p;
                    assert(c.udp_ports[i] == p);
                }
                assert(c.udp_ports[c.udp_ports.len() - 1] == port);
            }
        }
        assert(all_tcp_ports(c1) =~= all_tcp_ports(c));
    }
}

/// Registering a publisher under a fresh id keeps the core consistent, and leaves the ports
/// alone.
pub proof fn law_p2p_registration_consistent(
    c: CoreModel,
    sid: u128,
    name: Seq<char>,
    secret_hash: Seq<char>,
    draw: Draw,
)
    requires
        consistent(c),
        is_fresh(c, draw.tunnel_id),
    ensures
        p2p_registration(c, sid, name, secret_hash, draw) matches Ok(c1) ==> consistent(c1)
            && all_tcp_ports(c1) == all_tcp_ports(c) && all_udp_ports(c1) == all_udp_ports(c),
{
    let r = p2p_registration(c, sid, name, secret_hash, draw);
    if r is Ok {
        let c1 = r->Ok_0;
        let id = draw.tunnel_id;
        assert forall|key: KeyModel| group_at(c1, key) == group_at(c, key) by {
        }
        assert forall|key: KeyModel, x: u128| is_member(c1, key, x) == is_member(c, key, x) by {
        }
        assert forall|x: u128| c.index.contains_key(x) implies tunnel_at(c1, x) == tunnel_at(
            c,
            x,
        ) by {
            assert(x != id);
        }
        let t0 = c.sessions[sid].tunnels;
        assert(t0.push(id)[t0.len() as int] == id);
        assert forall|x: u128| #[trigger]
            t0.push(id).contains(x) <==> x == id || t0.contains(x) by {
            if t0.contains(x) {
                let i = choose|i: int| 0 <= i < t0.len() && t0[i] == x;
                assert(t0.push(id)[i] == x);
            }
        }
        assert(members_indexed(c1));
        assert(index_sound(c1));
        assert(publishers_indexed(c1));
        assert(groups_sound(c1));
        assert(owners_sound(c1));
        assert(sessions_sound(c1));
        assert(all_tcp_ports(c1) =~= all_tcp_ports(c));
        assert(all_udp_ports(c1) =~= all_udp_ports(c));
    }
}

/// A session that starts under an unused id keeps the core consistent.
pub proof fn law_session_registration_consistent(
    c: CoreModel,
    sid: u128,
    addr: Seq<char>,
    token_id: Seq<char>,
    db_token_id: Option<Seq<char>>,
    user_id: Option<u128>,
    now: u64,
)
    requires
        consistent(c),
        !c.sessions.contains_key(sid),
    ensures
        consistent(
            CoreModel {
                sessions: c.sessions.insert(
                    sid,
                    new_session(addr, token_id, db_token_id, user_id, now),
                ),
                ..c
            },
        ),
{
    let c1 = CoreModel {
        sessions: c.sessions.insert(sid, new_session(addr, token_id, db_token_id, user_id, now)),
        ..c
    };
    assert forall|key: KeyModel| group_at(c1, key) == group_at(c, key) by {
    }
    assert forall|key: KeyModel, x: u128| is_member(c1, key, x) == is_member(c, key, x) by {
    }
    assert forall|x: u128| tunnel_at(c1, x) == tunnel_at(c, x) by {
    }
}

/// Taking a tunnel out keeps the core consistent; the ports in use and the free ones stay the
/// same ports altogether. Only that tunnel is gone: every other keeps its route and what it
/// is registered as.
pub proof fn law_tunnel_removal_consistent(c: CoreModel, id: u128)
    requires
        consistent(c),
    ensures
        consistent(tunnel_removed(c, id)),
        all_tcp_ports(tunnel_removed(c, id)) == all_tcp_ports(c),
        all_udp_ports(tunnel_removed(c, id)) == all_udp_ports(c),
        tunnel_removed(c, id).index == c.index.remove(id),
        tunnel_removed(c, id).sessions == c.sessions,
        forall|x: u128| x != id ==> #[trigger] tunnel_at(tunnel_removed(c, id), x) == tunnel_at(c, x),
{
    let c1 = tunnel_removed(c, id);
    if c.index.contains_key(id) {
        let key = c.index[id];
        let last = is_last_member(c, key, id);
        assert forall|k: KeyModel| k != key implies group_at(c1, k) == group_at(c, k) by {
        }
        assert forall|k: KeyModel, x: u128| #[trigger]
            is_member(c1, k, x) <==> is_member(c, k, x) && x != id by {
            if is_member(c, k, x) && x != id {
                if k == key {
                    let g = group_at(c, key)->0;
                    assert(g.members.remove(id).dom().contains(x));
                    assert(!last);
                }
            }
            if is_member(c, k, id) {
                assert(k == key);
            }
        }
        assert forall|k: KeyModel, x: u128| #[trigger]
            is_member(c1, k, x) implies member_at(c1, k, x) == member_at(c, k, x) by {
        }
        assert forall|x: u128| x != id implies #[trigger] tunnel_at(c1, x) == tunnel_at(c, x) by {
            if c.index.contains_key(x) {
                match c.index[x] {
                    KeyModel::P2p(name) => {
                        assert(c.p2p[name].tunnel_info.tunnel_id == x);
                    },
                    k => {
                        assert(is_member(c, k, x));
                        assert(is_member(c1, k, x));
                    },
                }
            }
        }
        assert(c1.index =~= c.index.remove(id));
        assert(members_indexed(c1));
        assert(index_sound(c1));
        assert(publishers_indexed(c1));
        assert(owners_sound(c1));
        assert(sessions_sound(c1));
        assert(groups_sound(c1)) by {
            assert forall|k: KeyModel| (#[trigger] group_at(c1, k)) is Some implies group_sound(
                group_at(c1, k)->0,
            ) by {
                if k == key {
                    let g0 = group_at(c, key)->0;
                    let g1 = group_at(c1, key)->0;
                    assert(group_sound(g0));
                    assert(!last);
                    assert(!(g0.members.remove(id).dom() =~= Set::empty()));
                    let x = choose|x: u128| g0.members.remove(id).dom().contains(x);
                    assert(g1.members.contains_key(x));
                    assert forall|a: u128| g1.members.contains_key(a) implies g0.members.contains_key(
                        a,
                    ) by {
                    }
                } else {
                    assert(group_at(c, k) is Some);
                }
            }
        }
        assert(pools_sound(c1));
        lemma_ports_after_removal(c, id);
    } else {
        assert(c.index.remove(id) =~= c.index);
    }
}

/// What taking a tunnel out does to the ports.
proof fn lemma_ports_after_removal(c: CoreModel, id: u128)
    requires
        consistent(c),
        c.index.contains_key(id),
    ensures
        ports_sound(tunnel_removed(c, id)),
        all_tcp_ports(tunnel_removed(c, id)) == all_tcp_ports(c),
        all_udp_ports(tunnel_removed(c, id)) == all_udp_ports(c),
{
    let c1 = tunnel_removed(c, id);
    let key = c.index[id];
    let last = is_last_member(c, key, id);
    match key {
        KeyModel::Tcp(port) => {
            assert(is_member(c, key, id));
            if last {
                lemma_push_port(c.tcp_ports, port);
                assert forall|p: u16| #[trigger]
                    all_tcp_ports(c1).contains(p) <==> all_tcp_ports(c).contains(p) by {
                }
            }
        },
        KeyModel::Udp(port) => {
            assert(is_member(c, key, id));
            if last {
                lemma_push_port(c.udp_ports, port);
                assert forall|p: u16| #[trigger]
                    all_udp_ports(c1).contains(p) <==> all_udp_ports(c).contains(p) by {
                }
            }
        },
        _ => {},
    }
    assert(all_tcp_ports(c1) =~= all_tcp_ports(c));
    assert(all_udp_ports(c1) =~= all_udp_ports(c));
}

/// One more port among the free ones.
proof fn lemma_push_port(ports: Seq<u16>, port: u16)
    ensures
        forall|p: u16| #[trigger] ports.push(port).contains(p) <==> p == port || ports.contains(p),
        ports.no_duplicates() && !ports.contains(port) ==> ports.push(port).no_duplicates(),
{
    assert forall|p: u16| #[trigger]
        ports.push(port).contains(p) <==> p == port || ports.contains(p) by {
        if ports.contains(p) {
            let i = choose|i: int| 0 <= i < ports.len() && ports[i] == p;
            assert(ports.push(port)[i] == p);
        }
        assert(ports.push(port)[ports.len() as int] == port);
    }
    if ports.no_duplicates() && !ports.contains(port) {
        assert forall|i: int, j: int|
            0 <= i < ports.len() + 1 && 0 <= j < ports.len() + 1 && i != j implies ports.push(
            port,
        )[i] != ports.push(port)[j] by {
            if i == ports.len() {
                assert(ports.contains(ports[j]));
            }
            if j == ports.len() {
                assert(ports.contains(ports[i]));
            }
        }
    }
}

/// Taking several tunnels out keeps the core consistent, and the rest as it was.
proof fn lemma_tunnels_removed(c: CoreModel, ids: Seq<u128>)
    requires
        consistent(c),
    ensures
        consistent(tunnels_removed(c, ids)),
        all_tcp_ports(tunnels_removed(c, ids)) == all_tcp_ports(c),
        all_udp_ports(tunnels_removed(c, ids)) == all_udp_ports(c),
        tunnels_removed(c, ids).sessions == c.sessions,
        forall|x: u128| #[trigger]
            tunnels_removed(c, ids).index.contains_key(x) <==> c.index.contains_key(x)
                && !ids.contains(x),
        forall|x: u128|
            !ids.contains(x) ==> #[trigger] tunnel_at(tunnels_removed(c, ids), x) == tunnel_at(c, x),
    decreases ids.len(),
{
    if ids.len() > 0 {
        let c1 = tunnels_removed(c, ids.drop_last());
        lemma_tunnels_removed(c, ids.drop_last());
        law_tunnel_removal_consistent(c1, ids.last());
        assert forall|x: u128| #[trigger]
            ids.contains(x) <==> ids.drop_last().contains(x) || x == ids.last() by {
            if ids.contains(x) {
                let i = choose|i: int| 0 <= i < ids.len() && ids[i] == x;
                if i < ids.len() - 1 {
                    assert(ids.drop_last()[i] == x);
                }
            }
            if ids.drop_last().contains(x) {
                let i = choose|i: int|
                    0 <= i < ids.drop_last().len() && ids.drop_last()[i] == x;
                assert(ids[i] == x);
            }
            assert(ids[ids.len() - 1] == ids.last());
        }
    }
}

/// Taking tunnels out neither reads nor changes the sessions.
proof fn lemma_removal_ignores_sessions(
    c: CoreModel,
    sessions: Map<u128, SessionModel>,
    ids: Seq<u128>,
)
    ensures
        tunnels_removed(CoreModel { sessions, ..c }, ids) == (CoreModel {
            sessions,
            ..tunnels_removed(c, ids)
        }),
    decreases ids.len(),
{
    if ids.len() > 0 {
        lemma_removal_ignores_sessions(c, sessions, ids.drop_last());
        let a = tunnels_removed(c, ids.drop_last());
        let b = CoreModel { sessions, ..a };
        let key = a.index[ids.last()];
        assert(group_at(a, key) == group_at(b, key));
        assert(tunnel_removed(b, ids.last()) =~= (CoreModel {
            sessions,
            ..tunnel_removed(a, ids.last())
        }));
    } else {
        assert(tunnels_removed(CoreModel { sessions, ..c }, ids) =~= (CoreModel {
            sessions,
            ..tunnels_removed(c, ids)
        }));
    }
}

/// A session that ends takes its tunnels with it, all of them and no other: the core stays
/// consistent, tunnels of other sessions keep their routes, and every port that only the
/// session's tunnels used is free again.
pub proof fn law_session_removal_consistent(c: CoreModel, sid: u128)
    requires
        consistent(c),
    ensures
        consistent(session_removed(c, sid)),
        session_removed(c, sid).sessions == c.sessions.remove(sid),
        all_tcp_ports(session_removed(c, sid)) == all_tcp_ports(c),
        all_udp_ports(session_removed(c, sid)) == all_udp_ports(c),
        forall|id: u128| #[trigger]
            session_removed(c, sid).index.contains_key(id) <==> c.index.contains_key(id) && (
            tunnel_at(c, id)->0).session_id != sid,
        forall|id: u128| #[trigger]
            session_removed(c, sid).index.contains_key(id) ==> tunnel_at(
                session_removed(c, sid),
                id,
            ) == tunnel_at(c, id),
{
    let r = session_removed(c, sid);
    if c.sessions.contains_key(sid) {
        let ids = c.sessions[sid].tunnels;
        let c1 = tunnels_removed(c, ids);
        lemma_removal_ignores_sessions(c, c.sessions.remove(sid), ids);
        lemma_tunnels_removed(c, ids);
        assert(r == (CoreModel { sessions: c.sessions.remove(sid), ..c1 }));
        assert forall|key: KeyModel| group_at(r, key) == group_at(c1, key) by {
        }
        assert forall|key: KeyModel, x: u128| is_member(r, key, x) == is_member(c1, key, x) by {
        }
        assert forall|x: u128| tunnel_at(r, x) == tunnel_at(c1, x) by {
        }
        assert forall|id: u128| #[trigger]
            r.index.contains_key(id) <==> c.index.contains_key(id) && (tunnel_at(
                c,
                id,
            )->0).session_id != sid by {
            if c.index.contains_key(id) {
                if ids.contains(id) {
                    assert((tunnel_at(c, id)->0).session_id == sid);
                }
            }
        }
        assert(owners_sound(r));
        assert(sessions_sound(r));
    } else {
        assert(c.sessions.remove(sid) =~= c.sessions);
    }
}

/// `g2` has the members of `g`, with the same owners, ids, routes and protocols.
pub open spec fn same_members(g: GroupModel, g2: GroupModel) -> bool {
    &&& g2.name == g.name
    &&& g2.key_hash == g.key_hash
    &&& g2.members.dom() == g.members.dom()
    &&& forall|id: u128| #[trigger]
        g2.members.contains_key(id) ==> {
            &&& g2.members[id].info.tunnel_id == g.members[id].info.tunnel_id
            &&& g2.members[id].info.session_id == g.members[id].info.session_id
            &&& g2.members[id].info.protocol == g.members[id].info.protocol
            &&& g2.members[id].info.subdomain == g.members[id].info.subdomain
            &&& g2.members[id].info.assigned_port == g.members[id].info.assigned_port
            &&& g2.members[id].health_events.len() <= HEALTH_EVENT_RING_SIZE
        }
}

/// A group whose members report or serve stays in its place.
proof fn lemma_group_refreshed(c: CoreModel, key: KeyModel, g2: GroupModel)
    requires
        consistent(c),
        group_at(c, key) is Some,
        same_members(group_at(c, key)->0, g2),
    ensures
        consistent(with_group(c, key, g2)),
        all_tcp_ports(with_group(c, key, g2)) == all_tcp_ports(c),
        all_udp_ports(with_group(c, key, g2)) == all_udp_ports(c),
{
    let g = group_at(c, key)->0;
    let c1 = with_group(c, key, g2);
    assert forall|k: KeyModel| k != key implies group_at(c1, k) == group_at(c, k) by {
    }
    assert(group_at(c1, key) == Some(g2));
    assert forall|id: u128| g2.members.contains_key(id) == g.members.contains_key(id) by {
        assert(g2.members.dom().contains(id) == g.members.dom().contains(id));
    }
    assert forall|k: KeyModel, x: u128| #[trigger] is_member(c1, k, x) == is_member(c, k, x) by {
    }
    assert forall|x: u128| c.index.contains_key(x) implies (match (#[trigger] tunnel_at(c1, x), tunnel_at(c, x)) {
        (Some(a), Some(b)) => a.session_id == b.session_id,
        (None, None) => true,
        _ => false,
    }) by {
        match c.index[x] {
            KeyModel::P2p(_) => {},
            k => {
                assert(is_member(c, k, x));
                assert(is_member(c1, k, x));
            },
        }
    }
    assert(group_sound(g2)) by {
        assert(group_sound(g));
        let x = choose|x: u128| #[trigger] g.members.contains_key(x);
        assert(g2.members.contains_key(x));
    }
    assert(groups_sound(c1));
    assert(members_indexed(c1));
    assert(index_sound(c1));
    assert(owners_sound(c1));
    assert(sessions_sound(c1));
    assert(pools_sound(c1));
    assert(ports_sound(c1));
    assert(c1.tcp.dom() =~= c.tcp.dom());
    assert(c1.udp.dom() =~= c.udp.dom());
}

/// A good report keeps the core consistent.
pub proof fn law_good_report_consistent(c: CoreModel, id: u128, at: u64)
    requires
        consistent(c),
    ensures
        consistent(marked_healthy(c, id, at)),
{
    if member_key(c, id) is Some {
        let key = c.index[id];
        let g = group_at(c, key)->0;
        let g2 = group_recovered(g, id, at);
        assert(is_member(c, key, id));
        assert(g2.members.dom() =~= g.members.dom());
        assert forall|x: u128| g.members.contains_key(x) implies (
        #[trigger] g.members[x]).health_events.len() <= HEALTH_EVENT_RING_SIZE by {
            assert(is_member(c, key, x));
        }
        lemma_group_refreshed(c, key, g2);
        lemma_same_routes(with_group(c, key, g2), marked_healthy(c, id, at));
    }
}

/// A bad report keeps the core consistent.
pub proof fn law_bad_report_consistent(c: CoreModel, id: u128, reason: Seq<char>, at: u64)
    requires
        consistent(c),
    ensures
        consistent(marked_unhealthy(c, id, reason, at)),
{
    if member_key(c, id) is Some {
        let key = c.index[id];
        let g = group_at(c, key)->0;
        let g2 = group_failed(g, id, reason, at);
        assert(is_member(c, key, id));
        assert(g2.members.dom() =~= g.members.dom());
        assert forall|x: u128| g.members.contains_key(x) implies (
        #[trigger] g.members[x]).health_events.len() <= HEALTH_EVENT_RING_SIZE by {
            assert(is_member(c, key, x));
        }
        lemma_group_refreshed(c, key, g2);
        lemma_same_routes(with_group(c, key, g2), marked_unhealthy(c, id, reason, at));
    }
}

/// Dispatching a request keeps the core consistent.
pub proof fn law_dispatch_consistent(c: CoreModel, key: KeyModel, id: u128)
    requires
        consistent(c),
        can_serve(c, key, id),
    ensures
        consistent(dispatched(c, key, id)),
{
    let g = group_at(c, key)->0;
    let g2 = group_dispatched(g, id);
    assert(g2.members.dom() =~= g.members.dom());
    assert forall|x: u128| g.members.contains_key(x) implies (
    #[trigger] g.members[x]).health_events.len() <= HEALTH_EVENT_RING_SIZE by {
        assert(is_member(c, key, x));
    }
    lemma_group_refreshed(c, key, g2);
}

/// Handing an alert out keeps the core consistent.
pub proof fn law_alert_consistent(c: CoreModel, id: u128)
    requires
        consistent(c),
        alert_due_for(c, id),
    ensures
        consistent(alert_sent(c, id)),
{
    let key = c.index[id];
    let g = group_at(c, key)->0;
    assert forall|x: u128| g.members.contains_key(x) implies (
    #[trigger] g.members[x]).health_events.len() <= HEALTH_EVENT_RING_SIZE by {
        assert(is_member(c, key, x));
    }
    lemma_group_refreshed(c, key, GroupModel { zero_healthy_alerted: true, ..g });
}

/// Counting bytes keeps the core consistent.
pub proof fn law_bytes_consistent(c: CoreModel, id: u128, n: u64)
    requires
        consistent(c),
    ensures
        consistent(bytes_added(c, id, n)),
{
    if c.index.contains_key(id) {
        let key = c.index[id];
        match key {
            KeyModel::P2p(name) => {
                lemma_publisher_refreshed(
                    c,
                    name,
                    PublisherModel {
                        tunnel_info: info_proxied(c.p2p[name].tunnel_info, n),
                        ..c.p2p[name]
                    },
                );
            },
            _ => {
                assert(is_member(c, key, id));
                let g = group_at(c, key)->0;
                let g2 = group_proxied(g, id, n);
                assert(g2.members.dom() =~= g.members.dom());
                assert forall|x: u128| g.members.contains_key(x) implies (
                #[trigger] g.members[x]).health_events.len() <= HEALTH_EVENT_RING_SIZE by {
                    assert(is_member(c, key, x));
                }
                lemma_group_refreshed(c, key, g2);
            },
        }
    }
}

/// A request that is counted leaves the core consistent.
pub proof fn law_request_count_consistent(c: CoreModel, id: u128)
    requires
        consistent(c),
    ensures
        consistent(request_counted(c, id)),
{
    if c.index.contains_key(id) {
        let key = c.index[id];
        match key {
            KeyModel::P2p(name) => {
                law_p2p_dispatch_consistent(c, name);
            },
            _ => {
                assert(is_member(c, key, id));
                let g = group_at(c, key)->0;
                let g2 = group_dispatched(g, id);
                assert(g2.members.dom() =~= g.members.dom());
                assert forall|x: u128| g.members.contains_key(x) implies (
                #[trigger] g.members[x]).health_events.len() <= HEALTH_EVENT_RING_SIZE by {
                    assert(is_member(c, key, x));
                }
                lemma_group_refreshed(c, key, g2);
            },
        }
    }
}

/// To resolve a route is to pick a member for it and to count the request there: whatever a
/// resolution may do, a pick followed by a count may do too, and the other way round.
pub proof fn law_resolving_is_picking_and_counting(
    c: CoreModel,
    key: KeyModel,
    info: TunnelInfo,
    shown: TunnelInfo,
)
    requires
        consistent(c),
        shown@ == info_dispatched(info@),
    ensures
        picked(c, key, Some(info)) <==> resolved(
            c,
            request_counted(c, info@.tunnel_id),
            key,
            Some(shown),
        ),
{
    if picked(c, key, Some(info)) {
        let id = choose|id: u128| #[trigger]
            can_serve(c, key, id) && info@ == (group_at(c, key)->0).members[id].info;
        assert(is_member(c, key, id));
        assert(c.index[id] == key && info@.tunnel_id == id);
        let after = dispatched(c, key, id);
        assert(request_counted(c, id) == after);
        assert((group_at(after, key)->0).members[id].info == info_dispatched(info@));
        assert(can_serve(c, key, id));
    }
    let after = request_counted(c, info@.tunnel_id);
    if resolved(c, after, key, Some(shown)) {
        let id = choose|id: u128| #[trigger]
            can_serve(c, key, id) && after == dispatched(c, key, id) && shown@ == (group_at(
                after,
                key,
            )->0).members[id].info;
        assert(is_member(c, key, id));
        let m = member_at(c, key, id);
        assert((group_at(after, key)->0).members[id].info == info_dispatched(m.info));
        assert(shown@.tunnel_id == id);
        assert(m.info.request_count.wrapping_add(1) == info@.request_count.wrapping_add(1));
        assert(m.info.request_count == info@.request_count);
        assert(m.info =~= info@);
        assert(can_serve(c, key, id));
    }
}

/// A publisher that serves or reports stays in its place.
proof fn lemma_publisher_refreshed(c: CoreModel, name: Seq<char>, p: PublisherModel)
    requires
        consistent(c),
        c.p2p.contains_key(name),
        p.name == c.p2p[name].name,
        p.tunnel_info.tunnel_id == c.p2p[name].tunnel_info.tunnel_id,
        p.tunnel_info.session_id == c.p2p[name].tunnel_info.session_id,
        fits_route(KeyModel::P2p(name), p.tunnel_info),
    ensures
        consistent(CoreModel { p2p: c.p2p.insert(name, p), ..c }),
{
    let c1 = CoreModel { p2p: c.p2p.insert(name, p), ..c };
    assert forall|k: KeyModel| group_at(c1, k) == group_at(c, k) by {
    }
    assert forall|k: KeyModel, x: u128| is_member(c1, k, x) == is_member(c, k, x) by {
    }
    assert forall|x: u128| c.index.contains_key(x) implies (match (#[trigger] tunnel_at(c1, x), tunnel_at(c, x)) {
        (Some(a), Some(b)) => a.session_id == b.session_id,
        (None, None) => true,
        _ => false,
    }) by {
    }
}

/// Sending a subscriber to a publisher keeps the core consistent.
pub proof fn law_p2p_dispatch_consistent(c: CoreModel, name: Seq<char>)
    requires
        consistent(c),
        c.p2p.contains_key(name),
    ensures
        consistent(p2p_dispatched(c, name)),
{
    lemma_publisher_refreshed(
        c,
        name,
        PublisherModel { tunnel_info: info_dispatched(c.p2p[name].tunnel_info), ..c.p2p[name] },
    );
}

/// A publisher's report on its network keeps the core consistent.
pub proof fn law_nat_report_consistent(
    c: CoreModel,
    id: u128,
    nat_type: Seq<char>,
    mapped_addrs: Seq<Seq<char>>,
)
    requires
        consistent(c),
    ensures
        consistent(nat_updated(c, id, nat_type, mapped_addrs)),
{
    if c.index.contains_key(id) {
        match c.index[id] {
            KeyModel::P2p(name) => {
                lemma_publisher_refreshed(
                    c,
                    name,
                    PublisherModel { nat_type: Some(nat_type), mapped_addrs, ..c.p2p[name] },
                );
            },
            _ => {},
        }
    }
}

// ── what one operation does to the next ──────────────────────────────────────

/// A tunnel that registers and leaves again leaves no trace in the routes, the index and the
/// free ports. Only its session still lists it.
pub proof fn law_http_removal_undoes_registration(
    c: CoreModel,
    sid: u128,
    subdomain: Option<Seq<char>>,
    protocol: TunnelProtocol,
    group: Option<GroupSpecModel>,
    draw: Draw,
    existing: Option<TunnelProtocol>,
)
    requires
        consistent(c),
        is_fresh(c, draw.tunnel_id),
    ensures
        http_registration(c, sid, subdomain, protocol, group, draw, existing) matches Ok(c1)
            ==> tunnel_removed(c1, draw.tunnel_id) == (CoreModel { sessions: c1.sessions, ..c }),
{
    let r = http_registration(c, sid, subdomain, protocol, group, draw, existing);
    if r is Ok {
        let c1 = r->Ok_0;
        let id = draw.tunnel_id;
        let label = http_label(subdomain, draw);
        let key = KeyModel::Http(label);
        let c2 = tunnel_removed(c1, id);
        assert(c1.index[id] == key);
        assert(c1.index.remove(id) =~= c.index);
        let g1 = c1.http[label];
        assert(group_at(c1, key) == Some(g1));
        if c.http.contains_key(label) {
            let g0 = c.http[label];
            assert(group_at(c, key) == Some(g0));
            assert(!g0.members.contains_key(id)) by {
                if g0.members.contains_key(id) {
                    assert(is_member(c, key, id));
                }
            }
            assert(g1.members.remove(id) =~= g0.members);
            assert(group_sound(g0));
            let x = choose|x: u128| #[trigger] g0.members.contains_key(x);
            assert(g0.members.dom().contains(x));
            assert(group_left(g1, id) =~= g0);
            assert(c2.http =~= c.http);
        } else {
            assert(g1.members.remove(id) =~= Map::<u128, MemberModel>::empty());
            assert(g1.members.remove(id).dom() =~= Set::empty());
            assert(c2.http =~= c.http);
        }
        assert(c2 =~= (CoreModel { sessions: c1.sessions, ..c }));
    }
}

/// A TCP tunnel that registers and leaves again leaves no trace in the routes, the index, the
/// pools and the free ports, down to their order. The edge has heard of a port that came into
/// use exactly if it has heard of one that went out of use.
pub proof fn law_tcp_removal_undoes_registration(
    c: CoreModel,
    sid: u128,
    group: Option<GroupSpecModel>,
    draw: Draw,
)
    requires
        consistent(c),
        is_fresh(c, draw.tunnel_id),
    ensures
        tcp_registration(c, sid, group, draw) matches Ok((c1, port)) ==> tunnel_removed(
            c1,
            draw.tunnel_id,
        ) == (CoreModel {
            sessions: c1.sessions,
            tcp_events: if c.tcp.contains_key(port) {
                c.tcp_events
            } else {
                c.tcp_events.push(
                    TcpTunnelEvent::Registered { tunnel_id: draw.tunnel_id, port },
                ).push(TcpTunnelEvent::Unregistered { port })
            },
            ..c
        }),
{
    let r = tcp_registration(c, sid, group, draw);
    if r is Ok {
        let (c1, port) = r->Ok_0;
        let id = draw.tunnel_id;
        let key = KeyModel::Tcp(port);
        let c2 = tunnel_removed(c1, id);
        assert(c1.index[id] == key);
        assert(c1.index.remove(id) =~= c.index);
        let g1 = c1.tcp[port];
        assert(group_at(c1, key) == Some(g1));
        if group is Some && c.tcp_groups.contains_key(
            ((group->0).group_name, (group->0).key_hash),
        ) {
            let g0 = c.tcp[port];
            assert(group_at(c, key) == Some(g0));
            assert(!g0.members.contains_key(id)) by {
                if g0.members.contains_key(id) {
                    assert(is_member(c, key, id));
                }
            }
            assert(g1.members.remove(id) =~= g0.members);
            assert(group_sound(g0));
            let x = choose|x: u128| #[trigger] g0.members.contains_key(x);
            assert(g0.members.dom().contains(x));
            assert(group_left(g1, id) =~= g0);
            assert(c2.tcp =~= c.tcp);
        } else {
            assert(!c.tcp.contains_key(c.tcp_ports[c.tcp_ports.len() - 1]));
            assert(g1.members.remove(id) =~= Map::<u128, MemberModel>::empty());
            assert(g1.members.remove(id).dom() =~= Set::empty());
            assert(c2.tcp =~= c.tcp);
            assert(c2.tcp_ports =~= c.tcp_ports);
            assert(c2.tcp_groups =~= c.tcp_groups);
        }
        assert(c2 =~= (CoreModel { sessions: c1.sessions, tcp_events: c2.tcp_events, ..c }));
    }
}

/// A UDP tunnel that registers and leaves again leaves no trace in the routes, the index and
/// the free ports, down to their order.
pub proof fn law_udp_removal_undoes_registration(c: CoreModel, sid: u128, draw: Draw)
    requires
        consistent(c),
        is_fresh(c, draw.tunnel_id),
    ensures
        udp_registration(c, sid, draw) matches Ok((c1, port)) ==> tunnel_removed(
            c1,
            draw.tunnel_id,
        ) == (CoreModel {
            sessions: c1.sessions,
            udp_events: c.udp_events.push(
                UdpTunnelEvent::Registered { tunnel_id: draw.tunnel_id, port },
            ).push(UdpTunnelEvent::Unregistered { port }),
            ..c
        }),
{
    let r = udp_registration(c, sid, draw);
    if r is Ok {
        let (c1, port) = r->Ok_0;
        let id = draw.tunnel_id;
        let key = KeyModel::Udp(port);
        let c2 = tunnel_removed(c1, id);
        assert(c1.index[id] == key);
        assert(c1.index.remove(id) =~= c.index);
        let g1 = c1.udp[port];
        assert(group_at(c1, key) == Some(g1));
        assert(!c.udp.contains_key(c.udp_ports[c.udp_ports.len() - 1]));
        assert(g1.members.remove(id) =~= Map::<u128, MemberModel>::empty());
        assert(g1.members.remove(id).dom() =~= Set::empty());
        assert(c2.udp =~= c.udp);
        assert(c2.udp_ports =~= c.udp_ports);
        assert(c2 =~= (CoreModel { sessions: c1.sessions, udp_events: c2.udp_events, ..c }));
    }
}

/// Nobody joins a subdomain in use without its key: a tunnel that registers on one asked for
/// a pool whose key it shows, and every member that was there still is.
pub proof fn law_key_guards_subdomain(
    c: CoreModel,
    sid: u128,
    subdomain: Option<Seq<char>>,
    protocol: TunnelProtocol,
    group: Option<GroupSpecModel>,
    draw: Draw,
    existing: Option<TunnelProtocol>,
)
    requires
        c.http.contains_key(http_label(subdomain, draw)),
        http_registration(c, sid, subdomain, protocol, group, draw, existing) is Ok,
    ensures
        group is Some,
        c.http[http_label(subdomain, draw)].key_hash == Some((group->0).key_hash),
        ({
            let c1 = http_registration(c, sid, subdomain, protocol, group, draw, existing)->Ok_0;
            let label = http_label(subdomain, draw);
            c1.http[label] == group_joined(
                c.http[label],
                checked_member(
                    new_tunnel(c, sid, draw, protocol, Some(label), None),
                    (group->0).health_check,
                    draw.at,
                ),
            )
        }),
{
}

/// TCP tunnels share a port exactly if they ask for the same pool: same name and same key.
pub proof fn law_tcp_pool_identity(
    c: CoreModel,
    sid_a: u128,
    a: GroupSpecModel,
    draw_a: Draw,
    sid_b: u128,
    b: GroupSpecModel,
    draw_b: Draw,
)
    requires
        consistent(c),
        is_fresh(c, draw_a.tunnel_id),
        tcp_registration(c, sid_a, Some(a), draw_a) is Ok,
    ensures
        ({
            let (c1, port_a) = tcp_registration(c, sid_a, Some(a), draw_a)->Ok_0;
            tcp_registration(c1, sid_b, Some(b), draw_b) matches Ok((_, port_b)) ==> (port_a
                == port_b <==> a.group_name == b.group_name && a.key_hash == b.key_hash)
        }),
{
    let (c1, port_a) = tcp_registration(c, sid_a, Some(a), draw_a)->Ok_0;
    law_tcp_registration_consistent(c, sid_a, Some(a), draw_a);
    assert(c1.tcp_groups.contains_key((a.group_name, a.key_hash)));
    assert(c1.tcp_groups[(a.group_name, a.key_hash)] == port_a);
    assert(c1.tcp.contains_key(port_a));
    let r = tcp_registration(c1, sid_b, Some(b), draw_b);
    if r is Ok {
        let pool = (b.group_name, b.key_hash);
        if !c1.tcp_groups.contains_key(pool) {
            assert(!c1.tcp.contains_key(c1.tcp_ports[c1.tcp_ports.len() - 1]));
        }
    }
}

/// After a bad report a tunnel serves nothing, until a good one.
pub proof fn law_unhealthy_serves_nothing(c: CoreModel, id: u128, reason: Seq<char>, at: u64)
    requires
        consistent(c),
    ensures
        forall|key: KeyModel| !(#[trigger] can_serve(marked_unhealthy(c, id, reason, at), key, id)),
{
    let c1 = marked_unhealthy(c, id, reason, at);
    assert forall|key: KeyModel| !(#[trigger] can_serve(c1, key, id)) by {
        if can_serve(c1, key, id) {
            law_bad_report_consistent(c, id, reason, at);
            assert(is_member(c1, key, id));
            assert(c.index[id] == key);
            assert(is_member(c, key, id));
        }
    }
}

/// After a good report a tunnel serves its route again.
pub proof fn law_healthy_serves_again(c: CoreModel, id: u128, at: u64)
    requires
        consistent(c),
        member_key(c, id) is Some,
    ensures
        can_serve(marked_healthy(c, id, at), c.index[id], id),
{
    assert(c.index.contains_key(id));
    assert(is_member(c, c.index[id], id));
    assert(tunnel_at(c, id) == Some(member_at(c, c.index[id], id).info));
}

/// A report on one tunnel decides nothing about another.
pub proof fn law_reports_are_independent(
    c: CoreModel,
    id: u128,
    other: u128,
    key: KeyModel,
    reason: Seq<char>,
    at: u64,
)
    requires
        other != id,
    ensures
        can_serve(marked_unhealthy(c, id, reason, at), key, other) == can_serve(c, key, other),
        can_serve(marked_healthy(c, id, at), key, other) == can_serve(c, key, other),
{
}

/// An alert goes out once: right after it, and after any further bad report on the group, it
/// is not due.
pub proof fn law_alert_goes_out_once(
    c: CoreModel,
    id: u128,
    other: u128,
    reason: Seq<char>,
    at: u64,
)
    requires
        alert_due_for(c, id),
    ensures
        !alert_due_for(alert_sent(c, id), id),
        !alert_due_for(marked_unhealthy(alert_sent(c, id), other, reason, at), id),
{
    let c1 = alert_sent(c, id);
    let key = c.index[id];
    assert(group_at(c1, key) is Some);
    assert((group_at(c1, key)->0).zero_healthy_alerted);
    let c2 = marked_unhealthy(c1, other, reason, at);
    assert(c2.index == c1.index);
    if member_key(c1, other) is Some {
        assert((group_at(c2, key)->0).zero_healthy_alerted);
    }
}

/// Once a member has recovered, the alert is due again as soon as the group has no healthy
/// member left.
pub proof fn law_recovery_arms_alert(c: CoreModel, id: u128, reason: Seq<char>, at: u64, later: u64)
    requires
        consistent(c),
        member_key(c, id) is Some,
        (group_at(c, c.index[id])->0).key_hash is Some,
        forall|x: u128|
            x != id ==> !is_healthy_member(group_at(c, c.index[id])->0, x),
    ensures
        !alert_due_for(marked_healthy(c, id, at), id),
        alert_due_for(marked_unhealthy(marked_healthy(c, id, at), id, reason, later), id),
{
    let key = c.index[id];
    let g = group_at(c, key)->0;
    assert(is_member(c, key, id));
    let c1 = marked_healthy(c, id, at);
    let g1 = group_recovered(g, id, at);
    assert(group_at(c1, key) == Some(g1));
    assert(healthy_ids(g1) =~= set![id]) by {
        assert forall|x: u128| #[trigger] healthy_ids(g1).contains(x) implies x == id by {
            if x != id {
                assert(is_healthy_member(g, x));
            }
        }
        assert(healthy_ids(g1).contains(id));
    }
    assert(set![id].len() == 1);
    assert(healthy_ids(g1).len() == 1);
    let c2 = marked_unhealthy(c1, id, reason, later);
    let g2 = group_failed(g1, id, reason, later);
    assert(group_at(c2, key) == Some(g2));
    assert(healthy_ids(g2) =~= Set::empty()) by {
        assert forall|x: u128| !(#[trigger] healthy_ids(g2).contains(x)) by {
            if healthy_ids(g2).contains(x) {
                assert(x != id);
                assert(is_healthy_member(g, x));
            }
        }
    }
}

/// What is registered is served: at once where no health check is asked for, and not before
/// the first good report where one is.
pub proof fn law_http_registered_is_served(
    c: CoreModel,
    sid: u128,
    subdomain: Option<Seq<char>>,
    protocol: TunnelProtocol,
    group: Option<GroupSpecModel>,
    draw: Draw,
    existing: Option<TunnelProtocol>,
)
    ensures
        http_registration(c, sid, subdomain, protocol, group, draw, existing) matches Ok(c1) ==> {
            let key = KeyModel::Http(http_label(subdomain, draw));
            &&& tunnel_at(c1, draw.tunnel_id) is Some
            &&& can_serve(c1, key, draw.tunnel_id) <==> group is None || (group->0).health_check is None
        },
{
}

/// What is registered is served, on the port that was handed out.
pub proof fn law_tcp_registered_is_served(
    c: CoreModel,
    sid: u128,
    group: Option<GroupSpecModel>,
    draw: Draw,
)
    ensures
        tcp_registration(c, sid, group, draw) matches Ok((c1, port)) ==> {
            &&& tunnel_at(c1, draw.tunnel_id) is Some
            &&& can_serve(c1, KeyModel::Tcp(port), draw.tunnel_id) <==> group is None || (
            group->0).health_check is None
        },
{
}

/// What is registered is served, on the port that was handed out.
pub proof fn law_udp_registered_is_served(c: CoreModel, sid: u128, draw: Draw)
    ensures
        udp_registration(c, sid, draw) matches Ok((c1, port)) ==> {
            &&& tunnel_at(c1, draw.tunnel_id) is Some
            &&& can_serve(c1, KeyModel::Udp(port), draw.tunnel_id)
        },
{
}

/// A request for a route is turned away only where no healthy member is left, and goes only to
/// a tunnel that is registered for that route.
pub proof fn law_requests_reach_a_member(
    c: CoreModel,
    after: CoreModel,
    key: KeyModel,
    r: Option<TunnelInfo>,
)
    requires
        consistent(c),
        resolved(c, after, key, r),
    ensures
        r is None <==> forall|id: u128| !#[trigger] can_serve(c, key, id),
        r matches Some(info) ==> fits_route(key, info@) && c.index.contains_key(info@.tunnel_id)
            && c.index[info@.tunnel_id] == key,
        consistent(after),
{
    match r {
        Some(info) => {
            let id = choose|id: u128| #[trigger]
                can_serve(c, key, id) && after == dispatched(c, key, id) && info@ == (group_at(
                    after,
                    key,
                )->0).members[id].info;
            assert(is_member(c, key, id));
            law_dispatch_consistent(c, key, id);
            assert(info@ == info_dispatched(member_at(c, key, id).info));
        },
        None => {
            if group_at(c, key) is Some {
                let g = group_at(c, key)->0;
                assert forall|id: u128| !#[trigger] can_serve(c, key, id) by {
                    if can_serve(c, key, id) {
                        assert(healthy_ids(g).contains(id));
                        let x = choose|x: u128| #[trigger]
                            is_healthy_member(g, x) && !c.sessions.contains_key(
                                g.members[x].info.session_id,
                            );
                        assert(is_member(c, key, x));
                        assert(c.index.contains_key(x));
                        assert(tunnel_at(c, x) == Some(g.members[x].info));
                    }
                }
            }
        },
    }
}

/// A request that a route gets is picked a member that can serve it, as long as there is one.
pub proof fn law_picks_can_serve(c: CoreModel, key: KeyModel, r: Option<TunnelInfo>)
    requires
        consistent(c),
        picked(c, key, r),
    ensures
        r is None <==> forall|id: u128| !#[trigger] can_serve(c, key, id),
        r matches Some(info) ==> can_serve(c, key, info@.tunnel_id) && fits_route(key, info@)
            && c.index.contains_key(info@.tunnel_id) && c.index[info@.tunnel_id] == key,
{
    match r {
        Some(info) => {
            let id = choose|id: u128| #[trigger]
                can_serve(c, key, id) && info@ == (group_at(c, key)->0).members[id].info;
            assert(is_member(c, key, id));
        },
        None => {
            law_requests_reach_a_member(c, c, key, r);
        },
    }
}

/// A peer-to-peer name belongs to one publisher at a time: while it is taken, nobody else gets
/// it.
pub proof fn law_p2p_name_is_exclusive(
    c: CoreModel,
    sid_a: u128,
    sid_b: u128,
    name: Seq<char>,
    secret_a: Seq<char>,
    secret_b: Seq<char>,
    draw_a: Draw,
    draw_b: Draw,
)
    ensures
        p2p_registration(c, sid_a, name, secret_a, draw_a) matches Ok(c1) ==> {
            &&& c1.p2p[name].tunnel_info.session_id == sid_a
            &&& c1.p2p[name].secret_hash == secret_a
            &&& p2p_registration(c1, sid_b, name, secret_b, draw_b) is Err
        },
{
}

/// A publisher that registers and leaves again leaves no trace but in the list of its session.
pub proof fn law_p2p_removal_undoes_registration(
    c: CoreModel,
    sid: u128,
    name: Seq<char>,
    secret_hash: Seq<char>,
    draw: Draw,
)
    requires
        is_fresh(c, draw.tunnel_id),
    ensures
        p2p_registration(c, sid, name, secret_hash, draw) matches Ok(c1) ==> tunnel_removed(
            c1,
            draw.tunnel_id,
        ) == (CoreModel { sessions: c1.sessions, ..c }),
{
    let r = p2p_registration(c, sid, name, secret_hash, draw);
    if r is Ok {
        let c1 = r->Ok_0;
        let c2 = tunnel_removed(c1, draw.tunnel_id);
        assert(c1.index[draw.tunnel_id] == KeyModel::P2p(name));
        assert(c2.index =~= c.index);
        assert(c2.p2p =~= c.p2p);
        assert(c2 =~= (CoreModel { sessions: c1.sessions, ..c }));
    }
}

/// A connection that waits for its stream is settled once: what comes later for it finds
/// nobody waiting, and nothing else is touched.
pub proof fn law_waiting_connection_is_settled_once(c: CoreModel, conn_id: u128, other: u128)
    requires
        other != conn_id,
    ensures
        ({
            let waiting = CoreModel { pending: c.pending.insert(conn_id), ..c };
            let settled = CoreModel { pending: waiting.pending.remove(conn_id), ..waiting };
            &&& waiting.pending.contains(conn_id)
            &&& !settled.pending.contains(conn_id)
            &&& settled.pending.contains(other) == c.pending.contains(other)
            &&& !c.pending.contains(conn_id) ==> settled == c
        }),
{
    let waiting = CoreModel { pending: c.pending.insert(conn_id), ..c };
    let settled = CoreModel { pending: waiting.pending.remove(conn_id), ..waiting };
    if !c.pending.contains(conn_id) {
        assert(settled.pending =~= c.pending);
        assert(settled =~= c);
    }
}

/// When a session was last heard of has no bearing on the rest.
pub proof fn law_heartbeat_consistent(c: CoreModel, session_id: u128, now: u64)
    requires
        consistent(c),
    ensures
        consistent(session_heard(c, session_id, now)),
{
    let c2 = session_heard(c, session_id, now);
    assert forall|key: KeyModel| #[trigger] group_at(c2, key) == group_at(c, key) by {}
    assert forall|id: u128| #[trigger] tunnel_at(c2, id) == tunnel_at(c, id) by {}
    assert forall|key: KeyModel, id: u128| #[trigger]
        is_member(c2, key, id) implies is_member(c, key, id) && member_at(c2, key, id)
        == member_at(c, key, id) by {}
}

/// Which connections wait for their stream has no bearing on the rest.
pub proof fn law_waiting_connections_consistent(c: CoreModel, pending: Set<u128>)
    requires
        consistent(c),
    ensures
        consistent(CoreModel { pending, ..c }),
{
    let c2 = CoreModel { pending, ..c };
    assert forall|key: KeyModel| #[trigger] group_at(c2, key) == group_at(c, key) by {}
    assert forall|id: u128| #[trigger] tunnel_at(c2, id) == tunnel_at(c, id) by {}
    assert forall|key: KeyModel, id: u128| #[trigger]
        is_member(c2, key, id) implies is_member(c, key, id) && member_at(c2, key, id)
        == member_at(c, key, id) by {}
    assert(members_indexed(c2));
    assert(index_sound(c2)) by {
        assert forall|id: u128| #[trigger] c2.index.contains_key(id) implies match c2.index[id] {
            KeyModel::P2p(name) => c2.p2p.contains_key(name) && c2.p2p[name].tunnel_info.tunnel_id
                == id,
            key => is_member(c2, key, id),
        } by {
            assert(c.index.contains_key(id));
        }
    }
    assert(groups_sound(c2)) by {
        assert forall|key: KeyModel| (#[trigger] group_at(c2, key)) is Some implies group_sound(
            group_at(c2, key)->0,
        ) by {
            assert(group_at(c, key) is Some);
        }
    }
    assert(owners_sound(c2)) by {
        assert forall|id: u128| #[trigger] c2.index.contains_key(id) implies {
            &&& tunnel_at(c2, id) is Some
            &&& c2.sessions.contains_key((tunnel_at(c2, id)->0).session_id)
            &&& c2.sessions[(tunnel_at(c2, id)->0).session_id].tunnels.contains(id)
        } by {
            assert(c.index.contains_key(id));
        }
    }
}

} // verus!
