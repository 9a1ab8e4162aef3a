//! What a registration comes to: when one is granted, what it leaves in the core, and what a
//! refused one is told.
use crate::error::ErrorModel;
use crate::group::{GroupModel, GroupSpecModel};
use crate::ids::{hex_label, uuid_form};
use crate::protocol::TunnelProtocol;
use crate::router_laws::consistent;
use crate::router_model::{
    http_registration, p2p_registration, tcp_registration, udp_registration, CoreModel, Draw,
    KeyModel, PublisherModel,
};
use crate::session_info::SessionModel;
use crate::text::decimal;
use crate::tunnel::{
    HealthEventModel, MemberModel, TcpTunnelEvent, TunnelModel, UdpTunnelEvent,
};
use vstd::prelude::*;
use vstd::utf8::encode_utf8;

verus! {

/// Whether a session is there and has not used its tunnels up.
pub open spec fn has_room(c: CoreModel, sid: u128) -> bool {
    c.sessions.contains_key(sid) && c.sessions[sid].tunnels.len() < c.max_tunnels
}

/// Whether `after` differs from `before`, as far as sessions go, in the new tunnel of one of
/// them alone.
pub open spec fn session_gained(before: CoreModel, after: CoreModel, sid: u128, id: u128) -> bool {
    &&& after.sessions.dom() =~= before.sessions.dom()
    &&& after.sessions[sid] == (SessionModel {
        tunnels: before.sessions[sid].tunnels.push(id),
        ..before.sessions[sid]
    })
    &&& forall|other: u128|
        other != sid && #[trigger] before.sessions.contains_key(other) ==> after.sessions[other]
            == before.sessions[other]
}

/// A registration is granted only to a session that is there and has room; a session that is
/// not there, or has as many tunnels as it may, is told just that, whatever it asks for.
pub proof fn law_room_comes_first(
    c: CoreModel,
    sid: u128,
    subdomain: Option<Seq<char>>,
    protocol: TunnelProtocol,
    group: Option<GroupSpecModel>,
    draw: Draw,
    existing: Option<TunnelProtocol>,
    name: Seq<char>,
    secret_hash: Seq<char>,
)
    ensures
        ({
            let http = http_registration(c, sid, subdomain, protocol, group, draw, existing);
            let tcp = tcp_registration(c, sid, group, draw);
            let udp = udp_registration(c, sid, draw);
            let p2p = p2p_registration(c, sid, name, secret_hash, draw);
            &&& http is Ok || tcp is Ok || udp is Ok || p2p is Ok ==> has_room(c, sid)
            &&& !c.sessions.contains_key(sid) ==> {
                let told = ErrorModel::SessionNotFound(uuid_form(sid));
                &&& http == Err::<CoreModel, _>(told) && p2p == Err::<CoreModel, _>(told)
                &&& tcp == Err::<(CoreModel, u16), _>(told) && udp == Err::<(CoreModel, u16), _>(
                    told,
                )
            }
            &&& c.sessions.contains_key(sid) && !has_room(c, sid) ==> {
                let told = ErrorModel::LimitExceeded(
                    "session "@ + uuid_form(sid) + " already has "@ + decimal(
                        c.sessions[sid].tunnels.len(),
                    ) + " tunnels (max "@ + decimal(c.max_tunnels as nat) + ")"@,
                );
                &&& http == Err::<CoreModel, _>(told) && p2p == Err::<CoreModel, _>(told)
                &&& tcp == Err::<(CoreModel, u16), _>(told) && udp == Err::<(CoreModel, u16), _>(
                    told,
                )
            }
        }),
{
}

// ── HTTP ─────────────────────────────────────────────────────────────────────

/// Whether a text may be asked for as a subdomain: 3 to 63 bytes of letters, digits and hyphens,
/// with no hyphen at either end.
pub open spec fn is_subdomain(s: Seq<char>) -> bool {
    &&& 3 <= encode_utf8(s).len() && encode_utf8(s).len() <= 63
    &&& s.first() != '-' && s.last() != '-'
    &&& forall|i: int|
        0 <= i < s.len() ==> {
            ||| 'a' <= #[trigger] s[i] <= 'z'
            ||| 'A' <= s[i] <= 'Z'
            ||| '0' <= s[i] <= '9'
            ||| s[i] == '-'
        }
}

/// An HTTP registration is granted exactly if the session has room, a subdomain that is asked
/// for by name is one, and the subdomain is free or the request shows the key of the pool there
/// and has its protocol.
pub proof fn law_http_granted_when(
    c: CoreModel,
    sid: u128,
    subdomain: Option<Seq<char>>,
    protocol: TunnelProtocol,
    group: Option<GroupSpecModel>,
    draw: Draw,
    existing: Option<TunnelProtocol>,
)
    ensures
        ({
            let label = match subdomain {
                Some(s) => s,
                None => hex_label(draw.label_id),
            };
            http_registration(c, sid, subdomain, protocol, group, draw, existing) is Ok <==> {
                &&& has_room(c, sid)
                &&& subdomain is Some ==> is_subdomain(label)
                &&& c.http.contains_key(label) ==> group is Some && c.http[label].key_hash == Some(
                    (group->0).key_hash,
                ) && existing == Some(protocol)
            }
        }),
{
}

/// What a client is told whose HTTP tunnel is refused although its session has room.
pub proof fn law_http_refusals(
    c: CoreModel,
    sid: u128,
    subdomain: Option<Seq<char>>,
    protocol: TunnelProtocol,
    group: Option<GroupSpecModel>,
    draw: Draw,
    existing: Option<TunnelProtocol>,
)
    requires
        has_room(c, sid),
    ensures
        ({
            let r = http_registration(c, sid, subdomain, protocol, group, draw, existing);
            let label = match subdomain {
                Some(s) => s,
                None => hex_label(draw.label_id),
            };
            let refused = |m: Seq<char>|
                r == Err::<CoreModel, ErrorModel>(ErrorModel::Tunnel("subdomain '"@ + label + m));
            let bytes = encode_utf8(label).len();
            let fits = 3 <= bytes && bytes <= 63;
            let hyphen = label.first() == '-' || label.last() == '-';
            let taken = c.http.contains_key(label);
            &&& subdomain is Some && !fits ==> refused("' must be 3–63 characters long"@)
            &&& subdomain is Some && fits && hyphen ==> refused(
                "' must not start or end with a hyphen"@,
            )
            &&& subdomain is Some && fits && !hyphen && !is_subdomain(label) ==> refused(
                "' may only contain letters, digits, and hyphens"@,
            )
            &&& (subdomain is Some ==> is_subdomain(label)) && taken && group is None ==> refused(
                "' is already in use"@,
            )
            &&& (subdomain is Some ==> is_subdomain(label)) && taken && group is Some
                && c.http[label].key_hash != Some((group->0).key_hash) ==> r == Err::<
                CoreModel,
                ErrorModel,
            >(
                ErrorModel::Tunnel(
                    "group key does not match existing group for subdomain '"@ + label + "'"@,
                ),
            )
        }),
{
}

/// What a client is told whose tunnel is of another protocol than the pool it asks for: both.
pub proof fn law_http_protocol_refusal(
    c: CoreModel,
    sid: u128,
    label: Seq<char>,
    protocol: TunnelProtocol,
    group: GroupSpecModel,
    draw: Draw,
    existing: TunnelProtocol,
)
    requires
        has_room(c, sid),
        is_subdomain(label),
        c.http.contains_key(label),
        c.http[label].key_hash == Some(group.key_hash),
        existing != protocol,
    ensures
        ({
            let name = |p: TunnelProtocol|
                match p {
                    TunnelProtocol::Http => "Http"@,
                    TunnelProtocol::Https => "Https"@,
                    TunnelProtocol::Tcp => "Tcp"@,
                    TunnelProtocol::Udp => "Udp"@,
                    TunnelProtocol::P2p => "P2p"@,
                };
            http_registration(c, sid, Some(label), protocol, Some(group), draw, Some(existing))
                == Err::<CoreModel, ErrorModel>(
                ErrorModel::Tunnel(
                    "group member protocol mismatch for subdomain '"@ + label + "': existing="@ + (
                    "Some("@ + name(existing) + ")"@) + ", new="@ + name(protocol),
                ),
            )
        }),
{
}

/// What a new member of a group is: the session's, at its place, with nothing carried yet;
/// trusted from the start unless it is to be probed, and then unhealthy until it reports.
pub open spec fn is_new_member(
    m: MemberModel,
    info: TunnelModel,
    group: Option<GroupSpecModel>,
    at: u64,
) -> bool {
    let probed = group is Some && (group->0).health_check is Some;
    &&& m.info == info
    &&& m.healthy == !probed
    &&& m.health_spec == if probed {
        (group->0).health_check
    } else {
        None
    }
    &&& m.consecutive_failures == 0 && m.total_health_failures == 0
    &&& group is None ==> m.health_events.len() == 0
    &&& group is Some ==> m.health_events.len() == 1 && m.health_events[0] == (HealthEventModel {
        at,
        healthy: !probed,
        reason: "registered"@,
    })
}

/// What the group of a new member is: its own alone, under the pool's name and key where it
/// asked for one; or, where a pool was there, that one with the new member in it.
pub open spec fn is_group_with(
    g: GroupModel,
    old_group: Option<GroupModel>,
    id: u128,
    label: Seq<char>,
    group: Option<GroupSpecModel>,
) -> bool {
    match old_group {
        Some(o) => {
            &&& g == (GroupModel { members: g.members, ..o })
            &&& g.members.dom() =~= o.members.dom().insert(id)
            &&& forall|x: u128|
                x != id && #[trigger] o.members.contains_key(x) ==> g.members[x] == o.members[x]
        },
        None => {
            &&& g.members.dom() =~= Set::empty().insert(id)
            &&& !g.zero_healthy_alerted
            &&& g.name == if group is Some {
                (group->0).group_name
            } else {
                label
            }
            &&& g.key_hash == if group is Some {
                Some((group->0).key_hash)
            } else {
                None
            }
        },
    }
}

/// What a granted HTTP registration leaves: one more member, at the subdomain that was asked
/// for or at one made from chance, and nothing else but the session's note of it.
pub proof fn law_http_grant_leaves(
    c: CoreModel,
    sid: u128,
    subdomain: Option<Seq<char>>,
    protocol: TunnelProtocol,
    group: Option<GroupSpecModel>,
    draw: Draw,
    existing: Option<TunnelProtocol>,
)
    ensures
        http_registration(c, sid, subdomain, protocol, group, draw, existing) matches Ok(c1) ==> {
            let id = draw.tunnel_id;
            let label = match subdomain {
                Some(s) => s,
                None => hex_label(draw.label_id),
            };
            let info = TunnelModel {
                session_id: sid,
                tunnel_id: id,
                protocol,
                subdomain: Some(label),
                assigned_port: None,
                created_at: draw.created_at,
                request_count: 0,
                bytes_proxied: 0,
                max_connections: c.max_connections,
            };
            &&& c1.http.dom() =~= c.http.dom().insert(label)
            &&& forall|other: Seq<char>|
                other != label && #[trigger] c.http.contains_key(other) ==> c1.http[other]
                    == c.http[other]
            &&& is_group_with(
                c1.http[label],
                if c.http.contains_key(label) {
                    Some(c.http[label])
                } else {
                    None
                },
                id,
                label,
                group,
            )
            &&& is_new_member(c1.http[label].members[id], info, group, draw.at)
            &&& c1.index == c.index.insert(id, KeyModel::Http(label))
            &&& session_gained(c, c1, sid, id)
            &&& c1 == (CoreModel { http: c1.http, index: c1.index, sessions: c1.sessions, ..c })
        },
{
}

// ── TCP ──────────────────────────────────────────────────────────────────────

/// A TCP registration is granted, in a consistent core, exactly if the session has room and the
/// pool that it asks for is there or a port is free. Otherwise there are no ports.
pub proof fn law_tcp_granted_when(
    c: CoreModel,
    sid: u128,
    group: Option<GroupSpecModel>,
    draw: Draw,
)
    requires
        consistent(c),
    ensures
        ({
            let r = tcp_registration(c, sid, group, draw);
            let there = group is Some && c.tcp_groups.contains_key(
                ((group->0).group_name, (group->0).key_hash),
            );
            &&& r is Ok <==> has_room(c, sid) && (there || c.tcp_ports.len() > 0)
            &&& has_room(c, sid) && r is Err ==> r == Err::<(CoreModel, u16), ErrorModel>(
                ErrorModel::NoPortsAvailable,
            )
        }),
{
}

/// A pool whose port has gone missing is refused with a word to try again, which names the port.
pub proof fn law_tcp_lost_pool(c: CoreModel, sid: u128, group: GroupSpecModel, draw: Draw)
    requires
        has_room(c, sid),
        c.tcp_groups.contains_key((group.group_name, group.key_hash)),
        !c.tcp.contains_key(c.tcp_groups[(group.group_name, group.key_hash)]),
    ensures
        tcp_registration(c, sid, Some(group), draw) == Err::<(CoreModel, u16), ErrorModel>(
            ErrorModel::Tunnel(
                "TCP group index points to missing port "@ + decimal(
                    c.tcp_groups[(group.group_name, group.key_hash)] as nat,
                ) + "; please retry"@,
            ),
        ),
{
}

/// What a granted TCP registration leaves. Who asks for a pool that is there gets its port, and
/// nobody is told of a new listener; anyone else gets the port that was to be handed out next,
/// which is free no longer and which the edge is told of.
pub proof fn law_tcp_grant_leaves(
    c: CoreModel,
    sid: u128,
    group: Option<GroupSpecModel>,
    draw: Draw,
)
    requires
        consistent(c),
    ensures
        tcp_registration(c, sid, group, draw) matches Ok((c1, port)) ==> {
            let id = draw.tunnel_id;
            let pool = ((group->0).group_name, (group->0).key_hash);
            let joins = group is Some && c.tcp_groups.contains_key(pool);
            let info = TunnelModel {
                session_id: sid,
                tunnel_id: id,
                protocol: TunnelProtocol::Tcp,
                subdomain: None,
                assigned_port: Some(port),
                created_at: draw.created_at,
                request_count: 0,
                bytes_proxied: 0,
                max_connections: c.max_connections,
            };
            &&& joins ==> {
                &&& port == c.tcp_groups[pool]
                &&& c.tcp.contains_key(port)
                &&& c1.tcp_ports == c.tcp_ports
                &&& c1.tcp_events == c.tcp_events
                &&& c1.tcp_groups == c.tcp_groups
            }
            &&& !joins ==> {
                &&& c.tcp_ports.len() > 0 && port == c.tcp_ports[c.tcp_ports.len() - 1]
                &&& !c.tcp.contains_key(port)
                &&& c1.tcp_ports == c.tcp_ports.take(c.tcp_ports.len() - 1)
                &&& c1.tcp_events == c.tcp_events.push(
                    TcpTunnelEvent::Registered { tunnel_id: id, port },
                )
                &&& c1.tcp_groups == if group is Some {
                    c.tcp_groups.insert(pool, port)
                } else {
                    c.tcp_groups
                }
            }
            &&& c1.tcp.dom() =~= c.tcp.dom().insert(port)
            &&& forall|other: u16|
                other != port && #[trigger] c.tcp.contains_key(other) ==> c1.tcp[other]
                    == c.tcp[other]
            &&& is_group_with(
                c1.tcp[port],
                if joins {
                    Some(c.tcp[port])
                } else {
                    None
                },
                id,
                decimal(port as nat),
                group,
            )
            &&& is_new_member(c1.tcp[port].members[id], info, group, draw.at)
            &&& c1.index == c.index.insert(id, KeyModel::Tcp(port))
            &&& session_gained(c, c1, sid, id)
            &&& c1 == (CoreModel {
                tcp: c1.tcp,
                tcp_ports: c1.tcp_ports,
                tcp_groups: c1.tcp_groups,
                tcp_events: c1.tcp_events,
                index: c1.index,
                sessions: c1.sessions,
                ..c
            })
        },
{
    if c.tcp_ports.len() > 0 {
        let n = c.tcp_ports.len() - 1;
        assert(!c.tcp.contains_key(c.tcp_ports[n]));
        assert(c.tcp_ports.drop_last() =~= c.tcp_ports.take(n));
    }
}

// ── UDP ──────────────────────────────────────────────────────────────────────

/// A UDP registration is granted exactly if the session has room and a port is free. Otherwise
/// there are no ports.
pub proof fn law_udp_granted_when(c: CoreModel, sid: u128, draw: Draw)
    ensures
        ({
            let r = udp_registration(c, sid, draw);
            &&& r is Ok <==> has_room(c, sid) && c.udp_ports.len() > 0
            &&& has_room(c, sid) && r is Err ==> r == Err::<(CoreModel, u16), ErrorModel>(
                ErrorModel::NoPortsAvailable,
            )
        }),
{
}

/// What a granted UDP registration leaves: a lone tunnel on the port that was to be handed out
/// next, which is free no longer and which the edge is told of.
pub proof fn law_udp_grant_leaves(c: CoreModel, sid: u128, draw: Draw)
    requires
        consistent(c),
    ensures
        udp_registration(c, sid, draw) matches Ok((c1, port)) ==> {
            let id = draw.tunnel_id;
            let info = TunnelModel {
                session_id: sid,
                tunnel_id: id,
                protocol: TunnelProtocol::Udp,
                subdomain: None,
                assigned_port: Some(port),
                created_at: draw.created_at,
                request_count: 0,
                bytes_proxied: 0,
                max_connections: c.max_connections,
            };
            &&& c.udp_ports.len() > 0 && port == c.udp_ports[c.udp_ports.len() - 1]
            &&& !c.udp.contains_key(port)
            &&& c1.udp_ports == c.udp_ports.take(c.udp_ports.len() - 1)
            &&& c1.udp_events == c.udp_events.push(
                UdpTunnelEvent::Registered { tunnel_id: id, port },
            )
            &&& c1.udp.dom() =~= c.udp.dom().insert(port)
            &&& forall|other: u16|
                other != port && #[trigger] c.udp.contains_key(other) ==> c1.udp[other]
                    == c.udp[other]
            &&& is_group_with(c1.udp[port], None, id, decimal(port as nat), None)
            &&& is_new_member(c1.udp[port].members[id], info, None, draw.at)
            &&& c1.index == c.index.insert(id, KeyModel::Udp(port))
            &&& session_gained(c, c1, sid, id)
            &&& c1 == (CoreModel {
                udp: c1.udp,
                udp_ports: c1.udp_ports,
                udp_events: c1.udp_events,
                index: c1.index,
                sessions: c1.sessions,
                ..c
            })
        },
{
    if c.udp_ports.len() > 0 {
        let n = c.udp_ports.len() - 1;
        assert(!c.udp.contains_key(c.udp_ports[n]));
        assert(c.udp_ports.drop_last() =~= c.udp_ports.take(n));
    }
}

// ── peer to peer ─────────────────────────────────────────────────────────────

/// A publisher is registered exactly if the session has room and nobody publishes the name; it
/// is told that the name is in use otherwise. What is left is the publisher under its name, of
/// whose network nothing is known yet.
pub proof fn law_p2p_registration(
    c: CoreModel,
    sid: u128,
    name: Seq<char>,
    secret_hash: Seq<char>,
    draw: Draw,
)
    ensures
        ({
            let r = p2p_registration(c, sid, name, secret_hash, draw);
            &&& r is Ok <==> has_room(c, sid) && !c.p2p.contains_key(name)
            &&& has_room(c, sid) && r is Err ==> r == Err::<CoreModel, ErrorModel>(
                ErrorModel::Tunnel("P2P tunnel name '"@ + name + "' is already in use"@),
            )
        }),
        p2p_registration(c, sid, name, secret_hash, draw) matches Ok(c1) ==> {
            let id = draw.tunnel_id;
            &&& c1.p2p == c.p2p.insert(
                name,
                PublisherModel {
                    tunnel_info: TunnelModel {
                        session_id: sid,
                        tunnel_id: id,
                        protocol: TunnelProtocol::P2p,
                        subdomain: None,
                        assigned_port: None,
                        created_at: draw.created_at,
                        request_count: 0,
                        bytes_proxied: 0,
                        max_connections: c.max_connections,
                    },
                    secret_hash,
                    name,
                    nat_type: None,
                    mapped_addrs: Seq::empty(),
                },
            )
            &&& c1.index == c.index.insert(id, KeyModel::P2p(name))
            &&& session_gained(c, c1, sid, id)
            &&& c1 == (CoreModel { p2p: c1.p2p, index: c1.index, sessions: c1.sessions, ..c })
        },
{
}

} // verus!
