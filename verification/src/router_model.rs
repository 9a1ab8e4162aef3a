//! What the routing core knows, and how each operation changes it.
use crate::error::ErrorModel;
use crate::group::{
    alert_due, group_dispatched, group_failed, group_joined, group_left, group_proxied,
    group_recovered, healthy_ids, is_healthy_member, seeded_group, solo_group, AlertPayloadModel,
    GroupEventModel, GroupModel, GroupSpecModel,
};
use crate::ids::{hex_label, is_random_uuid, uuid_form};
use crate::protocol::TunnelProtocol;
use crate::session_info::SessionModel;
use crate::text::{decimal, is_ascii_alnum, prefix};
use crate::tunnel::{
    checked_member, info_dispatched, info_proxied, TcpTunnelEvent, TunnelModel, UdpTunnelEvent,
};
use vstd::prelude::*;
use vstd::utf8::encode_utf8;

verus! {

/// Where a tunnel is routed.
#[verifier::ext_equal]
pub enum KeyModel {
    Http(Seq<char>),
    Tcp(u16),
    Udp(u16),
    P2p(Seq<char>),
}

/// A publisher of a peer-to-peer tunnel.
#[verifier::ext_equal]
pub struct PublisherModel {
    pub tunnel_info: TunnelModel,
    pub secret_hash: Seq<char>,
    pub name: Seq<char>,
    pub nat_type: Option<Seq<char>>,
    pub mapped_addrs: Seq<Seq<char>>,
}

/// The routing core.
#[verifier::ext_equal]
pub struct CoreModel {
    /// The groups that serve each subdomain.
    pub http: Map<Seq<char>, GroupModel>,
    /// The groups that serve each TCP port.
    pub tcp: Map<u16, GroupModel>,
    /// The groups that serve each UDP port.
    pub udp: Map<u16, GroupModel>,
    /// The port of each TCP pool, by the pool's name and key hash.
    pub tcp_groups: Map<(Seq<char>, Seq<char>), u16>,
    /// The peer-to-peer publishers, by name.
    pub p2p: Map<Seq<char>, PublisherModel>,
    pub sessions: Map<u128, SessionModel>,
    /// The free TCP ports; the last one is handed out next.
    pub tcp_ports: Seq<u16>,
    /// The free UDP ports; the last one is handed out next.
    pub udp_ports: Seq<u16>,
    /// Where each tunnel is routed.
    pub index: Map<u128, KeyModel>,
    /// The connections that wait for their data stream.
    pub pending: Set<u128>,
    /// What the edges and the subscribers have yet to be told, oldest first.
    pub tcp_events: Seq<TcpTunnelEvent>,
    pub udp_events: Seq<UdpTunnelEvent>,
    pub group_events: Seq<GroupEventModel>,
    pub max_tunnels: usize,
    pub max_connections: usize,
    pub ip_rate_limit: u32,
}

/// What a registration takes from chance and from the clocks.
#[derive(Debug, Clone, Copy)]
pub struct Draw {
    /// The id of the new tunnel.
    pub tunnel_id: u128,
    /// The id that a generated subdomain is taken from.
    pub label_id: u128,
    /// Nanoseconds on the router's monotonic clock.
    pub created_at: u64,
    /// Nanoseconds since the Unix epoch.
    pub at: u64,
}

/// Whether the ids of a draw bear the marks of random UUIDs.
pub open spec fn is_random_draw(draw: Draw) -> bool {
    is_random_uuid(draw.tunnel_id) && is_random_uuid(draw.label_id)
}

/// The ports from `low` to `high`, ascending; none where `low` is above `high`.
pub open spec fn port_range(low: u16, high: u16) -> Seq<u16> {
    if low <= high {
        Seq::new((high - low + 1) as nat, |i: int| (low + i) as u16)
    } else {
        Seq::empty()
    }
}

/// A core that has served nobody yet.
pub open spec fn empty_core(
    tcp_ports: Seq<u16>,
    udp_ports: Seq<u16>,
    max_tunnels: usize,
    max_connections: usize,
    ip_rate_limit: u32,
) -> CoreModel {
    CoreModel {
        http: Map::empty(),
        tcp: Map::empty(),
        udp: Map::empty(),
        tcp_groups: Map::empty(),
        p2p: Map::empty(),
        sessions: Map::empty(),
        tcp_ports,
        udp_ports,
        index: Map::empty(),
        pending: Set::empty(),
        tcp_events: Seq::empty(),
        udp_events: Seq::empty(),
        group_events: Seq::empty(),
        max_tunnels,
        max_connections,
        ip_rate_limit,
    }
}

// ── routes ───────────────────────────────────────────────────────────────────

/// The group at a route. Peer-to-peer tunnels have none.
pub open spec fn group_at(c: CoreModel, key: KeyModel) -> Option<GroupModel> {
    match key {
        KeyModel::Http(s) => if c.http.contains_key(s) {
            Some(c.http[s])
        } else {
            None
        },
        KeyModel::Tcp(p) => if c.tcp.contains_key(p) {
            Some(c.tcp[p])
        } else {
            None
        },
        KeyModel::Udp(p) => if c.udp.contains_key(p) {
            Some(c.udp[p])
        } else {
            None
        },
        KeyModel::P2p(_) => None,
    }
}

/// `c` with the group `g` at a route.
pub open spec fn with_group(c: CoreModel, key: KeyModel, g: GroupModel) -> CoreModel {
    match key {
        KeyModel::Http(s) => CoreModel { http: c.http.insert(s, g), ..c },
        KeyModel::Tcp(p) => CoreModel { tcp: c.tcp.insert(p, g), ..c },
        KeyModel::Udp(p) => CoreModel { udp: c.udp.insert(p, g), ..c },
        KeyModel::P2p(_) => c,
    }
}

/// `c` without a group at a route.
pub open spec fn without_group(c: CoreModel, key: KeyModel) -> CoreModel {
    match key {
        KeyModel::Http(s) => CoreModel { http: c.http.remove(s), ..c },
        KeyModel::Tcp(p) => CoreModel { tcp: c.tcp.remove(p), ..c },
        KeyModel::Udp(p) => CoreModel { udp: c.udp.remove(p), ..c },
        KeyModel::P2p(_) => c,
    }
}

/// The route of the group that the tunnel `id` is a member of.
pub open spec fn member_key(c: CoreModel, id: u128) -> Option<KeyModel> {
    if c.index.contains_key(id) && group_at(c, c.index[id]) is Some && (group_at(
        c,
        c.index[id],
    )->0).members.contains_key(id) {
        Some(c.index[id])
    } else {
        None
    }
}

/// What the tunnel `id` is registered as.
pub open spec fn tunnel_at(c: CoreModel, id: u128) -> Option<TunnelModel> {
    if !c.index.contains_key(id) {
        None
    } else {
        match c.index[id] {
            KeyModel::P2p(name) => if c.p2p.contains_key(name) {
                Some(c.p2p[name].tunnel_info)
            } else {
                None
            },
            key => match group_at(c, key) {
                Some(g) => if g.members.contains_key(id) {
                    Some(g.members[id].info)
                } else {
                    None
                },
                None => None,
            },
        }
    }
}

/// The name of a route's protocol; empty for peer-to-peer tunnels, which no group serves.
pub open spec fn key_protocol(key: KeyModel) -> Seq<char> {
    match key {
        KeyModel::Http(_) => "http"@,
        KeyModel::Tcp(_) => "tcp"@,
        KeyModel::Udp(_) => "udp"@,
        KeyModel::P2p(_) => ""@,
    }
}

/// The label of a route: the subdomain, the port in decimal, or the peer-to-peer name.
pub open spec fn key_label(key: KeyModel) -> Seq<char> {
    match key {
        KeyModel::Http(s) => s,
        KeyModel::Tcp(p) => decimal(p as nat),
        KeyModel::Udp(p) => decimal(p as nat),
        KeyModel::P2p(s) => s,
    }
}

// ── registering ──────────────────────────────────────────────────────────────

/// Why a session may not register another tunnel, if it may not.
pub open spec fn limit_error(c: CoreModel, session_id: u128) -> Option<ErrorModel> {
    if !c.sessions.contains_key(session_id) {
        Some(ErrorModel::SessionNotFound(uuid_form(session_id)))
    } else if c.sessions[session_id].tunnels.len() >= c.max_tunnels {
        Some(
            ErrorModel::LimitExceeded(
                "session "@ + uuid_form(session_id) + " already has "@ + decimal(
                    c.sessions[session_id].tunnels.len(),
                ) + " tunnels (max "@ + decimal(c.max_tunnels as nat) + ")"@,
            ),
        )
    } else {
        None
    }
}

/// Why `s` is no subdomain that a client may ask for, if it is not.
pub open spec fn subdomain_error(s: Seq<char>) -> Option<ErrorModel> {
    if !(3 <= encode_utf8(s).len() <= 63) {
        Some(ErrorModel::Tunnel("subdomain '"@ + s + "' must be 3–63 characters long"@))
    } else if s.first() == '-' || s.last() == '-' {
        Some(ErrorModel::Tunnel("subdomain '"@ + s + "' must not start or end with a hyphen"@))
    } else if exists|i: int| 0 <= i < s.len() && !is_ascii_alnum(#[trigger] s[i]) && s[i] != '-' {
        Some(
            ErrorModel::Tunnel(
                "subdomain '"@ + s + "' may only contain letters, digits, and hyphens"@,
            ),
        )
    } else {
        None
    }
}

/// What a new tunnel is registered as.
pub open spec fn new_tunnel(
    c: CoreModel,
    session_id: u128,
    draw: Draw,
    protocol: TunnelProtocol,
    subdomain: Option<Seq<char>>,
    port: Option<u16>,
) -> TunnelModel {
    TunnelModel {
        session_id,
        tunnel_id: draw.tunnel_id,
        protocol,
        subdomain,
        assigned_port: port,
        created_at: draw.created_at,
        request_count: 0,
        bytes_proxied: 0,
        max_connections: c.max_connections,
    }
}

/// `c` with `id` among the tunnels of a session, which has to exist.
pub open spec fn session_extended(c: CoreModel, session_id: u128, id: u128) -> CoreModel {
    if c.sessions.contains_key(session_id) {
        CoreModel {
            sessions: c.sessions.insert(
                session_id,
                SessionModel {
                    tunnels: c.sessions[session_id].tunnels.push(id),
                    ..c.sessions[session_id]
                },
            ),
            ..c
        }
    } else {
        c
    }
}

/// `c` with the tunnel `id` of a session known at a route that `g` serves.
pub open spec fn routed(
    c: CoreModel,
    session_id: u128,
    id: u128,
    key: KeyModel,
    g: GroupModel,
) -> CoreModel {
    let c1 = with_group(c, key, g);
    session_extended(CoreModel { index: c1.index.insert(id, key), ..c1 }, session_id, id)
}

/// The group that a first member opens at a route.
pub open spec fn opened_group(
    label: Seq<char>,
    info: TunnelModel,
    group: Option<GroupSpecModel>,
    at: u64,
) -> GroupModel {
    match group {
        None => solo_group(label, info),
        Some(g) => seeded_group(
            g.group_name,
            Some(g.key_hash),
            checked_member(info, g.health_check, at),
        ),
    }
}

/// The name of a protocol in messages.
pub open spec fn protocol_name(p: TunnelProtocol) -> Seq<char> {
    match p {
        TunnelProtocol::Http => "Http"@,
        TunnelProtocol::Https => "Https"@,
        TunnelProtocol::Tcp => "Tcp"@,
        TunnelProtocol::Udp => "Udp"@,
        TunnelProtocol::P2p => "P2p"@,
    }
}

/// The name of the protocol that a group has, or `None`, in messages.
pub open spec fn opt_protocol_name(p: Option<TunnelProtocol>) -> Seq<char> {
    match p {
        Some(protocol) => "Some("@ + protocol_name(protocol) + ")"@,
        None => "None"@,
    }
}

/// Why a tunnel may not be registered on a subdomain that `g` serves, if it may not.
/// `existing` is the protocol of some member of `g`.
pub open spec fn join_error(
    g: GroupModel,
    label: Seq<char>,
    protocol: TunnelProtocol,
    group: Option<GroupSpecModel>,
    existing: Option<TunnelProtocol>,
) -> Option<ErrorModel> {
    match group {
        None => Some(ErrorModel::Tunnel("subdomain '"@ + label + "' is already in use"@)),
        Some(asked) => if g.key_hash != Some(asked.key_hash) {
            Some(
                ErrorModel::Tunnel(
                    "group key does not match existing group for subdomain '"@ + label + "'"@,
                ),
            )
        } else if existing != Some(protocol) {
            Some(
                ErrorModel::Tunnel(
                    "group member protocol mismatch for subdomain '"@ + label + "': existing="@
                        + opt_protocol_name(existing) + ", new="@ + protocol_name(protocol),
                ),
            )
        } else {
            None
        },
    }
}

/// The subdomain that a registration is for: the one asked for, or one made from chance.
pub open spec fn http_label(subdomain: Option<Seq<char>>, draw: Draw) -> Seq<char> {
    match subdomain {
        Some(s) => s,
        None => hex_label(draw.label_id),
    }
}

/// Registering an HTTP tunnel: the core afterwards, or why it is refused.
/// `existing` is the protocol of some member of the group that serves the subdomain.
pub open spec fn http_registration(
    c: CoreModel,
    session_id: u128,
    subdomain: Option<Seq<char>>,
    protocol: TunnelProtocol,
    group: Option<GroupSpecModel>,
    draw: Draw,
    existing: Option<TunnelProtocol>,
) -> Result<CoreModel, ErrorModel> {
    let label = http_label(subdomain, draw);
    let info = new_tunnel(c, session_id, draw, protocol, Some(label), None);
    if limit_error(c, session_id) is Some {
        Err(limit_error(c, session_id)->0)
    } else if subdomain is Some && subdomain_error(label) is Some {
        Err(subdomain_error(label)->0)
    } else if !c.http.contains_key(label) {
        Ok(
            routed(
                c,
                session_id,
                draw.tunnel_id,
                KeyModel::Http(label),
                opened_group(label, info, group, draw.at),
            ),
        )
    } else if join_error(c.http[label], label, protocol, group, existing) is Some {
        Err(join_error(c.http[label], label, protocol, group, existing)->0)
    } else {
        Ok(
            routed(
                c,
                session_id,
                draw.tunnel_id,
                KeyModel::Http(label),
                group_joined(
                    c.http[label],
                    checked_member(info, (group->0).health_check, draw.at),
                ),
            ),
        )
    }
}

/// The free TCP port that is handed out next, in use.
pub open spec fn tcp_opened(
    c: CoreModel,
    session_id: u128,
    group: Option<GroupSpecModel>,
    draw: Draw,
) -> CoreModel {
    let port = c.tcp_ports.last();
    let info = new_tunnel(c, session_id, draw, TunnelProtocol::Tcp, None, Some(port));
    let g = opened_group(decimal(port as nat), info, group, draw.at);
    let c1 = routed(c, session_id, draw.tunnel_id, KeyModel::Tcp(port), g);
    CoreModel {
        tcp_ports: c.tcp_ports.drop_last(),
        tcp_groups: match group {
            None => c.tcp_groups,
            Some(asked) => c.tcp_groups.insert((asked.group_name, asked.key_hash), port),
        },
        tcp_events: c.tcp_events.push(
            TcpTunnelEvent::Registered { tunnel_id: draw.tunnel_id, port },
        ),
        ..c1
    }
}

/// Registering a TCP tunnel: its port and the core afterwards, or why it is refused.
pub open spec fn tcp_registration(
    c: CoreModel,
    session_id: u128,
    group: Option<GroupSpecModel>,
    draw: Draw,
) -> Result<(CoreModel, u16), ErrorModel> {
    if limit_error(c, session_id) is Some {
        Err(limit_error(c, session_id)->0)
    } else if group is Some && c.tcp_groups.contains_key(
        ((group->0).group_name, (group->0).key_hash),
    ) {
        let port = c.tcp_groups[((group->0).group_name, (group->0).key_hash)];
        let info = new_tunnel(c, session_id, draw, TunnelProtocol::Tcp, None, Some(port));
        if c.tcp.contains_key(port) {
            let g = group_joined(
                c.tcp[port],
                checked_member(info, (group->0).health_check, draw.at),
            );
            Ok((routed(c, session_id, draw.tunnel_id, KeyModel::Tcp(port), g), port))
        } else {
            Err(
                ErrorModel::Tunnel(
                    "TCP group index points to missing port "@ + decimal(port as nat)
                        + "; please retry"@,
                ),
            )
        }
    } else if c.tcp_ports.len() == 0 {
        Err(ErrorModel::NoPortsAvailable)
    } else {
        Ok((tcp_opened(c, session_id, group, draw), c.tcp_ports.last()))
    }
}

/// Registering a UDP tunnel: its port and the core afterwards, or why it is refused.
pub open spec fn udp_registration(c: CoreModel, session_id: u128, draw: Draw) -> Result<
    (CoreModel, u16),
    ErrorModel,
> {
    if limit_error(c, session_id) is Some {
        Err(limit_error(c, session_id)->0)
    } else if c.udp_ports.len() == 0 {
        Err(ErrorModel::NoPortsAvailable)
    } else {
        let port = c.udp_ports.last();
        let info = new_tunnel(c, session_id, draw, TunnelProtocol::Udp, None, Some(port));
        let c1 = routed(
            c,
            session_id,
            draw.tunnel_id,
            KeyModel::Udp(port),
            solo_group(decimal(port as nat), info),
        );
        Ok(
            (
                CoreModel {
                    udp_ports: c.udp_ports.drop_last(),
                    udp_events: c.udp_events.push(
                        UdpTunnelEvent::Registered { tunnel_id: draw.tunnel_id, port },
                    ),
                    ..c1
                },
                port,
            ),
        )
    }
}

/// Registering a peer-to-peer publisher: the core afterwards, or why it is refused.
pub open spec fn p2p_registration(
    c: CoreModel,
    session_id: u128,
    name: Seq<char>,
    secret_hash: Seq<char>,
    draw: Draw,
) -> Result<CoreModel, ErrorModel> {
    if limit_error(c, session_id) is Some {
        Err(limit_error(c, session_id)->0)
    } else if c.p2p.contains_key(name) {
        Err(ErrorModel::Tunnel("P2P tunnel name '"@ + name + "' is already in use"@))
    } else {
        let publisher = PublisherModel {
            tunnel_info: new_tunnel(c, session_id, draw, TunnelProtocol::P2p, None, None),
            secret_hash,
            name,
            nat_type: None,
            mapped_addrs: Seq::empty(),
        };
        Ok(
            session_extended(
                CoreModel {
                    p2p: c.p2p.insert(name, publisher),
                    index: c.index.insert(draw.tunnel_id, KeyModel::P2p(name)),
                    ..c
                },
                session_id,
                draw.tunnel_id,
            ),
        )
    }
}

// ── removing ─────────────────────────────────────────────────────────────────

/// Whether the group at a route has no member left once `id` is out; a route without a
/// group counts as such.
pub open spec fn is_last_member(c: CoreModel, key: KeyModel, id: u128) -> bool {
    match group_at(c, key) {
        Some(g) => g.members.remove(id).dom() =~= Set::empty(),
        None => true,
    }
}

/// `c` without the tunnel `id`. The last member of a group takes the route with it; a port
/// goes back to where it is handed out next.
pub open spec fn tunnel_removed(c: CoreModel, id: u128) -> CoreModel {
    if !c.index.contains_key(id) {
        c
    } else {
        let key = c.index[id];
        let c1 = CoreModel { index: c.index.remove(id), ..c };
        if !is_last_member(c, key, id) {
            with_group(c1, key, group_left(group_at(c, key)->0, id))
        } else {
            let c2 = without_group(c1, key);
            match key {
                KeyModel::Http(_) => c2,
                KeyModel::Tcp(port) => CoreModel {
                    tcp_groups: match group_at(c, key) {
                        Some(g) => match g.key_hash {
                            Some(key_hash) => c.tcp_groups.remove((g.name, key_hash)),
                            None => c.tcp_groups,
                        },
                        None => c.tcp_groups,
                    },
                    tcp_ports: c.tcp_ports.push(port),
                    tcp_events: c.tcp_events.push(TcpTunnelEvent::Unregistered { port }),
                    ..c2
                },
                KeyModel::Udp(port) => CoreModel {
                    udp_ports: c.udp_ports.push(port),
                    udp_events: c.udp_events.push(UdpTunnelEvent::Unregistered { port }),
                    ..c2
                },
                KeyModel::P2p(name) => CoreModel { p2p: c.p2p.remove(name), ..c2 },
            }
        }
    }
}

/// `c` without the tunnels `ids`, taken out in order.
pub open spec fn tunnels_removed(c: CoreModel, ids: Seq<u128>) -> CoreModel
    decreases ids.len(),
{
    if ids.len() == 0 {
        c
    } else {
        tunnel_removed(tunnels_removed(c, ids.drop_last()), ids.last())
    }
}

/// `c` without a session and all its tunnels.
pub open spec fn session_removed(c: CoreModel, session_id: u128) -> CoreModel {
    if c.sessions.contains_key(session_id) {
        tunnels_removed(
            CoreModel { sessions: c.sessions.remove(session_id), ..c },
            c.sessions[session_id].tunnels,
        )
    } else {
        c
    }
}

// ── health ───────────────────────────────────────────────────────────────────

/// What subscribers are told when the member `id` of `g` has flipped.
pub open spec fn flip_event(
    key: KeyModel,
    id: u128,
    g: GroupModel,
    healthy: bool,
    reason: Seq<char>,
) -> GroupEventModel {
    GroupEventModel {
        protocol: key_protocol(key),
        label: key_label(key),
        tunnel_id: id,
        healthy,
        reason,
        healthy_count: healthy_ids(g).len(),
        member_count: g.members.dom().len(),
    }
}

/// `c` after a good report on the tunnel `id` at `at`.
pub open spec fn marked_healthy(c: CoreModel, id: u128, at: u64) -> CoreModel {
    match member_key(c, id) {
        None => c,
        Some(key) => {
            let g = group_at(c, key)->0;
            let g2 = group_recovered(g, id, at);
            let c2 = with_group(c, key, g2);
            if g.members[id].healthy {
                c2
            } else {
                CoreModel {
                    group_events: c.group_events.push(flip_event(key, id, g2, true, "recovered"@)),
                    ..c2
                }
            }
        },
    }
}

/// `c` after a bad report on the tunnel `id` at `at`.
pub open spec fn marked_unhealthy(c: CoreModel, id: u128, reason: Seq<char>, at: u64) -> CoreModel {
    match member_key(c, id) {
        None => c,
        Some(key) => {
            let g = group_at(c, key)->0;
            let g2 = group_failed(g, id, reason, at);
            let c2 = with_group(c, key, g2);
            if g.members[id].healthy {
                CoreModel {
                    group_events: c.group_events.push(flip_event(key, id, g2, false, reason)),
                    ..c2
                }
            } else {
                c2
            }
        },
    }
}

/// `c` once a session was heard of at `now`.
pub open spec fn session_heard(c: CoreModel, session_id: u128, now: u64) -> CoreModel {
    if c.sessions.contains_key(session_id) {
        CoreModel {
            sessions: c.sessions.insert(
                session_id,
                SessionModel { last_heartbeat: now, ..c.sessions[session_id] },
            ),
            ..c
        }
    } else {
        c
    }
}

/// The route of the group that the index gives for the tunnel `id`, if there is one.
pub open spec fn route_of(c: CoreModel, id: u128) -> Option<KeyModel> {
    if c.index.contains_key(id) && group_at(c, c.index[id]) is Some {
        Some(c.index[id])
    } else {
        None
    }
}

/// Whether the alert on the group of the tunnel `id` is due.
pub open spec fn alert_due_for(c: CoreModel, id: u128) -> bool {
    route_of(c, id) is Some && alert_due(group_at(c, c.index[id])->0)
}

/// `c` once the alert on the group of the tunnel `id` has been handed out.
pub open spec fn alert_sent(c: CoreModel, id: u128) -> CoreModel {
    with_group(
        c,
        c.index[id],
        GroupModel { zero_healthy_alerted: true, ..group_at(c, c.index[id])->0 },
    )
}

/// What the alert on the group of the tunnel `id` says.
pub open spec fn alert_payload(c: CoreModel, id: u128, region: Seq<char>) -> AlertPayloadModel {
    let key = c.index[id];
    let g = group_at(c, key)->0;
    AlertPayloadModel {
        region_id: region,
        protocol: key_protocol(key),
        label: key_label(key),
        group_name: g.name,
        key_hash_short: prefix(g.key_hash->0, 8),
        member_count: g.members.dom().len(),
    }
}

// ── resolving ────────────────────────────────────────────────────────────────

/// Whether a request for a route can go to the member `id`: it is healthy, and its session
/// is still there.
pub open spec fn can_serve(c: CoreModel, key: KeyModel, id: u128) -> bool {
    match group_at(c, key) {
        Some(g) => is_healthy_member(g, id) && c.sessions.contains_key(
            g.members[id].info.session_id,
        ),
        None => false,
    }
}

/// Whether a request for a route can go to some member.
pub open spec fn is_served(c: CoreModel, key: KeyModel) -> bool {
    exists|id: u128| #[trigger] can_serve(c, key, id)
}

/// Whether the publisher of a name can be reached.
pub open spec fn is_published(c: CoreModel, name: Seq<char>) -> bool {
    c.p2p.contains_key(name) && c.sessions.contains_key(c.p2p[name].tunnel_info.session_id)
}

/// `c` after a request for a route went to the member `id`.
pub open spec fn dispatched(c: CoreModel, key: KeyModel, id: u128) -> CoreModel {
    with_group(c, key, group_dispatched(group_at(c, key)->0, id))
}

/// `c` after the tunnel `id` carried `n` more bytes.
pub open spec fn bytes_added(c: CoreModel, id: u128, n: u64) -> CoreModel {
    if !c.index.contains_key(id) {
        c
    } else {
        match c.index[id] {
            KeyModel::P2p(name) => if c.p2p.contains_key(name) {
                CoreModel {
                    p2p: c.p2p.insert(
                        name,
                        PublisherModel {
                            tunnel_info: info_proxied(c.p2p[name].tunnel_info, n),
                            ..c.p2p[name]
                        },
                    ),
                    ..c
                }
            } else {
                c
            },
            key => match member_key(c, id) {
                Some(_) => with_group(c, key, group_proxied(group_at(c, key)->0, id, n)),
                None => c,
            },
        }
    }
}

/// `c` after a subscriber was sent to the publisher `name`.
pub open spec fn p2p_dispatched(c: CoreModel, name: Seq<char>) -> CoreModel {
    CoreModel {
        p2p: c.p2p.insert(
            name,
            PublisherModel {
                tunnel_info: info_dispatched(c.p2p[name].tunnel_info),
                ..c.p2p[name]
            },
        ),
        ..c
    }
}

/// `c` with one more request counted for the tunnel `id`.
pub open spec fn request_counted(c: CoreModel, id: u128) -> CoreModel {
    if !c.index.contains_key(id) {
        c
    } else {
        match c.index[id] {
            KeyModel::P2p(name) => if c.p2p.contains_key(name) {
                p2p_dispatched(c, name)
            } else {
                c
            },
            key => match member_key(c, id) {
                Some(_) => dispatched(c, key, id),
                None => c,
            },
        }
    }
}

/// `c` with what the publisher's client found out about its own network.
pub open spec fn nat_updated(
    c: CoreModel,
    id: u128,
    nat_type: Seq<char>,
    mapped_addrs: Seq<Seq<char>>,
) -> CoreModel {
    if c.index.contains_key(id) {
        match c.index[id] {
            KeyModel::P2p(name) => if c.p2p.contains_key(name) {
                CoreModel {
                    p2p: c.p2p.insert(
                        name,
                        PublisherModel { nat_type: Some(nat_type), mapped_addrs, ..c.p2p[name] },
                    ),
                    ..c
                }
            } else {
                c
            },
            _ => c,
        }
    } else {
        c
    }
}

} // verus!
