//! The routing core: which tunnel serves which subdomain, port or peer name.
use crate::clock::{clock_origin, nanos_since, unix_nanos};
use crate::error::{Error, ErrorModel};
use crate::group::{
    group_events, is_member_protocol, opt_group, GroupEvent, GroupModel, GroupSpec, GroupSpecModel,
    TunnelGroup,
};
use crate::ids::{hex_label, is_random_uuid, label_of, new_uuid, uuid_text};
use crate::protocol::TunnelProtocol;
use crate::router_model::{
    empty_core, group_at, http_label, http_registration, is_random_draw, join_error, key_label,
    key_protocol, limit_error, new_tunnel, opt_protocol_name, p2p_registration, port_range,
    protocol_name, routed, session_extended, subdomain_error, tcp_opened, tcp_registration,
    udp_registration, with_group, without_group, CoreModel, Draw, KeyModel, PublisherModel,
};
use crate::session_info::{new_session_table, session_table, SessionInfo};
use crate::table::{table_contains, table_insert, table_remove, table_view, Contents};
use crate::text::{
    ascii_alnum, chars_of, decimal, decimal_text, is_ascii_alnum, join3, opt_text, opt_text_clone,
    text_eq, texts, texts_clone,
};
use crate::tunnel::{GroupMember, TcpTunnelEvent, TunnelInfo, UdpTunnelEvent};
use dashmap::DashMap;
use vstd::prelude::*;
use vstd::string::*;
use vstd::utf8::*;

verus! {

/// Where a tunnel is routed.
#[derive(Debug)]
pub enum TunnelKey {
    Http(String),
    Tcp(u16),
    Udp(u16),
    P2p(String),
}

impl View for TunnelKey {
    type V = KeyModel;

    open spec fn view(&self) -> KeyModel {
        match self {
            TunnelKey::Http(s) => KeyModel::Http(s@),
            TunnelKey::Tcp(p) => KeyModel::Tcp(*p),
            TunnelKey::Udp(p) => KeyModel::Udp(*p),
            TunnelKey::P2p(s) => KeyModel::P2p(s@),
        }
    }
}

impl Clone for TunnelKey {
    fn clone(&self) -> (r: Self)
        ensures
            r@ == self@,
    {
        match self {
            TunnelKey::Http(s) => TunnelKey::Http(s.clone()),
            TunnelKey::Tcp(p) => TunnelKey::Tcp(*p),
            TunnelKey::Udp(p) => TunnelKey::Udp(*p),
            TunnelKey::P2p(s) => TunnelKey::P2p(s.clone()),
        }
    }
}

impl TunnelKey {
    /// The name of the route's protocol; empty for peer-to-peer tunnels.
    pub fn protocol(&self) -> (r: String)
        ensures
            r@ == key_protocol(self@),
    {
        match self {
            TunnelKey::Http(_) => "http".to_owned(),
            TunnelKey::Tcp(_) => "tcp".to_owned(),
            TunnelKey::Udp(_) => "udp".to_owned(),
            TunnelKey::P2p(_) => "".to_owned(),
        }
    }

    /// The subdomain, the port in decimal, or the peer-to-peer name.
    pub fn label(&self) -> (r: String)
        ensures
            r@ == key_label(self@),
    {
        match self {
            TunnelKey::Http(s) => s.clone(),
            TunnelKey::Tcp(p) => decimal_text(*p as u64),
            TunnelKey::Udp(p) => decimal_text(*p as u64),
            TunnelKey::P2p(s) => s.clone(),
        }
    }
}

/// A publisher of a peer-to-peer tunnel: subscribers ask for it by name.
#[derive(Debug)]
pub struct P2pPublisher {
    pub tunnel_info: TunnelInfo,
    pub secret_hash: String,
    pub name: String,
    /// The kind of network that the publisher's client found itself in.
    pub nat_type: Option<String>,
    /// The addresses under which the outside sees it.
    pub mapped_addrs: Vec<String>,
}

impl View for P2pPublisher {
    type V = PublisherModel;

    open spec fn view(&self) -> PublisherModel {
        PublisherModel {
            tunnel_info: self.tunnel_info@,
            secret_hash: self.secret_hash@,
            name: self.name@,
            nat_type: opt_text(self.nat_type),
            mapped_addrs: texts(self.mapped_addrs@),
        }
    }
}

impl Clone for P2pPublisher {
    fn clone(&self) -> (r: Self)
        ensures
            r@ == self@,
    {
        P2pPublisher {
            tunnel_info: self.tunnel_info.clone(),
            secret_hash: self.secret_hash.clone(),
            name: self.name.clone(),
            nat_type: opt_text_clone(&self.nat_type),
            mapped_addrs: texts_clone(&self.mapped_addrs),
        }
    }
}

// ── what the core's tables hold ──────────────────────────────────────────────

/// What a table of subdomains holds: the group that serves each.
pub uninterp spec fn http_table(m: DashMap<String, TunnelGroup>) -> Map<Seq<char>, GroupModel>;

/// What a table of ports holds: the group that serves each.
pub uninterp spec fn port_table(m: DashMap<u16, TunnelGroup>) -> Map<u16, GroupModel>;

/// What a table of TCP pools holds: the port of each, by name and key hash.
pub uninterp spec fn pool_table(m: DashMap<(String, String), u16>) -> Map<
    (Seq<char>, Seq<char>),
    u16,
>;

/// What a table of publishers holds: each under its name.
pub uninterp spec fn publisher_table(m: DashMap<String, P2pPublisher>) -> Map<
    Seq<char>,
    PublisherModel,
>;

/// What a table of routes holds: the route of each tunnel.
pub uninterp spec fn index_table(m: DashMap<u128, TunnelKey>) -> Map<u128, KeyModel>;

/// What a table of waiting connections holds: an entry for each.
pub uninterp spec fn waiting_table(m: DashMap<u128, ()>) -> Map<u128, ()>;

impl Contents<Seq<char>, GroupModel> for DashMap<String, TunnelGroup> {
    open spec fn contents(&self) -> Map<Seq<char>, GroupModel> {
        http_table(*self)
    }
}

impl Contents<u16, GroupModel> for DashMap<u16, TunnelGroup> {
    open spec fn contents(&self) -> Map<u16, GroupModel> {
        port_table(*self)
    }
}

impl Contents<(Seq<char>, Seq<char>), u16> for DashMap<(String, String), u16> {
    open spec fn contents(&self) -> Map<(Seq<char>, Seq<char>), u16> {
        pool_table(*self)
    }
}

impl Contents<Seq<char>, PublisherModel> for DashMap<String, P2pPublisher> {
    open spec fn contents(&self) -> Map<Seq<char>, PublisherModel> {
        publisher_table(*self)
    }
}

impl Contents<u128, KeyModel> for DashMap<u128, TunnelKey> {
    open spec fn contents(&self) -> Map<u128, KeyModel> {
        index_table(*self)
    }
}

impl Contents<u128, ()> for DashMap<u128, ()> {
    open spec fn contents(&self) -> Map<u128, ()> {
        waiting_table(*self)
    }
}

/// `DashMap::new`: a table without subdomains.
#[verifier::external_body]
fn new_http_table() -> (r: DashMap<String, TunnelGroup>)
    ensures
        http_table(r) =~= Map::empty(),
{
    DashMap::new()
}

/// `DashMap::new`: a table without ports.
#[verifier::external_body]
fn new_port_table() -> (r: DashMap<u16, TunnelGroup>)
    ensures
        port_table(r) =~= Map::empty(),
{
    DashMap::new()
}

/// `DashMap::new`: a table without pools.
#[verifier::external_body]
fn new_pool_table() -> (r: DashMap<(String, String), u16>)
    ensures
        pool_table(r) =~= Map::empty(),
{
    DashMap::new()
}

/// `DashMap::new`: a table without publishers.
#[verifier::external_body]
fn new_publisher_table() -> (r: DashMap<String, P2pPublisher>)
    ensures
        publisher_table(r) =~= Map::empty(),
{
    DashMap::new()
}

/// `DashMap::new`: a table without routes.
#[verifier::external_body]
fn new_index_table() -> (r: DashMap<u128, TunnelKey>)
    ensures
        index_table(r) =~= Map::empty(),
{
    DashMap::new()
}

/// `DashMap::new`: a table without waiting connections.
#[verifier::external_body]
fn new_waiting_table() -> (r: DashMap<u128, ()>)
    ensures
        waiting_table(r) =~= Map::empty(),
{
    DashMap::new()
}

/// `IteratorRandom::choose` of rand, over the numbers below `n`: one of them, which one is
/// left to chance; `None` exactly where there is none.
#[verifier::external_body]
pub(crate) fn choose_below(n: usize) -> (r: Option<usize>)
    ensures
        r is None <==> n == 0,
        r matches Some(i) ==> i < n,
{
    rand::seq::IteratorRandom::choose(0..n, &mut rand::thread_rng())
}

// ── the core ─────────────────────────────────────────────────────────────────

/// The server's central routing table.
pub struct TunnelCore {
    /// The group that serves each subdomain.
    pub http_routes: DashMap<String, TunnelGroup>,
    /// The group that serves each TCP port.
    pub tcp_routes: DashMap<u16, TunnelGroup>,
    /// The group that serves each UDP port.
    pub udp_routes: DashMap<u16, TunnelGroup>,
    /// The port of each TCP pool, by the pool's name and key hash.
    pub tcp_group_index: DashMap<(String, String), u16>,
    /// The peer-to-peer publishers, by name.
    pub p2p_tunnels: DashMap<String, P2pPublisher>,
    pub sessions: DashMap<u128, SessionInfo>,
    /// The free TCP ports; the last one is handed out next.
    pub available_tcp_ports: Vec<u16>,
    /// The free UDP ports; the last one is handed out next.
    pub available_udp_ports: Vec<u16>,
    /// Where each tunnel is routed.
    pub tunnel_index: DashMap<u128, TunnelKey>,
    pub max_tunnels_per_session: usize,
    pub max_connections_per_tunnel: usize,
    /// How many requests a second one address may send.
    pub ip_rate_limit_rps: u32,
    /// The connections that wait for their data stream.
    pub pending_conns: DashMap<u128, ()>,
    /// What the TCP edge has yet to be told, oldest first.
    pub tcp_events: Vec<TcpTunnelEvent>,
    /// What the UDP edge has yet to be told, oldest first.
    pub udp_events: Vec<UdpTunnelEvent>,
    /// What the subscribers of group events have yet to be told, oldest first.
    pub group_events: Vec<GroupEvent>,
    /// Where the router's monotonic clock starts.
    pub started: std::time::Instant,
}

impl View for TunnelCore {
    type V = CoreModel;

    open spec fn view(&self) -> CoreModel {
        CoreModel {
            http: http_table(self.http_routes),
            tcp: port_table(self.tcp_routes),
            udp: port_table(self.udp_routes),
            tcp_groups: pool_table(self.tcp_group_index),
            p2p: publisher_table(self.p2p_tunnels),
            sessions: session_table(self.sessions),
            tcp_ports: self.available_tcp_ports@,
            udp_ports: self.available_udp_ports@,
            index: index_table(self.tunnel_index),
            pending: waiting_table(self.pending_conns).dom(),
            tcp_events: self.tcp_events@,
            udp_events: self.udp_events@,
            group_events: group_events(self.group_events@),
            max_tunnels: self.max_tunnels_per_session,
            max_connections: self.max_connections_per_tunnel,
            ip_rate_limit: self.ip_rate_limit_rps,
        }
    }
}

/// The ports from `low` to `high`, ascending.
fn ports_between(low: u16, high: u16) -> (r: Vec<u16>)
    ensures
        r@ == port_range(low, high),
{
    let mut out: Vec<u16> = Vec::new();
    if low > high {
        return out;
    }
    let mut p: u16 = low;
    while p < high
        invariant
            low <= p <= high,
            out@ == port_range(low, high).take(p - low),
        decreases high - p,
    {
        out.push(p);
        assert(port_range(low, high).take(p - low + 1) =~= port_range(low, high).take(
            p - low,
        ).push(p));
        p = p + 1;
    }
    out.push(high);
    assert(out@ =~= port_range(low, high));
    out
}

/// Whether `s` is a subdomain that a client may ask for: 3 to 63 bytes of ASCII letters,
/// digits and hyphens, none of these at either end.
pub fn validate_subdomain(s: &str) -> (r: Result<(), Error>)
    ensures
        match r {
            Ok(()) => subdomain_error(s@) is None,
            Err(e) => Some(e@) == subdomain_error(s@),
        },
{
    let n: usize = s.as_bytes().len();
    if n < 3 || n > 63 {
        return Err(Error::Tunnel(join3("subdomain '", s, "' must be 3–63 characters long")));
    }
    let chars: Vec<char> = chars_of(s);
    if chars.len() == 0 {
        proof {
            assert(s@ =~= Seq::<char>::empty());
            assert(encode_utf8(s@).len() == 0) by {
                reveal_with_fuel(encode_utf8, 2);
            }
        }
        return Ok(());
    }
    if chars[0] == '-' || chars[chars.len() - 1] == '-' {
        return Err(
            Error::Tunnel(join3("subdomain '", s, "' must not start or end with a hyphen")),
        );
    }
    let mut i: usize = 0;
    while i < chars.len()
        invariant
            i <= chars@.len(),
            chars@ == s@,
            forall|j: int| 0 <= j < i ==> is_ascii_alnum(#[trigger] s@[j]) || s@[j] == '-',
            s@.len() > 0,
            3 <= encode_utf8(s@).len() <= 63,
            s@.first() != '-',
            s@.last() != '-',
        decreases chars@.len() - i,
    {
        if !ascii_alnum(chars[i]) && chars[i] != '-' {
            assert(!is_ascii_alnum(s@[i as int]));
            return Err(
                Error::Tunnel(
                    join3("subdomain '", s, "' may only contain letters, digits, and hyphens"),
                ),
            );
        }
        i = i + 1;
    }
    Ok(())
}

/// An eight-digit hexadecimal label, left to chance.
pub fn random_subdomain() -> (r: String)
    ensures
        exists|id: u128| is_random_uuid(id) && r@ == #[trigger] hex_label(id),
{
    label_of(new_uuid())
}

impl TunnelProtocol {
    /// The protocol's name in messages.
    pub fn name(&self) -> (r: String)
        ensures
            r@ == protocol_name(*self),
    {
        match self {
            TunnelProtocol::Http => "Http".to_owned(),
            TunnelProtocol::Https => "Https".to_owned(),
            TunnelProtocol::Tcp => "Tcp".to_owned(),
            TunnelProtocol::Udp => "Udp".to_owned(),
            TunnelProtocol::P2p => "P2p".to_owned(),
        }
    }
}

/// The name of a protocol, or `None`, in messages.
fn opt_name(p: Option<TunnelProtocol>) -> (r: String)
    ensures
        r@ == opt_protocol_name(p),
{
    match p {
        Some(protocol) => join3("Some(", protocol.name().as_str(), ")"),
        None => "None".to_owned(),
    }
}

impl TunnelGroup {
    /// Whether a tunnel may be registered on the subdomain `label`, which this group serves.
    pub fn admits(&self, label: &str, protocol: TunnelProtocol, group: &Option<GroupSpec>) -> (r:
        Result<(), Error>)
        ensures
            exists|existing: Option<TunnelProtocol>| #[trigger]
                is_member_protocol(self@, existing) && (match r {
                    Ok(()) => join_error(self@, label@, protocol, opt_group(*group), existing)
                        is None,
                    Err(e) => Some(e@) == join_error(
                        self@,
                        label@,
                        protocol,
                        opt_group(*group),
                        existing,
                    ),
                }),
    {
        let existing: Option<TunnelProtocol> = self.member_protocol();
        assert(is_member_protocol(self@, existing));
        let asked: &GroupSpec = match group {
            Some(g) => g,
            None => {
                return Err(
                    Error::Tunnel(join3("subdomain '", label, "' is already in use")),
                );
            },
        };
        let same_key: bool = match &self.key_hash {
            Some(k) => text_eq(k.as_str(), asked.key_hash.as_str()),
            None => false,
        };
        if !same_key {
            return Err(
                Error::Tunnel(
                    join3("group key does not match existing group for subdomain '", label, "'"),
                ),
            );
        }
        let same_protocol: bool = match existing {
            Some(p) => p == protocol,
            None => false,
        };
        if !same_protocol {
            let mut m: String = join3(
                "group member protocol mismatch for subdomain '",
                label,
                "': existing=",
            );
            m.append(opt_name(existing).as_str());
            m.append(", new=");
            m.append(protocol.name().as_str());
            return Err(Error::Tunnel(m));
        }
        Ok(())
    }
}

/// What a registration that yields an id and a label came to.
pub open spec fn registered(r: Result<(u128, String), Error>) -> Result<
    (u128, Seq<char>),
    ErrorModel,
> {
    match r {
        Ok((id, label)) => Ok((id, label@)),
        Err(e) => Err(e@),
    }
}

/// What a registration that yields an id and a port came to.
pub open spec fn registered_port(r: Result<(u128, u16), Error>) -> Result<(u128, u16), ErrorModel> {
    match r {
        Ok(pair) => Ok(pair),
        Err(e) => Err(e@),
    }
}

impl TunnelCore {
    /// A core that has served nobody yet. It hands out the TCP and UDP ports of two
    /// inclusive ranges; `[0, 0]` for UDP stands for none.
    pub fn new(
        tcp_port_range: [u16; 2],
        udp_port_range: [u16; 2],
        max_tunnels_per_session: usize,
        max_connections_per_tunnel: usize,
        ip_rate_limit_rps: u32,
    ) -> (r: Self)
        ensures
            r@ == empty_core(
                port_range(tcp_port_range@[0], tcp_port_range@[1]),
                if udp_port_range@[0] == 0 && udp_port_range@[1] == 0 {
                    Seq::empty()
                } else {
                    port_range(udp_port_range@[0], udp_port_range@[1])
                },
                max_tunnels_per_session,
                max_connections_per_tunnel,
                ip_rate_limit_rps,
            ),
    {
        let tcp_ports: Vec<u16> = ports_between(tcp_port_range[0], tcp_port_range[1]);
        let udp_ports: Vec<u16> = if udp_port_range[0] == 0 && udp_port_range[1] == 0 {
            Vec::new()
        } else {
            ports_between(udp_port_range[0], udp_port_range[1])
        };
        let core = TunnelCore {
            http_routes: new_http_table(),
            tcp_routes: new_port_table(),
            udp_routes: new_port_table(),
            tcp_group_index: new_pool_table(),
            p2p_tunnels: new_publisher_table(),
            sessions: new_session_table(),
            available_tcp_ports: tcp_ports,
            available_udp_ports: udp_ports,
            tunnel_index: new_index_table(),
            max_tunnels_per_session,
            max_connections_per_tunnel,
            ip_rate_limit_rps,
            pending_conns: new_waiting_table(),
            tcp_events: Vec::new(),
            udp_events: Vec::new(),
            group_events: Vec::new(),
            started: clock_origin(),
        };
        proof {
            let tcp = port_range(tcp_port_range@[0], tcp_port_range@[1]);
            let udp = if udp_port_range@[0] == 0 && udp_port_range@[1] == 0 {
                Seq::empty()
            } else {
                port_range(udp_port_range@[0], udp_port_range@[1])
            };
            let want = empty_core(
                tcp,
                udp,
                max_tunnels_per_session,
                max_connections_per_tunnel,
                ip_rate_limit_rps,
            );
            assert(core@.udp_ports =~= want.udp_ports);
            assert(core@.group_events =~= want.group_events);
            assert(core@ =~= want);
        }
        core
    }

    /// Nanoseconds on the router's monotonic clock.
    pub(crate) fn clock_nanos(&self) -> u64 {
        nanos_since(&self.started)
    }

    /// What a registration takes from chance and from the clocks.
    pub(crate) fn draw(&self) -> (r: Draw)
        ensures
            is_random_draw(r),
    {
        Draw {
            tunnel_id: new_uuid(),
            label_id: new_uuid(),
            created_at: self.clock_nanos(),
            at: unix_nanos(),
        }
    }

    // ── registering ──────────────────────────────────────────────────────────

    /// Whether a session may register another tunnel.
    pub fn check_session_limit(&self, session_id: &u128) -> (r: Result<(), Error>)
        ensures
            match r {
                Ok(()) => limit_error(self@, *session_id) is None,
                Err(e) => Some(e@) == limit_error(self@, *session_id),
            },
    {
        let count: Option<usize> = table_view(
            &self.sessions,
            session_id,
            |s: &SessionInfo| -> (n: usize) ensures n == s@.tunnels.len() { s.tunnels.len() },
        );
        match count {
            None => Err(Error::SessionNotFound(uuid_text(*session_id))),
            Some(n) => {
                if n >= self.max_tunnels_per_session {
                    let mut m: String = join3(
                        "session ",
                        uuid_text(*session_id).as_str(),
                        " already has ",
                    );
                    m.append(decimal_text(n as u64).as_str());
                    m.append(" tunnels (max ");
                    m.append(decimal_text(self.max_tunnels_per_session as u64).as_str());
                    m.append(")");
                    Err(Error::LimitExceeded(m))
                } else {
                    Ok(())
                }
            },
        }
    }

    /// Notes `id` among the tunnels of a session.
    fn add_tunnel_to_session(&mut self, session_id: &u128, id: u128)
        ensures
            final(self)@ == session_extended(old(self)@, *session_id, id),
    {
        match table_remove(&mut self.sessions, session_id) {
            Some(session) => {
                let mut s: SessionInfo = session;
                s.tunnels.push(id);
                table_insert(&mut self.sessions, *session_id, s);
            },
            None => {},
        }
        assert(self@ =~= session_extended(old(self)@, *session_id, id));
    }

    /// Takes the group at a route out of the core.
    pub(crate) fn take_group(&mut self, key: &TunnelKey) -> (r: Option<TunnelGroup>)
        ensures
            r is Some <==> group_at(old(self)@, key@) is Some,
            r matches Some(g) ==> Some(g@) == group_at(old(self)@, key@),
            final(self)@ == without_group(old(self)@, key@),
    {
        let r: Option<TunnelGroup> = match key {
            TunnelKey::Http(s) => table_remove(&mut self.http_routes, s),
            TunnelKey::Tcp(p) => table_remove(&mut self.tcp_routes, p),
            TunnelKey::Udp(p) => table_remove(&mut self.udp_routes, p),
            TunnelKey::P2p(_) => None,
        };
        assert(self@ =~= without_group(old(self)@, key@));
        r
    }

    /// Puts a group at a route.
    pub(crate) fn put_group(&mut self, key: &TunnelKey, g: TunnelGroup)
        ensures
            final(self)@ == with_group(old(self)@, key@, g@),
    {
        match key {
            TunnelKey::Http(s) => table_insert(&mut self.http_routes, s.clone(), g),
            TunnelKey::Tcp(p) => table_insert(&mut self.tcp_routes, *p, g),
            TunnelKey::Udp(p) => table_insert(&mut self.udp_routes, *p, g),
            TunnelKey::P2p(_) => {},
        }
        assert(self@ =~= with_group(old(self)@, key@, g@));
    }

    /// Routes the tunnel `id` of a session to a group.
    fn route(&mut self, session_id: &u128, id: u128, key: TunnelKey, g: TunnelGroup)
        ensures
            final(self)@ == routed(old(self)@, *session_id, id, key@, g@),
    {
        self.put_group(&key, g);
        table_insert(&mut self.tunnel_index, id, key);
        proof {
            let c1 = with_group(old(self)@, key@, g@);
            assert(self@ =~= (CoreModel { index: c1.index.insert(id, key@), ..c1 }));
        }
        self.add_tunnel_to_session(session_id, id);
    }

    /// What a new tunnel is registered as.
    fn new_info(
        &self,
        session_id: &u128,
        draw: Draw,
        protocol: TunnelProtocol,
        subdomain: Option<String>,
        port: Option<u16>,
    ) -> (r: TunnelInfo)
        ensures
            r@ == new_tunnel(self@, *session_id, draw, protocol, opt_text(subdomain), port),
    {
        TunnelInfo {
            session_id: *session_id,
            tunnel_id: draw.tunnel_id,
            protocol,
            subdomain,
            assigned_port: port,
            created_at: draw.created_at,
            request_count: 0,
            bytes_proxied: 0,
            max_connections: self.max_connections_per_tunnel,
        }
    }

    /// Registers an HTTP or HTTPS tunnel with an id, a generated label and clock readings
    /// that the caller supplies. See [`TunnelCore::register_http_tunnel`].
    pub fn register_http_tunnel_with(
        &mut self,
        session_id: &u128,
        subdomain: Option<String>,
        protocol: TunnelProtocol,
        group: Option<GroupSpec>,
        draw: Draw,
    ) -> (r: Result<(u128, String), Error>)
        ensures
            http_registered(
                old(self)@,
                final(self)@,
                *session_id,
                opt_text(subdomain),
                protocol,
                opt_group(group),
                draw,
                registered(r),
            ),
    {
        let ghost c = self@;
        let ghost sub = opt_text(subdomain);
        let ghost asked = opt_group(group);
        let ghost any = some_protocol(c, http_label(sub, draw));
        proof {
            lemma_some_protocol(c, http_label(sub, draw));
        }
        match self.check_session_limit(session_id) {
            Err(e) => {
                assert(http_outcome(c, self@, *session_id, sub, protocol, asked, draw, any, Err(e@)));
                return Err(e);
            },
            Ok(()) => {},
        }
        let label: String = match subdomain {
            Some(s) => {
                match validate_subdomain(s.as_str()) {
                    Err(e) => {
                        assert(http_outcome(
                            c,
                            self@,
                            *session_id,
                            sub,
                            protocol,
                            asked,
                            draw,
                            any,
                            Err(e@),
                        ));
                        return Err(e);
                    },
                    Ok(()) => {},
                }
                s
            },
            None => label_of(draw.label_id),
        };
        assert(label@ == http_label(sub, draw));
        let info: TunnelInfo = self.new_info(session_id, draw, protocol, Some(label.clone()), None);
        let verdict: Option<Result<(), Error>> = table_view(
            &self.http_routes,
            &label,
            |g: &TunnelGroup| -> (v: Result<(), Error>) ensures admitted(g@, label@, protocol, opt_group(group), v) { g.admits(label.as_str(), protocol, &group) },
        );
        let key = TunnelKey::Http(label.clone());
        match verdict {
            Some(Err(e)) => {
                proof {
                    let existing = choose|existing: Option<TunnelProtocol>| #[trigger]
                        is_member_protocol(c.http[label@], existing) && Some(e@) == join_error(
                            c.http[label@],
                            label@,
                            protocol,
                            asked,
                            existing,
                        );
                    assert(http_outcome(
                        c,
                        self@,
                        *session_id,
                        sub,
                        protocol,
                        asked,
                        draw,
                        existing,
                        Err(e@),
                    ));
                }
                return Err(e);
            },
            Some(Ok(())) => {
                match (self.take_group(&key), group) {
                    (Some(found), Some(spec_)) => {
                        let mut g: TunnelGroup = found;
                        g.join(GroupMember::with_health_spec(info, spec_.health_check, draw.at));
                        self.route(session_id, draw.tunnel_id, key, g);
                        proof {
                            let existing = choose|existing: Option<TunnelProtocol>| #[trigger]
                                is_member_protocol(c.http[label@], existing) && join_error(
                                    c.http[label@],
                                    label@,
                                    protocol,
                                    asked,
                                    existing,
                                ) is None;
                            let mid = without_group(c, key@);
                            assert(routed(mid, *session_id, draw.tunnel_id, key@, g@) =~= routed(
                                c,
                                *session_id,
                                draw.tunnel_id,
                                key@,
                                g@,
                            ));
                            assert(http_outcome(
                                c,
                                self@,
                                *session_id,
                                sub,
                                protocol,
                                asked,
                                draw,
                                existing,
                                Ok((draw.tunnel_id, label@)),
                            ));
                        }
                    },
                    _ => {
                        assert(false);
                    },
                }
            },
            None => {
                let g: TunnelGroup = match group {
                    None => TunnelGroup::new_solo(label.clone(), info),
                    Some(spec_) => TunnelGroup::new_with_member(
                        spec_.group_name,
                        Some(spec_.key_hash),
                        GroupMember::with_health_spec(info, spec_.health_check, draw.at),
                    ),
                };
                self.route(session_id, draw.tunnel_id, key, g);
                assert(http_outcome(
                    c,
                    self@,
                    *session_id,
                    sub,
                    protocol,
                    asked,
                    draw,
                    any,
                    Ok((draw.tunnel_id, label@)),
                ));
            },
        }
        Ok((draw.tunnel_id, label))
    }

    /// Registers an HTTP or HTTPS tunnel for a session.
    ///
    /// Without a subdomain, an eight-digit hexadecimal label is made up. A subdomain that
    /// nobody serves is taken: by this tunnel alone, or, with `group`, by a pool that it
    /// opens. A subdomain in use can only be joined, by one that shows the pool's key and has
    /// the protocol of its members. Returns the tunnel's id and its subdomain.
    pub fn register_http_tunnel(
        &mut self,
        session_id: &u128,
        subdomain: Option<String>,
        protocol: TunnelProtocol,
        group: Option<GroupSpec>,
    ) -> (r: Result<(u128, String), Error>)
        ensures
            exists|draw: Draw|
                is_random_draw(draw) && #[trigger] http_registered(
                    old(self)@,
                    final(self)@,
                    *session_id,
                    opt_text(subdomain),
                    protocol,
                    opt_group(group),
                    draw,
                    registered(r),
                ),
    {
        let draw: Draw = self.draw();
        self.register_http_tunnel_with(session_id, subdomain, protocol, group, draw)
    }

    /// Opens a route on the free TCP port that is handed out next.
    fn open_tcp(&mut self, session_id: &u128, group: Option<GroupSpec>, draw: Draw) -> (r: Result<
        (u128, u16),
        Error,
    >)
        ensures
            match registered_port(r) {
                Ok((id, port)) => old(self)@.tcp_ports.len() > 0 && id == draw.tunnel_id && port
                    == old(self)@.tcp_ports.last() && final(self)@ == tcp_opened(
                    old(self)@,
                    *session_id,
                    opt_group(group),
                    draw,
                ),
                Err(e) => old(self)@.tcp_ports.len() == 0 && e is NoPortsAvailable && final(self)@
                    == old(self)@,
            },
    {
        let ghost c = self@;
        let port: u16 = match self.available_tcp_ports.pop() {
            Some(p) => p,
            None => {
                assert(self@ =~= c);
                return Err(Error::NoPortsAvailable);
            },
        };
        let info: TunnelInfo = self.new_info(
            session_id,
            draw,
            TunnelProtocol::Tcp,
            None,
            Some(port),
        );
        let g: TunnelGroup = match group {
            None => TunnelGroup::new_solo(decimal_text(port as u64), info),
            Some(spec_) => {
                table_insert(
                    &mut self.tcp_group_index,
                    (spec_.group_name.clone(), spec_.key_hash.clone()),
                    port,
                );
                TunnelGroup::new_with_member(
                    spec_.group_name,
                    Some(spec_.key_hash),
                    GroupMember::with_health_spec(info, spec_.health_check, draw.at),
                )
            },
        };
        self.route(session_id, draw.tunnel_id, TunnelKey::Tcp(port), g);
        self.tcp_events.push(TcpTunnelEvent::Registered { tunnel_id: draw.tunnel_id, port });
        assert(self@ =~= tcp_opened(c, *session_id, opt_group(group), draw));
        Ok((draw.tunnel_id, port))
    }

    /// Registers a TCP tunnel with an id and clock readings that the caller supplies.
    /// See [`TunnelCore::register_tcp_tunnel`].
    pub fn register_tcp_tunnel_with(
        &mut self,
        session_id: &u128,
        group: Option<GroupSpec>,
        draw: Draw,
    ) -> (r: Result<(u128, u16), Error>)
        ensures
            tcp_registered(
                old(self)@,
                final(self)@,
                *session_id,
                opt_group(group),
                draw,
                registered_port(r),
            ),
    {
        let ghost c = self@;
        match self.check_session_limit(session_id) {
            Err(e) => {
                return Err(e);
            },
            Ok(()) => {},
        }
        let spec_: GroupSpec = match group {
            Some(g) => g,
            None => {
                return self.open_tcp(session_id, None, draw);
            },
        };
        let pool: (String, String) = (spec_.group_name.clone(), spec_.key_hash.clone());
        let found: Option<u16> = table_view(
            &self.tcp_group_index,
            &pool,
            |p: &u16| -> (x: u16) ensures x == p@ { *p },
        );
        let port: u16 = match found {
            Some(p) => p,
            None => {
                return self.open_tcp(session_id, Some(spec_), draw);
            },
        };
        let info: TunnelInfo = self.new_info(
            session_id,
            draw,
            TunnelProtocol::Tcp,
            None,
            Some(port),
        );
        let key = TunnelKey::Tcp(port);
        match self.take_group(&key) {
            None => {
                assert(self@ =~= c);
                Err(
                    Error::Tunnel(
                        join3(
                            "TCP group index points to missing port ",
                            decimal_text(port as u64).as_str(),
                            "; please retry",
                        ),
                    ),
                )
            },
            Some(existing) => {
                let mut g: TunnelGroup = existing;
                g.join(GroupMember::with_health_spec(info, spec_.health_check, draw.at));
                self.route(session_id, draw.tunnel_id, key, g);
                assert(self@ =~= routed(c, *session_id, draw.tunnel_id, key@, g@));
                Ok((draw.tunnel_id, port))
            },
        }
    }

    /// Registers a TCP tunnel for a session.
    ///
    /// A lone tunnel, or the first of a pool, takes a free port; later members of the pool,
    /// known by its name and key hash, share that port. Returns the tunnel's id and its port.
    pub fn register_tcp_tunnel(&mut self, session_id: &u128, group: Option<GroupSpec>) -> (r:
        Result<(u128, u16), Error>)
        ensures
            exists|draw: Draw|
                is_random_draw(draw) && #[trigger] tcp_registered(
                    old(self)@,
                    final(self)@,
                    *session_id,
                    opt_group(group),
                    draw,
                    registered_port(r),
                ),
    {
        let draw: Draw = self.draw();
        self.register_tcp_tunnel_with(session_id, group, draw)
    }

    /// Registers a UDP tunnel with an id and clock readings that the caller supplies.
    /// See [`TunnelCore::register_udp_tunnel`].
    pub fn register_udp_tunnel_with(&mut self, session_id: &u128, draw: Draw) -> (r: Result<
        (u128, u16),
        Error,
    >)
        ensures
            udp_registered(old(self)@, final(self)@, *session_id, draw, registered_port(r)),
    {
        let ghost c = self@;
        match self.check_session_limit(session_id) {
            Err(e) => {
                return Err(e);
            },
            Ok(()) => {},
        }
        let port: u16 = match self.available_udp_ports.pop() {
            Some(p) => p,
            None => {
                assert(self@ =~= c);
                return Err(Error::NoPortsAvailable);
            },
        };
        let info: TunnelInfo = self.new_info(
            session_id,
            draw,
            TunnelProtocol::Udp,
            None,
            Some(port),
        );
        let g: TunnelGroup = TunnelGroup::new_solo(decimal_text(port as u64), info);
        self.route(session_id, draw.tunnel_id, TunnelKey::Udp(port), g);
        self.udp_events.push(UdpTunnelEvent::Registered { tunnel_id: draw.tunnel_id, port });
        proof {
            let want = udp_registration(c, *session_id, draw);
            assert(self@ =~= (want->Ok_0).0);
        }
        Ok((draw.tunnel_id, port))
    }

    /// Registers a UDP tunnel for a session, on a free port. Returns the tunnel's id and its
    /// port.
    pub fn register_udp_tunnel(&mut self, session_id: &u128) -> (r: Result<(u128, u16), Error>)
        ensures
            exists|draw: Draw|
                is_random_draw(draw) && #[trigger] udp_registered(
                    old(self)@,
                    final(self)@,
                    *session_id,
                    draw,
                    registered_port(r),
                ),
    {
        let draw: Draw = self.draw();
        self.register_udp_tunnel_with(session_id, draw)
    }

    /// Registers a peer-to-peer publisher with an id and clock readings that the caller
    /// supplies. See [`TunnelCore::register_p2p_tunnel`].
    pub fn register_p2p_tunnel_with(
        &mut self,
        session_id: &u128,
        name: String,
        secret_hash: String,
        draw: Draw,
    ) -> (r: Result<(u128, String), Error>)
        ensures
            p2p_registered(
                old(self)@,
                final(self)@,
                *session_id,
                name@,
                secret_hash@,
                draw,
                registered(r),
            ),
    {
        let ghost c = self@;
        match self.check_session_limit(session_id) {
            Err(e) => {
                return Err(e);
            },
            Ok(()) => {},
        }
        if table_contains(&self.p2p_tunnels, &name) {
            return Err(
                Error::Tunnel(join3("P2P tunnel name '", name.as_str(), "' is already in use")),
            );
        }
        let info: TunnelInfo = self.new_info(session_id, draw, TunnelProtocol::P2p, None, None);
        let publisher = P2pPublisher {
            tunnel_info: info,
            secret_hash,
            name: name.clone(),
            nat_type: None,
            mapped_addrs: Vec::new(),
        };
        assert(publisher@.mapped_addrs =~= Seq::<Seq<char>>::empty());
        table_insert(&mut self.p2p_tunnels, name.clone(), publisher);
        table_insert(&mut self.tunnel_index, draw.tunnel_id, TunnelKey::P2p(name.clone()));
        self.add_tunnel_to_session(session_id, draw.tunnel_id);
        proof {
            let want = p2p_registration(c, *session_id, name@, secret_hash@, draw);
            assert(self@ =~= want->Ok_0);
        }
        Ok((draw.tunnel_id, name))
    }

    /// Registers a peer-to-peer publisher under a name that nobody has yet. Returns the
    /// tunnel's id and the name.
    pub fn register_p2p_tunnel(
        &mut self,
        session_id: &u128,
        name: String,
        secret_hash: String,
    ) -> (r: Result<(u128, String), Error>)
        ensures
            exists|draw: Draw|
                is_random_draw(draw) && #[trigger] p2p_registered(
                    old(self)@,
                    final(self)@,
                    *session_id,
                    name@,
                    secret_hash@,
                    draw,
                    registered(r),
                ),
    {
        let draw: Draw = self.draw();
        self.register_p2p_tunnel_with(session_id, name, secret_hash, draw)
    }
}

/// What registering a TCP tunnel does.
pub open spec fn tcp_registered(
    before: CoreModel,
    after: CoreModel,
    session_id: u128,
    group: Option<GroupSpecModel>,
    draw: Draw,
    r: Result<(u128, u16), ErrorModel>,
) -> bool {
    match tcp_registration(before, session_id, group, draw) {
        Ok((c, port)) => after == c && r == Ok::<_, ErrorModel>((draw.tunnel_id, port)),
        Err(e) => after == before && r == Err::<(u128, u16), _>(e),
    }
}

/// What registering a UDP tunnel does.
pub open spec fn udp_registered(
    before: CoreModel,
    after: CoreModel,
    session_id: u128,
    draw: Draw,
    r: Result<(u128, u16), ErrorModel>,
) -> bool {
    match udp_registration(before, session_id, draw) {
        Ok((c, port)) => after == c && r == Ok::<_, ErrorModel>((draw.tunnel_id, port)),
        Err(e) => after == before && r == Err::<(u128, u16), _>(e),
    }
}

/// What registering a peer-to-peer publisher does.
pub open spec fn p2p_registered(
    before: CoreModel,
    after: CoreModel,
    session_id: u128,
    name: Seq<char>,
    secret_hash: Seq<char>,
    draw: Draw,
    r: Result<(u128, Seq<char>), ErrorModel>,
) -> bool {
    match p2p_registration(before, session_id, name, secret_hash, draw) {
        Ok(c) => after == c && r == Ok::<_, ErrorModel>((draw.tunnel_id, name)),
        Err(e) => after == before && r == Err::<(u128, Seq<char>), _>(e),
    }
}

/// The protocol of some member of the group that serves a subdomain.
spec fn some_protocol(c: CoreModel, label: Seq<char>) -> Option<TunnelProtocol> {
    if c.http.contains_key(label) && exists|id: u128| #[trigger] c.http[label].members.contains_key(id) {
        let id = choose|id: u128| #[trigger] c.http[label].members.contains_key(id);
        Some(c.http[label].members[id].info.protocol)
    } else {
        None
    }
}

/// Every group has a protocol, or no members.
proof fn lemma_some_protocol(c: CoreModel, label: Seq<char>)
    ensures
        c.http.contains_key(label) ==> is_member_protocol(
            c.http[label],
            some_protocol(c, label),
        ),
{
    if c.http.contains_key(label) && !(exists|id: u128| #[trigger]
        c.http[label].members.contains_key(id)) {
        assert(c.http[label].members.dom() =~= Set::empty());
    }
}

/// What [`TunnelGroup::admits`] may answer.
pub open spec fn admitted(
    g: GroupModel,
    label: Seq<char>,
    protocol: TunnelProtocol,
    group: Option<GroupSpecModel>,
    v: Result<(), Error>,
) -> bool {
    exists|existing: Option<TunnelProtocol>| #[trigger]
        is_member_protocol(g, existing) && (match v {
            Ok(()) => join_error(g, label, protocol, group, existing) is None,
            Err(e) => Some(e@) == join_error(g, label, protocol, group, existing),
        })
}

/// What registering an HTTP tunnel does, where `existing` is the protocol of some member of
/// the group that serves the subdomain, if one does.
pub open spec fn http_outcome(
    before: CoreModel,
    after: CoreModel,
    session_id: u128,
    subdomain: Option<Seq<char>>,
    protocol: TunnelProtocol,
    group: Option<GroupSpecModel>,
    draw: Draw,
    existing: Option<TunnelProtocol>,
    r: Result<(u128, Seq<char>), ErrorModel>,
) -> bool {
    let label = http_label(subdomain, draw);
    match http_registration(before, session_id, subdomain, protocol, group, draw, existing) {
        Ok(c) => after == c && r == Ok::<_, ErrorModel>((draw.tunnel_id, label)),
        Err(e) => after == before && r == Err::<(u128, Seq<char>), _>(e),
    }
}

/// What registering an HTTP tunnel does. A group is asked for the protocol of one member,
/// and which one is not fixed: all its members have the same.
pub open spec fn http_registered(
    before: CoreModel,
    after: CoreModel,
    session_id: u128,
    subdomain: Option<Seq<char>>,
    protocol: TunnelProtocol,
    group: Option<GroupSpecModel>,
    draw: Draw,
    r: Result<(u128, Seq<char>), ErrorModel>,
) -> bool {
    let label = http_label(subdomain, draw);
    exists|existing: Option<TunnelProtocol>|
        (before.http.contains_key(label) ==> is_member_protocol(before.http[label], existing))
            && #[trigger] http_outcome(
            before,
            after,
            session_id,
            subdomain,
            protocol,
            group,
            draw,
            existing,
            r,
        )
}

} // verus!
