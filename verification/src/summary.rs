//! What the dashboard shows of tunnels and groups.
use crate::clock::{instant_to_iso, iso_of_instant, unix_nanos, Clock};
use crate::group::{healthy_ids, GroupModel, TunnelGroup};
use crate::ids::{uuid_form, uuid_text};
use crate::protocol::HealthCheckKind;
use crate::router::{P2pPublisher, TunnelCore, TunnelKey};
use crate::router_laws::{is_member, member_at};
use crate::router_model::{group_at, CoreModel, KeyModel, PublisherModel};
use crate::scope::{
    has_route, in_order, info_at, key_views, lemma_pushed, lists_routes, lists_seen, lists_visible,
    rank, route_views, seen_at, sees_tunnel, serves, visible_tunnels, AuthScope, ScopeModel,
};
use crate::session_info::SessionInfo;
use crate::table::table_view;
use crate::text::{
    decimal, decimal_text, opt_text, opt_text_clone, prefix, take_chars, texts, texts_clone,
};
use crate::tunnel::{GroupMember, MemberModel, TunnelInfo};
use vstd::prelude::*;
use vstd::string::*;

verus! {

// ── a tunnel ─────────────────────────────────────────────────────────────────

/// Which pool a tunnel belongs to.
#[derive(Debug)]
pub struct GroupRef {
    /// The name that the client gave the pool.
    pub name: String,
    /// The first eight characters of the hash of the pool's key.
    pub key_hash_short: String,
    pub member_count: usize,
    pub healthy_count: usize,
}

/// The view of a [`GroupRef`].
#[verifier::ext_equal]
pub struct GroupRefModel {
    pub name: Seq<char>,
    pub key_hash_short: Seq<char>,
    pub member_count: nat,
    pub healthy_count: nat,
}

impl View for GroupRef {
    type V = GroupRefModel;

    open spec fn view(&self) -> GroupRefModel {
        GroupRefModel {
            name: self.name@,
            key_hash_short: self.key_hash_short@,
            member_count: self.member_count as nat,
            healthy_count: self.healthy_count as nat,
        }
    }
}

/// The view of an optional [`GroupRef`].
pub open spec fn opt_ref(r: Option<GroupRef>) -> Option<GroupRefModel> {
    match r {
        Some(g) => Some(g@),
        None => None,
    }
}

/// Which pool a group is; a group without a key is none.
pub open spec fn group_ref(g: GroupModel) -> Option<GroupRefModel> {
    match g.key_hash {
        Some(hash) => Some(
            GroupRefModel {
                name: g.name,
                key_hash_short: prefix(hash, 8),
                member_count: g.members.dom().len(),
                healthy_count: healthy_ids(g).len(),
            },
        ),
        None => None,
    }
}

/// Which pool a group is; a group without a key is none.
pub fn group_summary_ref(group: &TunnelGroup) -> (r: Option<GroupRef>)
    ensures
        opt_ref(r) == group_ref(group@),
{
    match &group.key_hash {
        Some(hash) => Some(
            GroupRef {
                name: group.name.clone(),
                key_hash_short: take_chars(hash.as_str(), 8),
                member_count: group.member_count(),
                healthy_count: group.healthy_count(),
            },
        ),
        None => None,
    }
}

/// A row of the list of tunnels.
#[derive(Debug)]
pub struct TunnelSummary {
    pub tunnel_id: String,
    /// `http`, `tcp`, `udp` or `p2p`.
    pub protocol: String,
    /// The subdomain, the port, or the peer-to-peer name.
    pub label: String,
    pub public_url: String,
    pub connected_since: String,
    pub request_count: u64,
    pub bytes_proxied: u64,
    /// Where the owner connects from; empty where the owner is gone.
    pub client_addr: String,
    pub region_id: String,
    /// Peer-to-peer tunnels only.
    pub nat_type: Option<String>,
    /// Peer-to-peer tunnels only.
    pub mapped_addrs: Option<Vec<String>>,
    pub group: Option<GroupRef>,
    pub healthy: bool,
    pub consecutive_failures: u32,
    pub total_health_failures: u64,
}

/// The view of a [`TunnelSummary`].
#[verifier::ext_equal]
pub struct SummaryModel {
    pub tunnel_id: Seq<char>,
    pub protocol: Seq<char>,
    pub label: Seq<char>,
    pub public_url: Seq<char>,
    pub connected_since: Seq<char>,
    pub request_count: u64,
    pub bytes_proxied: u64,
    pub client_addr: Seq<char>,
    pub region_id: Seq<char>,
    pub nat_type: Option<Seq<char>>,
    pub mapped_addrs: Option<Seq<Seq<char>>>,
    pub group: Option<GroupRefModel>,
    pub healthy: bool,
    pub consecutive_failures: u32,
    pub total_health_failures: u64,
}

/// The view of an optional list of texts.
pub open spec fn opt_texts(list: Option<Vec<String>>) -> Option<Seq<Seq<char>>> {
    match list {
        Some(l) => Some(texts(l@)),
        None => None,
    }
}

impl View for TunnelSummary {
    type V = SummaryModel;

    open spec fn view(&self) -> SummaryModel {
        SummaryModel {
            tunnel_id: self.tunnel_id@,
            protocol: self.protocol@,
            label: self.label@,
            public_url: self.public_url@,
            connected_since: self.connected_since@,
            request_count: self.request_count,
            bytes_proxied: self.bytes_proxied,
            client_addr: self.client_addr@,
            region_id: self.region_id@,
            nat_type: opt_text(self.nat_type),
            mapped_addrs: opt_texts(self.mapped_addrs),
            group: opt_ref(self.group),
            healthy: self.healthy,
            consecutive_failures: self.consecutive_failures,
            total_health_failures: self.total_health_failures,
        }
    }
}

/// The views of a list of rows, in order.
pub open spec fn summaries(list: Seq<TunnelSummary>) -> Seq<SummaryModel> {
    list.map_values(|s: TunnelSummary| s@)
}

/// Where a session connects from; empty where the session is gone.
pub open spec fn session_addr(c: CoreModel, session_id: u128) -> Seq<char> {
    if c.sessions.contains_key(session_id) {
        c.sessions[session_id].client_addr
    } else {
        ""@
    }
}

/// The name of a route's protocol, as the dashboard shows it.
pub open spec fn shown_protocol(key: KeyModel) -> Seq<char> {
    match key {
        KeyModel::Http(_) => "http"@,
        KeyModel::Tcp(_) => "tcp"@,
        KeyModel::Udp(_) => "udp"@,
        KeyModel::P2p(_) => "p2p"@,
    }
}

/// The label of a route, as the dashboard shows it.
pub open spec fn shown_label(key: KeyModel) -> Seq<char> {
    match key {
        KeyModel::Http(s) => s,
        KeyModel::Tcp(p) => decimal(p as nat),
        KeyModel::Udp(p) => decimal(p as nat),
        KeyModel::P2p(s) => s,
    }
}

/// The address of a route, as the dashboard shows it.
pub open spec fn shown_url(key: KeyModel) -> Seq<char> {
    match key {
        KeyModel::Http(s) => "https://"@ + s,
        KeyModel::Tcp(p) => "tcp://:"@ + decimal(p as nat),
        KeyModel::Udp(p) => "udp://:"@ + decimal(p as nat),
        KeyModel::P2p(s) => "p2p://"@ + s,
    }
}

/// The row of the tunnel `id` that is served at a key.
pub open spec fn summary_at(
    c: CoreModel,
    key: KeyModel,
    id: u128,
    region_id: Seq<char>,
    now: Clock,
) -> SummaryModel {
    let info = info_at(c, key, id);
    SummaryModel {
        tunnel_id: uuid_form(info.tunnel_id),
        protocol: shown_protocol(key),
        label: match key {
            KeyModel::P2p(name) => c.p2p[name].name,
            _ => shown_label(key),
        },
        public_url: match key {
            KeyModel::P2p(name) => "p2p://"@ + c.p2p[name].name,
            _ => shown_url(key),
        },
        connected_since: iso_of_instant(info.created_at, now),
        request_count: info.request_count,
        bytes_proxied: info.bytes_proxied,
        client_addr: session_addr(c, info.session_id),
        region_id,
        nat_type: match key {
            KeyModel::P2p(name) => c.p2p[name].nat_type,
            _ => None,
        },
        mapped_addrs: match key {
            KeyModel::P2p(name) => shown_addrs(c.p2p[name]),
            _ => None,
        },
        group: match key {
            KeyModel::P2p(_) => None,
            _ => group_ref(group_at(c, key)->0),
        },
        healthy: match key {
            KeyModel::P2p(_) => true,
            _ => member_at(c, key, id).healthy,
        },
        consecutive_failures: match key {
            KeyModel::P2p(_) => 0,
            _ => member_at(c, key, id).consecutive_failures,
        },
        total_health_failures: match key {
            KeyModel::P2p(_) => 0,
            _ => member_at(c, key, id).total_health_failures,
        },
    }
}

/// The addresses under which the outside sees a publisher, if it has told any.
pub open spec fn shown_addrs(p: PublisherModel) -> Option<Seq<Seq<char>>> {
    if p.mapped_addrs.len() == 0 {
        None
    } else {
        Some(p.mapped_addrs)
    }
}

impl TunnelKey {
    /// The name of the route's protocol, as the dashboard shows it.
    fn shown_protocol(&self) -> (r: String)
        ensures
            r@ == shown_protocol(self@),
    {
        match self {
            TunnelKey::Http(_) => "http".to_owned(),
            TunnelKey::Tcp(_) => "tcp".to_owned(),
            TunnelKey::Udp(_) => "udp".to_owned(),
            TunnelKey::P2p(_) => "p2p".to_owned(),
        }
    }

    /// The address of the route, as the dashboard shows it.
    fn shown_url(&self) -> (r: String)
        ensures
            r@ == shown_url(self@),
    {
        match self {
            TunnelKey::Http(s) => "https://".to_owned().concat(s.as_str()),
            TunnelKey::Tcp(p) => "tcp://:".to_owned().concat(decimal_text(*p as u64).as_str()),
            TunnelKey::Udp(p) => "udp://:".to_owned().concat(decimal_text(*p as u64).as_str()),
            TunnelKey::P2p(s) => "p2p://".to_owned().concat(s.as_str()),
        }
    }
}

/// Where a session connects from; empty where the session is gone.
fn client_addr(core: &TunnelCore, session_id: &u128) -> (r: String)
    ensures
        r@ == session_addr(core@, *session_id),
{
    let found: Option<String> = table_view(
        &core.sessions,
        session_id,
        |s: &SessionInfo| -> (x: String) ensures x@ == s@.client_addr { s.client_addr.clone() },
    );
    match found {
        Some(addr) => addr,
        None => "".to_owned(),
    }
}

/// What a row takes from a member, apart from its route.
#[derive(Debug)]
pub struct MemberFacts {
    pub info: TunnelInfo,
    pub healthy: bool,
    pub consecutive_failures: u32,
    pub total_health_failures: u64,
    /// The kind of its health check, if it has one.
    pub health_check_kind: Option<HealthCheckKind>,
    /// Whether its tenant wants to hear when the group is down.
    pub has_alert_webhook: bool,
}

/// `f` is what a row takes from the member `m`.
pub open spec fn facts_of(f: MemberFacts, m: MemberModel) -> bool {
    &&& f.info@ == m.info
    &&& f.healthy == m.healthy
    &&& f.consecutive_failures == m.consecutive_failures
    &&& f.total_health_failures == m.total_health_failures
    &&& f.health_check_kind == check_kind(m)
    &&& f.has_alert_webhook == has_webhook(m)
}

/// The kind of a member's health check.
pub open spec fn check_kind(m: MemberModel) -> Option<HealthCheckKind> {
    match m.health_spec {
        Some(h) => Some(h.kind),
        None => None,
    }
}

/// Whether a member's tenant wants to hear when the group is down.
pub open spec fn has_webhook(m: MemberModel) -> bool {
    match m.health_spec {
        Some(h) => h.alert_webhook_url is Some,
        None => false,
    }
}

impl GroupMember {
    /// What a row takes from the member.
    fn facts(&self) -> (r: MemberFacts)
        ensures
            facts_of(r, self@),
    {
        MemberFacts {
            info: self.info.clone(),
            healthy: self.healthy,
            consecutive_failures: self.consecutive_failures,
            total_health_failures: self.total_health_failures,
            health_check_kind: match &self.health_spec {
                Some(h) => Some(h.kind),
                None => None,
            },
            has_alert_webhook: match &self.health_spec {
                Some(h) => h.alert_webhook_url.is_some(),
                None => false,
            },
        }
    }
}

/// `x` is what rows take from the member `id` of `g`, with what they say of the group.
pub open spec fn member_row(g: GroupModel, id: u128, x: Option<(MemberFacts, Option<GroupRef>)>) -> bool {
    &&& x is Some <==> g.members.contains_key(id)
    &&& x is Some ==> facts_of((x->0).0, g.members[id]) && opt_ref((x->0).1) == group_ref(g)
}

impl TunnelGroup {
    /// What a row takes from the member `id`.
    fn member_facts(&self, id: &u128) -> (r: Option<(MemberFacts, Option<GroupRef>)>)
        ensures
            member_row(self@, *id, r),
    {
        let facts: Option<MemberFacts> = table_view(
            &self.members,
            id,
            |m: &GroupMember| -> (x: MemberFacts) ensures facts_of(x, m@) { m.facts() },
        );
        match facts {
            Some(f) => Some((f, group_summary_ref(self))),
            None => None,
        }
    }
}

/// What rows take from the member `id` of the group at a key.
fn facts_at(core: &TunnelCore, key: &TunnelKey, id: &u128) -> (r: Option<
    (MemberFacts, Option<GroupRef>),
>)
    requires
        !(key@ is P2p),
    ensures
        r is Some <==> is_member(core@, key@, *id),
        r is Some ==> member_row(group_at(core@, key@)->0, *id, r),
{
    let found: Option<Option<(MemberFacts, Option<GroupRef>)>> = match key {
        TunnelKey::Http(s) => table_view(
            &core.http_routes,
            s,
            |g: &TunnelGroup| -> (x: Option<(MemberFacts, Option<GroupRef>)>) ensures member_row(g@, *id, x) { g.member_facts(id) },
        ),
        TunnelKey::Tcp(p) => table_view(
            &core.tcp_routes,
            p,
            |g: &TunnelGroup| -> (x: Option<(MemberFacts, Option<GroupRef>)>) ensures member_row(g@, *id, x) { g.member_facts(id) },
        ),
        TunnelKey::Udp(p) => table_view(
            &core.udp_routes,
            p,
            |g: &TunnelGroup| -> (x: Option<(MemberFacts, Option<GroupRef>)>) ensures member_row(g@, *id, x) { g.member_facts(id) },
        ),
        TunnelKey::P2p(_) => None,
    };
    match found {
        Some(r) => r,
        None => None,
    }
}

/// The row of a group's member.
fn member_to_summary(
    core: &TunnelCore,
    facts: MemberFacts,
    key: &TunnelKey,
    region_id: &str,
    group: Option<GroupRef>,
    now: Clock,
) -> (r: TunnelSummary)
    ensures
        r@ == (SummaryModel {
            tunnel_id: uuid_form(facts.info.tunnel_id),
            protocol: shown_protocol(key@),
            label: shown_label(key@),
            public_url: shown_url(key@),
            connected_since: iso_of_instant(facts.info.created_at, now),
            request_count: facts.info.request_count,
            bytes_proxied: facts.info.bytes_proxied,
            client_addr: session_addr(core@, facts.info.session_id),
            region_id: region_id@,
            nat_type: None,
            mapped_addrs: None,
            group: opt_ref(group),
            healthy: facts.healthy,
            consecutive_failures: facts.consecutive_failures,
            total_health_failures: facts.total_health_failures,
        }),
{
    TunnelSummary {
        tunnel_id: uuid_text(facts.info.tunnel_id),
        protocol: key.shown_protocol(),
        label: key.label(),
        public_url: key.shown_url(),
        connected_since: instant_to_iso(facts.info.created_at, now),
        request_count: facts.info.request_count,
        bytes_proxied: facts.info.bytes_proxied,
        client_addr: client_addr(core, &facts.info.session_id),
        region_id: region_id.to_owned(),
        nat_type: None,
        mapped_addrs: None,
        group,
        healthy: facts.healthy,
        consecutive_failures: facts.consecutive_failures,
        total_health_failures: facts.total_health_failures,
    }
}

/// A publisher, by its name.
pub(crate) fn publisher(core: &TunnelCore, name: &String) -> (r: Option<P2pPublisher>)
    ensures
        r is Some <==> core@.p2p.contains_key(name@),
        r matches Some(p) ==> p@ == core@.p2p[name@],
{
    table_view(
        &core.p2p_tunnels,
        name,
        |p: &P2pPublisher| -> (x: P2pPublisher) ensures x@ == p@ { p.clone() },
    )
}

/// The addresses under which the outside sees a publisher, if it has told any.
pub(crate) fn mapped_addrs_of(p: &P2pPublisher) -> (r: Option<Vec<String>>)
    ensures
        opt_texts(r) == shown_addrs(p@),
{
    if p.mapped_addrs.len() == 0 {
        None
    } else {
        Some(texts_clone(&p.mapped_addrs))
    }
}

/// The row of a publisher.
fn publisher_to_summary(core: &TunnelCore, p: &P2pPublisher, region_id: &str, now: Clock) -> (r:
    TunnelSummary)
    ensures
        r@ == (SummaryModel {
            tunnel_id: uuid_form(p@.tunnel_info.tunnel_id),
            protocol: "p2p"@,
            label: p@.name,
            public_url: "p2p://"@ + p@.name,
            connected_since: iso_of_instant(p@.tunnel_info.created_at, now),
            request_count: p@.tunnel_info.request_count,
            bytes_proxied: p@.tunnel_info.bytes_proxied,
            client_addr: session_addr(core@, p@.tunnel_info.session_id),
            region_id: region_id@,
            nat_type: p@.nat_type,
            mapped_addrs: shown_addrs(p@),
            group: None,
            healthy: true,
            consecutive_failures: 0,
            total_health_failures: 0,
        }),
{
    TunnelSummary {
        tunnel_id: uuid_text(p.tunnel_info.tunnel_id),
        protocol: "p2p".to_owned(),
        label: p.name.clone(),
        public_url: "p2p://".to_owned().concat(p.name.as_str()),
        connected_since: instant_to_iso(p.tunnel_info.created_at, now),
        request_count: p.tunnel_info.request_count,
        bytes_proxied: p.tunnel_info.bytes_proxied,
        client_addr: client_addr(core, &p.tunnel_info.session_id),
        region_id: region_id.to_owned(),
        nat_type: opt_text_clone(&p.nat_type),
        mapped_addrs: mapped_addrs_of(p),
        group: None,
        healthy: true,
        consecutive_failures: 0,
        total_health_failures: 0,
    }
}

/// The row of the tunnel `id`, if it is served at a key.
pub fn summarize(core: &TunnelCore, key: &TunnelKey, id: &u128, region_id: &str, now: Clock) -> (r:
    Option<TunnelSummary>)
    ensures
        r is Some <==> serves(core@, key@, *id),
        r matches Some(s) ==> s@ == summary_at(core@, key@, *id, region_id@, now),
{
    if let TunnelKey::P2p(name) = key {
        return match publisher(core, name) {
            Some(p) => {
                if p.tunnel_info.tunnel_id == *id {
                    Some(publisher_to_summary(core, &p, region_id, now))
                } else {
                    None
                }
            },
            None => None,
        };
    }
    match facts_at(core, key, id) {
        Some((facts, group)) => Some(member_to_summary(core, facts, key, region_id, group, now)),
        None => None,
    }
}

/// `rows` are the rows of the tunnels that a caller sees.
pub open spec fn lists_summaries(
    rows: Seq<SummaryModel>,
    c: CoreModel,
    scope: ScopeModel,
    region_id: Seq<char>,
    now: Clock,
) -> bool {
    exists|routes: Seq<(KeyModel, u128)>| #[trigger]
        lists_visible(routes, c, scope, 0, 3) && rows == rows_of(routes, c, region_id, now)
}

/// The rows of some tunnels, in order.
pub open spec fn rows_of(
    routes: Seq<(KeyModel, u128)>,
    c: CoreModel,
    region_id: Seq<char>,
    now: Clock,
) -> Seq<SummaryModel> {
    Seq::new(routes.len(), |i: int| summary_at(c, routes[i].0, routes[i].1, region_id, now))
}

/// The rows of the tunnels that a caller sees, on a clock reading that the caller supplies:
/// subdomains first, then TCP ports, UDP ports and peer-to-peer names.
pub fn list_tunnels_with(core: &TunnelCore, scope: &AuthScope, region_id: &str, now: Clock) -> (r:
    Vec<TunnelSummary>)
    ensures
        lists_summaries(summaries(r@), core@, scope@, region_id@, now),
{
    let routes: Vec<(TunnelKey, u128)> = visible_tunnels(core, scope);
    let ghost views = route_views(routes@);
    let mut out: Vec<TunnelSummary> = Vec::new();
    let mut i: usize = 0;
    while i < routes.len()
        invariant
            i <= routes@.len(),
            views == route_views(routes@),
            lists_visible(views, core@, scope@, 0, 3),
            out@.len() == i,
            forall|j: int|
                0 <= j < i ==> (#[trigger] out@[j])@ == summary_at(
                    core@,
                    views[j].0,
                    views[j].1,
                    region_id@,
                    now,
                ),
        decreases routes@.len() - i,
    {
        assert(views[i as int] == (routes@[i as int].0@, routes@[i as int].1));
        assert(views.contains((views[i as int].0, views[i as int].1)));
        if let Some(row) = summarize(core, &routes[i].0, &routes[i].1, region_id, now) {
            out.push(row);
        }
        i = i + 1;
    }
    assert(summaries(out@) =~= rows_of(views, core@, region_id@, now));
    out
}

impl TunnelCore {
    /// A reading of both clocks.
    pub(crate) fn clock(&self) -> Clock {
        Clock { mono: self.clock_nanos(), unix: unix_nanos() }
    }
}

/// The rows of the tunnels that a caller sees: subdomains first, then TCP ports, UDP ports and
/// peer-to-peer names.
pub fn list_tunnels(core: &TunnelCore, scope: &AuthScope, region_id: &str) -> (r: Vec<
    TunnelSummary,
>)
    ensures
        exists|now: Clock| lists_summaries(summaries(r@), core@, scope@, region_id@, now),
{
    let now: Clock = core.clock();
    list_tunnels_with(core, scope, region_id, now)
}

// ── a group ──────────────────────────────────────────────────────────────────

/// A member in the row of its group.
#[derive(Debug)]
pub struct GroupMemberSummary {
    pub tunnel_id: String,
    pub session_id: String,
    pub client_addr: String,
    pub request_count: u64,
    pub bytes_proxied: u64,
    pub healthy: bool,
    pub consecutive_failures: u32,
    pub total_health_failures: u64,
    pub connected_since: String,
    /// `tcp` or `http`, for members with a health check.
    pub health_check_kind: Option<String>,
    /// Whether the member's tenant wants to hear when the group is down. Where is not told.
    pub has_alert_webhook: bool,
}

/// The view of a [`GroupMemberSummary`].
#[verifier::ext_equal]
pub struct MemberSummaryModel {
    pub tunnel_id: Seq<char>,
    pub session_id: Seq<char>,
    pub client_addr: Seq<char>,
    pub request_count: u64,
    pub bytes_proxied: u64,
    pub healthy: bool,
    pub consecutive_failures: u32,
    pub total_health_failures: u64,
    pub connected_since: Seq<char>,
    pub health_check_kind: Option<Seq<char>>,
    pub has_alert_webhook: bool,
}

impl View for GroupMemberSummary {
    type V = MemberSummaryModel;

    open spec fn view(&self) -> MemberSummaryModel {
        MemberSummaryModel {
            tunnel_id: self.tunnel_id@,
            session_id: self.session_id@,
            client_addr: self.client_addr@,
            request_count: self.request_count,
            bytes_proxied: self.bytes_proxied,
            healthy: self.healthy,
            consecutive_failures: self.consecutive_failures,
            total_health_failures: self.total_health_failures,
            connected_since: self.connected_since@,
            health_check_kind: opt_text(self.health_check_kind),
            has_alert_webhook: self.has_alert_webhook,
        }
    }
}

/// The views of a list of members, in order.
pub open spec fn member_summaries(list: Seq<GroupMemberSummary>) -> Seq<MemberSummaryModel> {
    list.map_values(|m: GroupMemberSummary| m@)
}

/// A row of the list of groups.
#[derive(Debug)]
pub struct GroupSummary {
    /// `http` or `tcp`.
    pub protocol: String,
    /// The subdomain, or the port.
    pub label: String,
    pub name: String,
    /// The first eight characters of the hash of the pool's key.
    pub key_hash_short: String,
    pub region_id: String,
    pub member_count: usize,
    pub healthy_count: usize,
    pub unhealthy_count: usize,
    /// The requests of all members, modulo two to the power of 64.
    pub total_dispatches: u64,
    /// The bad reports of all members, modulo two to the power of 64.
    pub total_health_failures: u64,
    pub members: Vec<GroupMemberSummary>,
}

/// The view of a [`GroupSummary`].
#[verifier::ext_equal]
pub struct GroupSummaryModel {
    pub protocol: Seq<char>,
    pub label: Seq<char>,
    pub name: Seq<char>,
    pub key_hash_short: Seq<char>,
    pub region_id: Seq<char>,
    pub member_count: nat,
    pub healthy_count: nat,
    pub unhealthy_count: nat,
    pub total_dispatches: u64,
    pub total_health_failures: u64,
    pub members: Seq<MemberSummaryModel>,
}

impl View for GroupSummary {
    type V = GroupSummaryModel;

    open spec fn view(&self) -> GroupSummaryModel {
        GroupSummaryModel {
            protocol: self.protocol@,
            label: self.label@,
            name: self.name@,
            key_hash_short: self.key_hash_short@,
            region_id: self.region_id@,
            member_count: self.member_count as nat,
            healthy_count: self.healthy_count as nat,
            unhealthy_count: self.unhealthy_count as nat,
            total_dispatches: self.total_dispatches,
            total_health_failures: self.total_health_failures,
            members: member_summaries(self.members@),
        }
    }
}

/// The views of a list of groups, in order.
pub open spec fn group_summaries(list: Seq<GroupSummary>) -> Seq<GroupSummaryModel> {
    list.map_values(|g: GroupSummary| g@)
}

/// The name of a kind of health check.
pub open spec fn kind_name(kind: Option<HealthCheckKind>) -> Option<Seq<char>> {
    match kind {
        Some(HealthCheckKind::Tcp) => Some("tcp"@),
        Some(HealthCheckKind::Http) => Some("http"@),
        None => None,
    }
}

/// The entry of the member `id` of the group at a key.
pub open spec fn member_entry(c: CoreModel, key: KeyModel, id: u128, now: Clock) -> MemberSummaryModel {
    let m = member_at(c, key, id);
    MemberSummaryModel {
        tunnel_id: uuid_form(m.info.tunnel_id),
        session_id: uuid_form(m.info.session_id),
        client_addr: session_addr(c, m.info.session_id),
        request_count: m.info.request_count,
        bytes_proxied: m.info.bytes_proxied,
        healthy: m.healthy,
        consecutive_failures: m.consecutive_failures,
        total_health_failures: m.total_health_failures,
        connected_since: iso_of_instant(m.info.created_at, now),
        health_check_kind: kind_name(check_kind(m)),
        has_alert_webhook: has_webhook(m),
    }
}

/// The entries of some members of the group at a key, in order.
pub open spec fn member_entries(c: CoreModel, key: KeyModel, ids: Seq<u128>, now: Clock) -> Seq<
    MemberSummaryModel,
> {
    Seq::new(ids.len(), |i: int| member_entry(c, key, ids[i], now))
}

/// How many of some members are healthy, or are not.
pub open spec fn count_health(c: CoreModel, key: KeyModel, ids: Seq<u128>, healthy: bool) -> nat
    decreases ids.len(),
{
    if ids.len() == 0 {
        0
    } else {
        count_health(c, key, ids.drop_last(), healthy) + if member_at(c, key, ids.last()).healthy
            == healthy {
            1nat
        } else {
            0nat
        }
    }
}

/// The requests of some members, modulo two to the power of 64.
pub open spec fn total_requests(c: CoreModel, key: KeyModel, ids: Seq<u128>) -> u64
    decreases ids.len(),
{
    if ids.len() == 0 {
        0
    } else {
        total_requests(c, key, ids.drop_last()).wrapping_add(
            member_at(c, key, ids.last()).info.request_count,
        )
    }
}

/// The bad reports of some members, modulo two to the power of 64.
pub open spec fn total_failures(c: CoreModel, key: KeyModel, ids: Seq<u128>) -> u64
    decreases ids.len(),
{
    if ids.len() == 0 {
        0
    } else {
        total_failures(c, key, ids.drop_last()).wrapping_add(
            member_at(c, key, ids.last()).total_health_failures,
        )
    }
}

/// The first eight characters of the hash of a pool's key; none without a key.
pub open spec fn short_hash(hash: Option<Seq<char>>) -> Seq<char> {
    match hash {
        Some(h) => prefix(h, 8),
        None => prefix(""@, 8),
    }
}

/// The row of the group at a key, as one sees it who sees the members `ids` of it.
pub open spec fn group_entry(
    c: CoreModel,
    key: KeyModel,
    ids: Seq<u128>,
    region_id: Seq<char>,
    now: Clock,
) -> GroupSummaryModel {
    let g = group_at(c, key)->0;
    GroupSummaryModel {
        protocol: shown_protocol(key),
        label: shown_label(key),
        name: g.name,
        key_hash_short: short_hash(g.key_hash),
        region_id,
        member_count: ids.len(),
        healthy_count: count_health(c, key, ids, true),
        unhealthy_count: count_health(c, key, ids, false),
        total_dispatches: total_requests(c, key, ids),
        total_health_failures: total_failures(c, key, ids),
        members: member_entries(c, key, ids, now),
    }
}

/// `row` is what a caller is shown of the group at a key: nothing where they see no member of
/// it; else a row in which only the members that they see count.
pub open spec fn is_group_row(
    c: CoreModel,
    scope: ScopeModel,
    key: KeyModel,
    region_id: Seq<char>,
    now: Clock,
    row: Option<GroupSummaryModel>,
) -> bool {
    if group_at(c, key) is None {
        row is None
    } else {
        exists|ids: Seq<u128>| #[trigger]
            lists_seen(ids, c, scope, key) && row == if ids.len() == 0 {
                None
            } else {
                Some(group_entry(c, key, ids, region_id, now))
            }
    }
}

/// The view of an optional row.
pub open spec fn opt_row(row: Option<GroupSummary>) -> Option<GroupSummaryModel> {
    match row {
        Some(g) => Some(g@),
        None => None,
    }
}

/// The name of a kind of health check.
fn kind_text(kind: Option<HealthCheckKind>) -> (r: Option<String>)
    ensures
        opt_text(r) == kind_name(kind),
{
    match kind {
        Some(HealthCheckKind::Tcp) => Some("tcp".to_owned()),
        Some(HealthCheckKind::Http) => Some("http".to_owned()),
        None => None,
    }
}

/// The name of the group at a key, and the hash of its key.
fn group_identity(core: &TunnelCore, key: &TunnelKey) -> (r: Option<(String, Option<String>)>)
    ensures
        r is Some <==> group_at(core@, key@) is Some,
        r matches Some(x) ==> x.0@ == (group_at(core@, key@)->0).name && opt_text(x.1) == (
        group_at(core@, key@)->0).key_hash,
{
    match key {
        TunnelKey::Http(s) => table_view(
            &core.http_routes,
            s,
            |g: &TunnelGroup| -> (x: (String, Option<String>)) ensures x.0@ == g@.name && opt_text(x.1) == g@.key_hash { (g.name.clone(), opt_text_clone(&g.key_hash)) },
        ),
        TunnelKey::Tcp(p) => table_view(
            &core.tcp_routes,
            p,
            |g: &TunnelGroup| -> (x: (String, Option<String>)) ensures x.0@ == g@.name && opt_text(x.1) == g@.key_hash { (g.name.clone(), opt_text_clone(&g.key_hash)) },
        ),
        TunnelKey::Udp(p) => table_view(
            &core.udp_routes,
            p,
            |g: &TunnelGroup| -> (x: (String, Option<String>)) ensures x.0@ == g@.name && opt_text(x.1) == g@.key_hash { (g.name.clone(), opt_text_clone(&g.key_hash)) },
        ),
        TunnelKey::P2p(_) => None,
    }
}

/// A count is no more than the length.
proof fn lemma_count_bounded(c: CoreModel, key: KeyModel, ids: Seq<u128>)
    ensures
        count_health(c, key, ids, true) + count_health(c, key, ids, false) == ids.len(),
    decreases ids.len(),
{
    if ids.len() > 0 {
        lemma_count_bounded(c, key, ids.drop_last());
    }
}

/// The row of the group at a key, as a caller sees it; `None` where they see no member of it.
pub fn group_to_summary(
    core: &TunnelCore,
    scope: &AuthScope,
    key: &TunnelKey,
    region_id: &str,
    now: Clock,
) -> (r: Option<GroupSummary>)
    ensures
        is_group_row(core@, scope@, key@, region_id@, now, opt_row(r)),
{
    let (name, key_hash) = match group_identity(core, key) {
        Some(x) => x,
        None => {
            return None;
        },
    };
    let ids: Vec<u128> = seen_at(core, scope, key);
    let ghost k = key@;
    let mut healthy_count: usize = 0;
    let mut unhealthy_count: usize = 0;
    let mut total_dispatches: u64 = 0;
    let mut total_health_failures: u64 = 0;
    let mut members: Vec<GroupMemberSummary> = Vec::new();
    let mut i: usize = 0;
    while i < ids.len()
        invariant
            i <= ids@.len(),
            k == key@,
            !(k is P2p),
            lists_seen(ids@, core@, scope@, k),
            healthy_count == count_health(core@, k, ids@.take(i as int), true),
            unhealthy_count == count_health(core@, k, ids@.take(i as int), false),
            healthy_count + unhealthy_count == i,
            total_dispatches == total_requests(core@, k, ids@.take(i as int)),
            total_health_failures == total_failures(core@, k, ids@.take(i as int)),
            members@.len() == i,
            forall|j: int|
                0 <= j < i ==> (#[trigger] members@[j])@ == member_entry(core@, k, ids@[j], now),
        decreases ids@.len() - i,
    {
        let id: u128 = ids[i];
        proof {
            assert(ids@.contains(id));
            assert(ids@.take(i + 1).drop_last() =~= ids@.take(i as int));
            assert(ids@.take(i + 1).last() == id);
        }
        if let Some((facts, _group)) = facts_at(core, key, &id) {
            if facts.healthy {
                healthy_count = healthy_count + 1;
            } else {
                unhealthy_count = unhealthy_count + 1;
            }
            total_dispatches = total_dispatches.wrapping_add(facts.info.request_count);
            total_health_failures = total_health_failures.wrapping_add(
                facts.total_health_failures,
            );
            members.push(
                GroupMemberSummary {
                    tunnel_id: uuid_text(facts.info.tunnel_id),
                    session_id: uuid_text(facts.info.session_id),
                    client_addr: client_addr(core, &facts.info.session_id),
                    request_count: facts.info.request_count,
                    bytes_proxied: facts.info.bytes_proxied,
                    healthy: facts.healthy,
                    consecutive_failures: facts.consecutive_failures,
                    total_health_failures: facts.total_health_failures,
                    connected_since: instant_to_iso(facts.info.created_at, now),
                    health_check_kind: kind_text(facts.health_check_kind),
                    has_alert_webhook: facts.has_alert_webhook,
                },
            );
        }
        i = i + 1;
    }
    assert(ids@.take(i as int) =~= ids@);
    assert(member_summaries(members@) =~= member_entries(core@, k, ids@, now));
    if members.len() == 0 {
        return None;
    }
    let short: String = match &key_hash {
        Some(h) => take_chars(h.as_str(), 8),
        None => take_chars("", 8),
    };
    let r = GroupSummary {
        protocol: key.shown_protocol(),
        label: key.label(),
        name,
        key_hash_short: short,
        region_id: region_id.to_owned(),
        member_count: members.len(),
        healthy_count,
        unhealthy_count,
        total_dispatches,
        total_health_failures,
        members,
    };
    assert(r@ =~= group_entry(core@, k, ids@, region_id@, now));
    Some(r)
}

/// Whether a caller sees a pool at a key: an HTTP or TCP group with a key, and a member in it
/// that they see.
pub open spec fn sees_pool(c: CoreModel, scope: ScopeModel, key: KeyModel) -> bool {
    &&& rank(key) <= 1
    &&& group_at(c, key) is Some
    &&& (group_at(c, key)->0).key_hash is Some
    &&& exists|id: u128| sees_tunnel(c, scope, key, id)
}

/// `keys` are the pools that a caller sees, each once, subdomains first.
pub open spec fn lists_pools(keys: Seq<KeyModel>, c: CoreModel, scope: ScopeModel) -> bool {
    &&& keys.no_duplicates()
    &&& in_order(keys)
    &&& forall|key: KeyModel| #[trigger] keys.contains(key) <==> sees_pool(c, scope, key)
}

/// `rows` are what a caller is shown of the pools.
pub open spec fn lists_groups(
    rows: Seq<GroupSummaryModel>,
    c: CoreModel,
    scope: ScopeModel,
    region_id: Seq<char>,
    now: Clock,
) -> bool {
    exists|keys: Seq<KeyModel>| #[trigger]
        lists_pools(keys, c, scope) && rows_fit(rows, keys, c, scope, region_id, now)
}

/// `rows` are what a caller is shown of the groups at `keys`, in order.
pub open spec fn rows_fit(
    rows: Seq<GroupSummaryModel>,
    keys: Seq<KeyModel>,
    c: CoreModel,
    scope: ScopeModel,
    region_id: Seq<char>,
    now: Clock,
) -> bool {
    &&& rows.len() == keys.len()
    &&& forall|i: int|
        0 <= i < rows.len() ==> is_group_row(
            c,
            scope,
            keys[i],
            region_id,
            now,
            Some(#[trigger] rows[i]),
        )
}

/// What a caller is shown of the pools, on a clock reading that the caller supplies.
pub fn list_groups_with(core: &TunnelCore, scope: &AuthScope, region_id: &str, now: Clock) -> (r:
    Vec<GroupSummary>)
    ensures
        lists_groups(group_summaries(r@), core@, scope@, region_id@, now),
{
    let keys: Vec<TunnelKey> = core.group_routes();
    let ghost views = key_views(keys@);
    let ghost mut shown: Seq<KeyModel> = Seq::empty();
    let mut out: Vec<GroupSummary> = Vec::new();
    let mut i: usize = 0;
    while i < keys.len()
        invariant
            i <= keys@.len(),
            views == key_views(keys@),
            lists_routes(views, core@, 0, 1),
            shown.no_duplicates(),
            in_order(shown),
            forall|key: KeyModel| #[trigger]
                shown.contains(key) <==> views.take(i as int).contains(key) && sees_pool(
                    core@,
                    scope@,
                    key,
                ),
            rows_fit(group_summaries(out@), shown, core@, scope@, region_id@, now),
        decreases keys@.len() - i,
    {
        let key: &TunnelKey = &keys[i];
        let ghost k = key@;
        let ghost before = out@;
        proof {
            assert(views[i as int] == k);
            assert(views.contains(k));
            assert(views.take(i + 1) =~= views.take(i as int).push(k));
            assert(!views.take(i as int).contains(k));
            lemma_pushed(views.take(i as int), k);
            lemma_pushed(shown, k);
        }
        let is_pool: bool = match group_identity(core, key) {
            Some((_name, hash)) => hash.is_some(),
            None => false,
        };
        if is_pool {
            let row: Option<GroupSummary> = group_to_summary(core, scope, key, region_id, now);
            let ghost ids = choose|ids: Seq<u128>| #[trigger]
                lists_seen(ids, core@, scope@, k) && opt_row(row) == if ids.len() == 0 {
                    None
                } else {
                    Some(group_entry(core@, k, ids, region_id@, now))
                };
            match row {
                Some(row) => {
                    proof {
                        assert(ids.contains(ids[0]));
                        assert(sees_tunnel(core@, scope@, k, ids[0]));
                        assert(sees_pool(core@, scope@, k));
                        lemma_in_order_pushed(shown, views, i as int);
                    }
                    out.push(row);
                    proof {
                        assert(group_summaries(out@) =~= group_summaries(before).push(row@));
                        let longer = shown.push(k);
                        assert forall|j: int|
                            0 <= j < group_summaries(out@).len() implies is_group_row(
                            core@,
                            scope@,
                            longer[j],
                            region_id@,
                            now,
                            Some(#[trigger] group_summaries(out@)[j]),
                        ) by {
                            if j < before.len() {
                                assert(group_summaries(out@)[j] == group_summaries(before)[j]);
                                assert(longer[j] == shown[j]);
                            }
                        }
                        shown = longer;
                    }
                },
                None => {
                    proof {
                        if sees_pool(core@, scope@, k) {
                            let id = choose|id: u128| sees_tunnel(core@, scope@, k, id);
                            assert(ids.contains(id));
                        }
                    }
                },
            }
        }
        i = i + 1;
    }
    proof {
        assert(views.take(i as int) =~= views);
        assert forall|key: KeyModel| #[trigger]
            shown.contains(key) <==> sees_pool(core@, scope@, key) by {
            if sees_pool(core@, scope@, key) {
                assert(has_route(core@, key));
                assert(views.contains(key));
            }
        }
        assert(lists_pools(shown, core@, scope@));
    }
    out
}

/// A list of keys in order stays so when a key follows that the ones listed came before.
proof fn lemma_in_order_pushed(shown: Seq<KeyModel>, views: Seq<KeyModel>, i: int)
    requires
        0 <= i < views.len(),
        in_order(views),
        in_order(shown),
        forall|key: KeyModel| #[trigger] shown.contains(key) ==> views.take(i).contains(key),
    ensures
        in_order(shown.push(views[i])),
{
    let longer = shown.push(views[i]);
    assert forall|a: int, b: int| 0 <= a < b < longer.len() implies rank(#[trigger] longer[a])
        <= rank(#[trigger] longer[b]) by {
        if b == shown.len() {
            assert(shown.contains(shown[a]));
            let at = choose|at: int| 0 <= at < views.take(i).len() && views.take(i)[at] == shown[a];
            assert(rank(views[at]) <= rank(views[i]));
        } else {
            assert(rank(shown[a]) <= rank(shown[b]));
        }
    }
}

/// What a caller is shown of the pools: subdomains first, then TCP ports.
pub fn list_groups(core: &TunnelCore, scope: &AuthScope, region_id: &str) -> (r: Vec<GroupSummary>)
    ensures
        exists|now: Clock| lists_groups(group_summaries(r@), core@, scope@, region_id@, now),
{
    let now: Clock = core.clock();
    list_groups_with(core, scope, region_id, now)
}

// ── laws ─────────────────────────────────────────────────────────────────────

/// The tunnels at a key that a caller sees.
pub open spec fn seen_ids(c: CoreModel, scope: ScopeModel, key: KeyModel) -> Set<u128> {
    Set::new(|id: u128| sees_tunnel(c, scope, key, id))
}

/// `entry` is that of a member that the caller sees.
pub open spec fn is_seen_entry(
    c: CoreModel,
    scope: ScopeModel,
    key: KeyModel,
    now: Clock,
    entry: MemberSummaryModel,
) -> bool {
    exists|id: u128|
        sees_tunnel(c, scope, key, id) && entry == #[trigger] member_entry(c, key, id, now)
}

/// What a row says of a group counts the members that the caller sees and no others: as many
/// as there are, the healthy and the unhealthy together, with one entry for each.
pub proof fn law_group_counts_what_is_seen(
    c: CoreModel,
    scope: ScopeModel,
    key: KeyModel,
    region_id: Seq<char>,
    now: Clock,
    row: GroupSummaryModel,
)
    requires
        is_group_row(c, scope, key, region_id, now, Some(row)),
    ensures
        row.member_count == seen_ids(c, scope, key).len(),
        row.member_count > 0,
        row.healthy_count + row.unhealthy_count == row.member_count,
        row.members.len() == row.member_count,
        forall|i: int|
            0 <= i < row.members.len() ==> is_seen_entry(c, scope, key, now, #[trigger] row.members[i]),
{
    let ids = choose|ids: Seq<u128>| #[trigger]
        lists_seen(ids, c, scope, key) && Some(row) == if ids.len() == 0 {
            None
        } else {
            Some(group_entry(c, key, ids, region_id, now))
        };
    lemma_count_bounded(c, key, ids);
    assert forall|id: u128| ids.to_set().contains(id) == seen_ids(c, scope, key).contains(id) by {
        assert(ids.contains(id) <==> sees_tunnel(c, scope, key, id));
    }
    assert(ids.to_set() =~= seen_ids(c, scope, key));
    ids.unique_seq_to_set();
    assert forall|i: int| 0 <= i < row.members.len() implies is_seen_entry(
        c,
        scope,
        key,
        now,
        #[trigger] row.members[i],
    ) by {
        assert(ids.contains(ids[i]));
        assert(row.members[i] == member_entry(c, key, ids[i], now));
    }
}

} // verus!
