//! Whose tunnels a caller of the dashboard may see, and where they are.
use crate::group::{GroupModel, TunnelGroup};
use crate::router::{P2pPublisher, TunnelCore, TunnelKey};
use crate::router_laws::{is_member, member_at};
use crate::router_model::{group_at, CoreModel, KeyModel, PublisherModel};
use crate::session_info::SessionInfo;
use crate::table::{lists_keys, table_keys, table_view};
use crate::text::{opt_text, text_eq};
use crate::tunnel::TunnelModel;
use vstd::prelude::*;

verus! {

/// What a caller may see.
#[derive(Debug)]
pub enum AuthScope {
    /// The operator: everything.
    Admin,
    /// A user: what the sessions of that user own.
    User(u128),
    /// A token without a user: what the sessions with that very token own.
    Token(String),
}

/// The view of an [`AuthScope`].
#[verifier::ext_equal]
pub enum ScopeModel {
    Admin,
    User(u128),
    Token(Seq<char>),
}

impl View for AuthScope {
    type V = ScopeModel;

    open spec fn view(&self) -> ScopeModel {
        match self {
            AuthScope::Admin => ScopeModel::Admin,
            AuthScope::User(id) => ScopeModel::User(*id),
            AuthScope::Token(id) => ScopeModel::Token(id@),
        }
    }
}

impl Clone for AuthScope {
    fn clone(&self) -> (r: Self)
        ensures
            r@ == self@,
    {
        match self {
            AuthScope::Admin => AuthScope::Admin,
            AuthScope::User(id) => AuthScope::User(*id),
            AuthScope::Token(id) => AuthScope::Token(id.clone()),
        }
    }
}

/// Whether a caller may see what a session with this user and this token owns.
pub open spec fn sees(
    scope: ScopeModel,
    user_id: Option<u128>,
    db_token_id: Option<Seq<char>>,
) -> bool {
    match scope {
        ScopeModel::Admin => true,
        ScopeModel::User(id) => user_id == Some(id),
        ScopeModel::Token(id) => db_token_id == Some(id),
    }
}

/// Whether a caller may see what a session owns. Of a session that is gone, only the
/// operator sees anything.
pub open spec fn sees_session(c: CoreModel, scope: ScopeModel, session_id: u128) -> bool {
    ||| scope is Admin
    ||| c.sessions.contains_key(session_id) && sees(
        scope,
        c.sessions[session_id].user_id,
        c.sessions[session_id].db_token_id,
    )
}

impl AuthScope {
    /// Whether the caller may see what a session with this user and this token owns.
    pub fn can_see(&self, session_user_id: Option<u128>, session_db_token_id: &Option<String>) -> (r:
        bool)
        ensures
            r == sees(self@, session_user_id, opt_text(*session_db_token_id)),
    {
        match self {
            AuthScope::Admin => true,
            AuthScope::User(id) => match session_user_id {
                Some(user) => user == *id,
                None => false,
            },
            AuthScope::Token(id) => match session_db_token_id {
                Some(token) => text_eq(token.as_str(), id.as_str()),
                None => false,
            },
        }
    }

    /// Whether the caller is the operator.
    pub fn is_admin(&self) -> (r: bool)
        ensures
            r == (self@ is Admin),
    {
        match self {
            AuthScope::Admin => true,
            _ => false,
        }
    }
}

/// Whether a caller may see what a session owns.
pub fn scope_sees_session(core: &TunnelCore, scope: &AuthScope, session_id: &u128) -> (r: bool)
    ensures
        r == sees_session(core@, scope@, *session_id),
{
    if scope.is_admin() {
        return true;
    }
    let seen: Option<bool> = table_view(
        &core.sessions,
        session_id,
        |s: &SessionInfo| -> (x: bool) ensures x == sees(scope@, s@.user_id, s@.db_token_id) { scope.can_see(s.user_id, &s.db_token_id) },
    );
    match seen {
        Some(x) => x,
        None => false,
    }
}

// ── where tunnels are ────────────────────────────────────────────────────────

/// The order in which the tables are walked.
pub open spec fn rank(key: KeyModel) -> int {
    match key {
        KeyModel::Http(_) => 0,
        KeyModel::Tcp(_) => 1,
        KeyModel::Udp(_) => 2,
        KeyModel::P2p(_) => 3,
    }
}

/// Whether anything is routed at a key.
pub open spec fn has_route(c: CoreModel, key: KeyModel) -> bool {
    match key {
        KeyModel::P2p(name) => c.p2p.contains_key(name),
        _ => group_at(c, key) is Some,
    }
}

/// Whether the tunnel `id` is served at a key: as a member of the group there, or as the
/// publisher.
pub open spec fn serves(c: CoreModel, key: KeyModel, id: u128) -> bool {
    match key {
        KeyModel::P2p(name) => c.p2p.contains_key(name) && c.p2p[name].tunnel_info.tunnel_id == id,
        _ => is_member(c, key, id),
    }
}

/// What the tunnel `id` that is served at a key is registered as.
pub open spec fn info_at(c: CoreModel, key: KeyModel, id: u128) -> TunnelModel {
    match key {
        KeyModel::P2p(name) => c.p2p[name].tunnel_info,
        _ => member_at(c, key, id).info,
    }
}

/// Whether the tunnel `id` is served at a key between two places in the order.
pub open spec fn serves_within(c: CoreModel, key: KeyModel, id: u128, lo: int, hi: int) -> bool {
    serves(c, key, id) && lo <= rank(key) <= hi
}

/// `r` is the first key in the order that serves the tunnel `id`, between two places in it;
/// `None` where no key does.
pub open spec fn first_within(
    c: CoreModel,
    id: u128,
    lo: int,
    hi: int,
    r: Option<KeyModel>,
) -> bool {
    match r {
        Some(key) => {
            &&& serves_within(c, key, id, lo, hi)
            &&& forall|other: KeyModel| #[trigger]
                serves_within(c, other, id, lo, hi) ==> rank(key) <= rank(other)
        },
        None => forall|other: KeyModel| !#[trigger] serves_within(c, other, id, lo, hi),
    }
}

/// `r` is the first key in the order that serves the tunnel `id`.
pub open spec fn first_route(c: CoreModel, id: u128, r: Option<KeyModel>) -> bool {
    first_within(c, id, 0, 3, r)
}

/// The view of an optional key.
pub open spec fn opt_key(k: Option<TunnelKey>) -> Option<KeyModel> {
    match k {
        Some(key) => Some(key@),
        None => None,
    }
}

/// The views of a list of keys, in order.
pub open spec fn key_views(list: Seq<TunnelKey>) -> Seq<KeyModel> {
    list.map_values(|k: TunnelKey| k@)
}

/// `keys` are those between two places in the order where anything is routed, each once, and
/// in order.
pub open spec fn lists_routes(keys: Seq<KeyModel>, c: CoreModel, lo: int, hi: int) -> bool {
    &&& keys.no_duplicates()
    &&& forall|key: KeyModel| #[trigger]
        keys.contains(key) <==> has_route(c, key) && lo <= rank(key) <= hi
    &&& in_order(keys)
}

/// `keys` stand in the order in which the tables are walked.
pub open spec fn in_order(keys: Seq<KeyModel>) -> bool {
    forall|i: int, j: int|
        0 <= i < j < keys.len() ==> rank(#[trigger] keys[i]) <= rank(#[trigger] keys[j])
}

/// One more element at the end.
pub proof fn lemma_pushed<A>(list: Seq<A>, x: A)
    ensures
        forall|y: A| #[trigger] list.push(x).contains(y) <==> y == x || list.contains(y),
        list.no_duplicates() && !list.contains(x) ==> list.push(x).no_duplicates(),
{
    assert forall|y: A| #[trigger] list.push(x).contains(y) <==> y == x || list.contains(y) by {
        if list.contains(y) {
            let i = choose|i: int| 0 <= i < list.len() && list[i] == y;
            assert(list.push(x)[i] == y);
        }
        assert(list.push(x)[list.len() as int] == x);
    }
    if list.no_duplicates() && !list.contains(x) {
        assert forall|i: int, j: int|
            0 <= i < list.len() + 1 && 0 <= j < list.len() + 1 && i != j implies list.push(x)[i]
            != list.push(x)[j] by {
            if i == list.len() {
                assert(list.contains(list[j]));
            }
            if j == list.len() {
                assert(list.contains(list[i]));
            }
        }
    }
}

/// Two lists of keys, the places of the first all before those of the second.
proof fn lemma_routes_joined(
    a: Seq<KeyModel>,
    b: Seq<KeyModel>,
    c: CoreModel,
    lo: int,
    mid: int,
    hi: int,
)
    requires
        lists_routes(a, c, lo, mid),
        lists_routes(b, c, mid + 1, hi),
        lo <= mid < hi,
    ensures
        lists_routes(a + b, c, lo, hi),
{
    let all = a + b;
    assert forall|key: KeyModel| #[trigger]
        all.contains(key) <==> has_route(c, key) && lo <= rank(key) <= hi by {
        if a.contains(key) {
            let i = choose|i: int| 0 <= i < a.len() && a[i] == key;
            assert(all[i] == key);
        }
        if b.contains(key) {
            let i = choose|i: int| 0 <= i < b.len() && b[i] == key;
            assert(all[a.len() + i] == key);
        }
        if all.contains(key) {
            let i = choose|i: int| 0 <= i < all.len() && all[i] == key;
            if i < a.len() {
                assert(a.contains(a[i]));
            } else {
                assert(b.contains(b[i - a.len()]));
            }
        }
    }
    assert forall|i: int, j: int| 0 <= i < j < all.len() implies rank(#[trigger] all[i]) <= rank(
        #[trigger] all[j],
    ) && all[i] != all[j] by {
        if i < a.len() && j >= a.len() {
            assert(a.contains(a[i]));
            assert(b.contains(b[j - a.len()]));
        }
    }
    assert forall|i: int, j: int| 0 <= i < all.len() && 0 <= j < all.len() && i != j implies all[i]
        != all[j] by {
        if i < j {
            assert(rank(all[i]) <= rank(all[j]) && all[i] != all[j]);
        } else {
            assert(rank(all[j]) <= rank(all[i]) && all[j] != all[i]);
        }
    }
}

/// The routes of some subdomains, or of some peer-to-peer names.
fn text_routes(list: Vec<String>, http: bool) -> (r: Vec<TunnelKey>)
    ensures
        r@.len() == list@.len(),
        forall|i: int|
            0 <= i < list@.len() ==> (#[trigger] r@[i])@ == if http {
                KeyModel::Http(list@[i]@)
            } else {
                KeyModel::P2p(list@[i]@)
            },
{
    let mut out: Vec<TunnelKey> = Vec::new();
    let mut i: usize = 0;
    while i < list.len()
        invariant
            i <= list@.len(),
            out@.len() == i,
            forall|j: int|
                0 <= j < i ==> (#[trigger] out@[j])@ == if http {
                    KeyModel::Http(list@[j]@)
                } else {
                    KeyModel::P2p(list@[j]@)
                },
        decreases list@.len() - i,
    {
        let name: String = list[i].clone();
        if http {
            out.push(TunnelKey::Http(name));
        } else {
            out.push(TunnelKey::P2p(name));
        }
        i = i + 1;
    }
    out
}

/// The routes of some TCP ports, or of some UDP ports.
fn port_routes(list: Vec<u16>, tcp: bool) -> (r: Vec<TunnelKey>)
    ensures
        r@.len() == list@.len(),
        forall|i: int|
            0 <= i < list@.len() ==> (#[trigger] r@[i])@ == if tcp {
                KeyModel::Tcp(list@[i])
            } else {
                KeyModel::Udp(list@[i])
            },
{
    let mut out: Vec<TunnelKey> = Vec::new();
    let mut i: usize = 0;
    while i < list.len()
        invariant
            i <= list@.len(),
            out@.len() == i,
            forall|j: int|
                0 <= j < i ==> (#[trigger] out@[j])@ == if tcp {
                    KeyModel::Tcp(list@[j])
                } else {
                    KeyModel::Udp(list@[j])
                },
        decreases list@.len() - i,
    {
        let port: u16 = list[i];
        if tcp {
            out.push(TunnelKey::Tcp(port));
        } else {
            out.push(TunnelKey::Udp(port));
        }
        i = i + 1;
    }
    out
}

/// A list of views that goes with the keys of a table lists the routes of that table.
proof fn lemma_table_routes<K: View, T>(
    views: Seq<KeyModel>,
    keys: Seq<K>,
    table: Map<K::V, T>,
    route: spec_fn(K::V) -> KeyModel,
    name: spec_fn(KeyModel) -> K::V,
    c: CoreModel,
    place: int,
)
    requires
        lists_keys(keys, table),
        views.len() == keys.len(),
        forall|i: int| 0 <= i < keys.len() ==> #[trigger] views[i] == route(keys[i]@),
        forall|x: K::V| rank(#[trigger] route(x)) == place,
        forall|x: K::V, y: K::V| #[trigger] route(x) == #[trigger] route(y) ==> x == y,
        forall|x: K::V| has_route(c, #[trigger] route(x)) <==> table.contains_key(x),
        forall|key: KeyModel| (#[trigger] rank(key)) == place ==> key == route(name(key)),
    ensures
        lists_routes(views, c, place, place),
{
    assert forall|key: KeyModel| #[trigger]
        views.contains(key) <==> has_route(c, key) && place <= rank(key) <= place by {
        if views.contains(key) {
            let i = choose|i: int| 0 <= i < views.len() && views[i] == key;
            assert(table.contains_key(keys[i]@));
        }
        if has_route(c, key) && rank(key) == place {
            let x = name(key);
            assert(table.contains_key(x));
            let i = choose|i: int| 0 <= i < keys.len() && (#[trigger] keys[i])@ == x;
            assert(views[i] == key);
        }
    }
    assert forall|i: int, j: int|
        0 <= i < views.len() && 0 <= j < views.len() && i != j implies views[i] != views[j] by {
        if i < j {
            assert(keys[i]@ != keys[j]@);
        } else {
            assert(keys[j]@ != keys[i]@);
        }
    }
}

impl TunnelGroup {
    /// The members, in no fixed order.
    pub fn member_ids(&self) -> (r: Vec<u128>)
        ensures
            lists_keys(r@, self@.members),
    {
        table_keys(&self.members)
    }
}

impl TunnelCore {
    /// Where HTTP and TCP tunnels are routed: subdomains first.
    pub(crate) fn group_routes(&self) -> (r: Vec<TunnelKey>)
        ensures
            lists_routes(key_views(r@), self@, 0, 1),
    {
        let hosts: Vec<String> = table_keys(&self.http_routes);
        let ghost hosts_listed = hosts@;
        let mut out: Vec<TunnelKey> = text_routes(hosts, true);
        let ports: Vec<u16> = table_keys(&self.tcp_routes);
        let ghost ports_listed = ports@;
        let mut tcp: Vec<TunnelKey> = port_routes(ports, true);
        proof {
            lemma_table_routes(
                key_views(out@),
                hosts_listed,
                self@.http,
                |s: Seq<char>| KeyModel::Http(s),
                |k: KeyModel| k->Http_0,
                self@,
                0,
            );
            lemma_table_routes(
                key_views(tcp@),
                ports_listed,
                self@.tcp,
                |p: u16| KeyModel::Tcp(p),
                |k: KeyModel| k->Tcp_0,
                self@,
                1,
            );
            lemma_routes_joined(key_views(out@), key_views(tcp@), self@, 0, 0, 1);
            assert(key_views(out@ + tcp@) =~= key_views(out@) + key_views(tcp@));
        }
        out.append(&mut tcp);
        out
    }

    /// Everything that is routed: subdomains first, then TCP ports, UDP ports and
    /// peer-to-peer names.
    pub fn all_routes(&self) -> (r: Vec<TunnelKey>)
        ensures
            lists_routes(key_views(r@), self@, 0, 3),
    {
        let mut out: Vec<TunnelKey> = self.group_routes();
        let ports: Vec<u16> = table_keys(&self.udp_routes);
        let ghost ports_listed = ports@;
        let mut udp: Vec<TunnelKey> = port_routes(ports, false);
        let names: Vec<String> = table_keys(&self.p2p_tunnels);
        let ghost names_listed = names@;
        let mut p2p: Vec<TunnelKey> = text_routes(names, false);
        proof {
            lemma_table_routes(
                key_views(udp@),
                ports_listed,
                self@.udp,
                |p: u16| KeyModel::Udp(p),
                |k: KeyModel| k->Udp_0,
                self@,
                2,
            );
            lemma_table_routes(
                key_views(p2p@),
                names_listed,
                self@.p2p,
                |s: Seq<char>| KeyModel::P2p(s),
                |k: KeyModel| k->P2p_0,
                self@,
                3,
            );
            lemma_routes_joined(key_views(out@), key_views(udp@), self@, 0, 1, 2);
            assert(key_views(out@ + udp@) =~= key_views(out@) + key_views(udp@));
            lemma_routes_joined(key_views(out@ + udp@), key_views(p2p@), self@, 0, 2, 3);
            assert(key_views(out@ + udp@ + p2p@) =~= key_views(out@ + udp@) + key_views(p2p@));
        }
        out.append(&mut udp);
        out.append(&mut p2p);
        out
    }

    /// The tunnels that are served at a key, in no fixed order.
    pub fn tunnels_at(&self, key: &TunnelKey) -> (r: Vec<u128>)
        ensures
            r@.no_duplicates(),
            forall|id: u128| #[trigger] r@.contains(id) <==> serves(self@, key@, id),
    {
        let found: Option<Vec<u128>> = match key {
            TunnelKey::Http(s) => table_view(
                &self.http_routes,
                s,
                |g: &TunnelGroup| -> (x: Vec<u128>) ensures lists_keys(x@, g@.members) { g.member_ids() },
            ),
            TunnelKey::Tcp(p) => table_view(
                &self.tcp_routes,
                p,
                |g: &TunnelGroup| -> (x: Vec<u128>) ensures lists_keys(x@, g@.members) { g.member_ids() },
            ),
            TunnelKey::Udp(p) => table_view(
                &self.udp_routes,
                p,
                |g: &TunnelGroup| -> (x: Vec<u128>) ensures lists_keys(x@, g@.members) { g.member_ids() },
            ),
            TunnelKey::P2p(name) => table_view(
                &self.p2p_tunnels,
                name,
                |p: &P2pPublisher| -> (x: Vec<u128>) ensures x@ == seq![p@.tunnel_info.tunnel_id] { one_id(p.tunnel_info.tunnel_id) },
            ),
        };
        let none: Vec<u128> = Vec::new();
        match found {
            Some(ids) => {
                proof {
                    if key@ is P2p {
                        assert(ids@[0] == self@.p2p[key@->P2p_0].tunnel_info.tunnel_id);
                    } else {
                        lemma_ids_listed(ids@, (group_at(self@, key@)->0).members);
                    }
                }
                ids
            },
            None => none,
        }
    }

    /// The session that owns the tunnel `id`, if it is served at a key.
    pub fn session_at(&self, key: &TunnelKey, id: &u128) -> (r: Option<u128>)
        ensures
            r == if serves(self@, key@, *id) {
                Some(info_at(self@, key@, *id).session_id)
            } else {
                None
            },
    {
        let found: Option<Option<u128>> = match key {
            TunnelKey::Http(s) => table_view(
                &self.http_routes,
                s,
                |g: &TunnelGroup| -> (x: Option<u128>) ensures x == owner_in(g@, *id) { g.member_session(id) },
            ),
            TunnelKey::Tcp(p) => table_view(
                &self.tcp_routes,
                p,
                |g: &TunnelGroup| -> (x: Option<u128>) ensures x == owner_in(g@, *id) { g.member_session(id) },
            ),
            TunnelKey::Udp(p) => table_view(
                &self.udp_routes,
                p,
                |g: &TunnelGroup| -> (x: Option<u128>) ensures x == owner_in(g@, *id) { g.member_session(id) },
            ),
            TunnelKey::P2p(name) => table_view(
                &self.p2p_tunnels,
                name,
                |p: &P2pPublisher| -> (x: Option<u128>) ensures x == publisher_owner(p@, *id) { p.owner_of(id) },
            ),
        };
        match found {
            Some(r) => r,
            None => None,
        }
    }

    /// Where the tunnel `id` is served, between two places in the order.
    fn find_within(&self, id: &u128, lo: u8, hi: u8) -> (r: Option<TunnelKey>)
        requires
            hi <= 3,
        ensures
            first_within(self@, *id, lo as int, hi as int, opt_key(r)),
    {
        let keys: Vec<TunnelKey> = self.all_routes();
        let ghost views = key_views(keys@);
        let mut i: usize = 0;
        while i < keys.len()
            invariant
                i <= keys@.len(),
                hi <= 3,
                views == key_views(keys@),
                lists_routes(views, self@, 0, 3),
                forall|j: int|
                    0 <= j < i ==> !serves_within(
                        self@,
                        #[trigger] views[j],
                        *id,
                        lo as int,
                        hi as int,
                    ),
            decreases keys@.len() - i,
        {
            let key: &TunnelKey = &keys[i];
            assert(views[i as int] == key@);
            let place: u8 = key.place();
            if lo <= place && place <= hi && self.session_at(key, id).is_some() {
                proof {
                    assert forall|other: KeyModel| #[trigger]
                        serves_within(self@, other, *id, lo as int, hi as int) implies rank(key@)
                        <= rank(other) by {
                        assert(has_route(self@, other));
                        assert(views.contains(other));
                        let j = choose|j: int| 0 <= j < views.len() && views[j] == other;
                        if j < i {
                            assert(!serves_within(self@, views[j], *id, lo as int, hi as int));
                        } else if j > i {
                            assert(rank(views[i as int]) <= rank(views[j]));
                        }
                    }
                }
                return Some(key.clone());
            }
            i = i + 1;
        }
        proof {
            assert forall|other: KeyModel| !#[trigger]
                serves_within(self@, other, *id, lo as int, hi as int) by {
                if serves_within(self@, other, *id, lo as int, hi as int) {
                    assert(has_route(self@, other));
                    assert(views.contains(other));
                    let j = choose|j: int| 0 <= j < views.len() && views[j] == other;
                    assert(!serves_within(self@, views[j], *id, lo as int, hi as int));
                }
            }
        }
        None
    }

    /// Where the tunnel `id` is served.
    pub fn find_route(&self, id: &u128) -> (r: Option<TunnelKey>)
        ensures
            first_route(self@, *id, opt_key(r)),
    {
        self.find_within(id, 0, 3)
    }

    /// Where the tunnel `id` is served over UDP.
    pub fn find_udp_route(&self, id: &u128) -> (r: Option<TunnelKey>)
        ensures
            first_within(self@, *id, 2, 2, opt_key(r)),
    {
        self.find_within(id, 2, 2)
    }

    /// Where the tunnel `id` is published to peers.
    pub fn find_p2p_route(&self, id: &u128) -> (r: Option<TunnelKey>)
        ensures
            first_within(self@, *id, 3, 3, opt_key(r)),
    {
        self.find_within(id, 3, 3)
    }
}

impl TunnelKey {
    /// The place of the key's table in the order in which the tables are walked.
    fn place(&self) -> (r: u8)
        ensures
            r == rank(self@),
    {
        match self {
            TunnelKey::Http(_) => 0,
            TunnelKey::Tcp(_) => 1,
            TunnelKey::Udp(_) => 2,
            TunnelKey::P2p(_) => 3,
        }
    }
}

impl P2pPublisher {
    /// The session that owns the tunnel `id`, if this is it.
    fn owner_of(&self, id: &u128) -> (r: Option<u128>)
        ensures
            r == publisher_owner(self@, *id),
    {
        if self.tunnel_info.tunnel_id == *id {
            Some(self.tunnel_info.session_id)
        } else {
            None
        }
    }
}

/// A list of one id.
fn one_id(id: u128) -> (r: Vec<u128>)
    ensures
        r@ == seq![id],
{
    let mut out: Vec<u128> = Vec::new();
    out.push(id);
    assert(out@ =~= seq![id]);
    out
}

/// The session that owns the member `id` of a group, if there is such a member.
pub open spec fn owner_in(g: GroupModel, id: u128) -> Option<u128> {
    if g.members.contains_key(id) {
        Some(g.members[id].info.session_id)
    } else {
        None
    }
}

/// The session that owns the tunnel `id`, if the publisher is it.
pub open spec fn publisher_owner(p: PublisherModel, id: u128) -> Option<u128> {
    if p.tunnel_info.tunnel_id == id {
        Some(p.tunnel_info.session_id)
    } else {
        None
    }
}

/// A list of the keys of a table holds each of them, once.
proof fn lemma_ids_listed<T>(ids: Seq<u128>, table: Map<u128, T>)
    requires
        lists_keys(ids, table),
    ensures
        ids.no_duplicates(),
        forall|id: u128| #[trigger] ids.contains(id) <==> table.contains_key(id),
{
    assert forall|i: int, j: int|
        0 <= i < ids.len() && 0 <= j < ids.len() && i != j implies ids[i] != ids[j] by {
        if i < j {
            assert(ids[i]@ != ids[j]@);
        } else {
            assert(ids[j]@ != ids[i]@);
        }
    }
    assert forall|id: u128| #[trigger] ids.contains(id) <==> table.contains_key(id) by {
        if ids.contains(id) {
            let i = choose|i: int| 0 <= i < ids.len() && ids[i] == id;
            assert(table.contains_key(ids[i]@));
        }
        if table.contains_key(id) {
            let i = choose|i: int| 0 <= i < ids.len() && (#[trigger] ids[i])@ == id;
            assert(ids.contains(id));
        }
    }
}

/// The session that owns the tunnel `id`, found by walking the tables.
pub open spec fn owner_found(c: CoreModel, id: u128, r: Option<u128>) -> bool {
    exists|route: Option<KeyModel>| #[trigger]
        first_route(c, id, route) && r == owner_at(c, route, id)
}

/// The session that owns the tunnel `id` that is served at `route`.
pub open spec fn owner_at(c: CoreModel, route: Option<KeyModel>, id: u128) -> Option<u128> {
    match route {
        Some(key) => Some(info_at(c, key, id).session_id),
        None => None,
    }
}

/// The session that owns a tunnel, found by walking the tables.
pub fn find_tunnel_owning_session(core: &TunnelCore, tunnel_id: &u128) -> (r: Option<u128>)
    ensures
        owner_found(core@, *tunnel_id, r),
{
    let route: Option<TunnelKey> = core.find_route(tunnel_id);
    assert(first_route(core@, *tunnel_id, opt_key(route)));
    match &route {
        Some(key) => core.session_at(key, tunnel_id),
        None => None,
    }
}

// ── what a caller sees ───────────────────────────────────────────────────────

/// Whether a caller sees the tunnel `id` at a key.
pub open spec fn sees_tunnel(c: CoreModel, scope: ScopeModel, key: KeyModel, id: u128) -> bool {
    serves(c, key, id) && sees_session(c, scope, info_at(c, key, id).session_id)
}

/// The views of a list of tunnels, each with where it is served.
pub open spec fn route_views(list: Seq<(TunnelKey, u128)>) -> Seq<(KeyModel, u128)> {
    list.map_values(|p: (TunnelKey, u128)| (p.0@, p.1))
}

/// `routes` are the tunnels between two places in the order that a caller sees, each once,
/// and in order.
pub open spec fn lists_visible(
    routes: Seq<(KeyModel, u128)>,
    c: CoreModel,
    scope: ScopeModel,
    lo: int,
    hi: int,
) -> bool {
    &&& routes.no_duplicates()
    &&& forall|key: KeyModel, id: u128| #[trigger]
        routes.contains((key, id)) <==> sees_tunnel(c, scope, key, id) && lo <= rank(key) <= hi
    &&& forall|i: int, j: int|
        0 <= i < j < routes.len() ==> rank((#[trigger] routes[i]).0) <= rank(
            (#[trigger] routes[j]).0,
        )
}

/// `ids` are the tunnels at a key that a caller sees, each once.
pub open spec fn lists_seen(
    ids: Seq<u128>,
    c: CoreModel,
    scope: ScopeModel,
    key: KeyModel,
) -> bool {
    &&& ids.no_duplicates()
    &&& forall|id: u128| #[trigger] ids.contains(id) <==> sees_tunnel(c, scope, key, id)
}

/// The tunnels at a key that a caller sees, in no fixed order.
pub fn seen_at(core: &TunnelCore, scope: &AuthScope, key: &TunnelKey) -> (r: Vec<u128>)
    ensures
        lists_seen(r@, core@, scope@, key@),
{
    let ids: Vec<u128> = core.tunnels_at(key);
    let mut out: Vec<u128> = Vec::new();
    let mut i: usize = 0;
    while i < ids.len()
        invariant
            i <= ids@.len(),
            ids@.no_duplicates(),
            forall|id: u128| #[trigger] ids@.contains(id) <==> serves(core@, key@, id),
            out@.no_duplicates(),
            forall|id: u128| #[trigger]
                out@.contains(id) <==> ids@.take(i as int).contains(id) && sees_tunnel(
                    core@,
                    scope@,
                    key@,
                    id,
                ),
        decreases ids@.len() - i,
    {
        let id: u128 = ids[i];
        let ghost before = out@;
        proof {
            assert(ids@.contains(id));
            assert(ids@.take(i + 1) =~= ids@.take(i as int).push(id));
            assert(!ids@.take(i as int).contains(id));
            lemma_pushed(ids@.take(i as int), id);
            lemma_pushed(before, id);
        }
        if let Some(owner) = core.session_at(key, &id) {
            if scope_sees_session(core, scope, &owner) {
                out.push(id);
            }
        }
        i = i + 1;
    }
    assert(ids@.take(i as int) =~= ids@);
    out
}

/// The tunnels at `keys` that a caller sees, key by key.
fn visible_at(core: &TunnelCore, scope: &AuthScope, keys: &Vec<TunnelKey>, lo: u8, hi: u8) -> (r:
    Vec<(TunnelKey, u128)>)
    requires
        lists_routes(key_views(keys@), core@, lo as int, hi as int),
    ensures
        lists_visible(route_views(r@), core@, scope@, lo as int, hi as int),
{
    let ghost views = key_views(keys@);
    let mut out: Vec<(TunnelKey, u128)> = Vec::new();
    let mut i: usize = 0;
    assert(route_views(out@) =~= Seq::empty());
    while i < keys.len()
        invariant
            i <= keys@.len(),
            views == key_views(keys@),
            lists_routes(views, core@, lo as int, hi as int),
            route_views(out@).no_duplicates(),
            forall|key: KeyModel, id: u128| #[trigger]
                route_views(out@).contains((key, id)) <==> views.take(i as int).contains(key)
                    && sees_tunnel(core@, scope@, key, id),
            forall|a: int, b: int|
                0 <= a < b < route_views(out@).len() ==> rank((#[trigger] route_views(out@)[a]).0)
                    <= rank((#[trigger] route_views(out@)[b]).0),
        decreases keys@.len() - i,
    {
        let key: &TunnelKey = &keys[i];
        let ghost k = key@;
        assert(views[i as int] == k);
        let ids: Vec<u128> = seen_at(core, scope, key);
        proof {
            assert(views.take(i + 1) =~= views.take(i as int).push(k));
            assert(!views.take(i as int).contains(k));
            lemma_pushed(views.take(i as int), k);
        }
        let mut j: usize = 0;
        while j < ids.len()
            invariant
                i < keys@.len(),
                j <= ids@.len(),
                k == key@,
                views == key_views(keys@),
                views[i as int] == k,
                lists_routes(views, core@, lo as int, hi as int),
                lists_seen(ids@, core@, scope@, k),
                !views.take(i as int).contains(k),
                route_views(out@).no_duplicates(),
                forall|other: KeyModel, id: u128| #[trigger]
                    route_views(out@).contains((other, id)) <==> (views.take(i as int).contains(
                        other,
                    ) && sees_tunnel(core@, scope@, other, id)) || (other == k && ids@.take(
                        j as int,
                    ).contains(id)),
                forall|a: int, b: int|
                    0 <= a < b < route_views(out@).len() ==> rank(
                        (#[trigger] route_views(out@)[a]).0,
                    ) <= rank((#[trigger] route_views(out@)[b]).0),
            decreases ids@.len() - j,
        {
            let id: u128 = ids[j];
            let ghost before = route_views(out@);
            proof {
                assert(ids@.take(j + 1) =~= ids@.take(j as int).push(id));
                assert(!ids@.take(j as int).contains(id));
                lemma_pushed(ids@.take(j as int), id);
                lemma_pushed(before, (k, id));
                assert(!before.contains((k, id)));
            }
            out.push((key.clone(), id));
            proof {
                assert(route_views(out@) =~= before.push((k, id)));
                assert forall|a: int, b: int| 0 <= a < b < route_views(out@).len() implies rank(
                    (#[trigger] route_views(out@)[a]).0,
                ) <= rank((#[trigger] route_views(out@)[b]).0) by {
                    if b == before.len() {
                        let old_key = before[a].0;
                        assert(before.contains((old_key, before[a].1)));
                        if old_key != k {
                            let at = choose|at: int|
                                0 <= at < views.take(i as int).len() && views.take(i as int)[at]
                                    == old_key;
                            assert(rank(views[at]) <= rank(views[i as int]));
                        }
                    } else {
                        assert(rank(before[a].0) <= rank(before[b].0));
                    }
                }
            }
            j = j + 1;
        }
        assert(ids@.take(j as int) =~= ids@);
        proof {
            assert forall|other: KeyModel, id: u128| #[trigger]
                route_views(out@).contains((other, id)) <==> views.take(i + 1).contains(other)
                    && sees_tunnel(core@, scope@, other, id) by {
                if other == k {
                    assert(ids@.contains(id) <==> sees_tunnel(core@, scope@, k, id));
                }
                assert(views.take(i as int).push(k).contains(other) <==> other == k || views.take(
                    i as int,
                ).contains(other));
            }
        }
        i = i + 1;
    }
    proof {
        assert(views.take(i as int) =~= views);
        assert forall|key: KeyModel, id: u128| #[trigger]
            route_views(out@).contains((key, id)) <==> sees_tunnel(core@, scope@, key, id) && lo
                <= rank(key) <= hi by {
            if sees_tunnel(core@, scope@, key, id) {
                assert(has_route(core@, key));
                assert(views.contains(key) <==> has_route(core@, key) && lo <= rank(key) <= hi);
            }
            if views.contains(key) {
                assert(has_route(core@, key) && lo <= rank(key) <= hi);
            }
        }
    }
    out
}

/// The tunnels that a caller sees: those of subdomains first, then of TCP ports, of UDP
/// ports, and the peer-to-peer ones.
pub fn visible_tunnels(core: &TunnelCore, scope: &AuthScope) -> (r: Vec<(TunnelKey, u128)>)
    ensures
        lists_visible(route_views(r@), core@, scope@, 0, 3),
{
    let keys: Vec<TunnelKey> = core.all_routes();
    visible_at(core, scope, &keys, 0, 3)
}

/// `n` is how many tunnels are served at subdomains and TCP ports.
pub open spec fn live_count(c: CoreModel, n: nat) -> bool {
    exists|routes: Seq<(KeyModel, u128)>| #[trigger]
        lists_visible(routes, c, ScopeModel::Admin, 0, 1) && routes.len() == n
}

/// How many tunnels are served at subdomains and TCP ports.
pub fn live_tunnels(core: &TunnelCore) -> (r: usize)
    ensures
        live_count(core@, r as nat),
{
    let keys: Vec<TunnelKey> = core.group_routes();
    let all: Vec<(TunnelKey, u128)> = visible_at(core, &AuthScope::Admin, &keys, 0, 1);
    assert(lists_visible(route_views(all@), core@, ScopeModel::Admin, 0, 1));
    all.len()
}

} // verus!
