//! What the dashboard shows, and to whom.
use crate::admin::{bad_status, deletion_answer, is_user_status, shown_days, user_named, TokenAuditModel};
use crate::api::{
    admin_checked, admin_claim, answers_health, answers_peer, answers_tunnel, answers_udp, auth_checked,
    bearer_in, bearer_of, claims_admin, closes_tunnel, follow_answer, is_sent, law_walk_agrees_with_index,
    names_tunnel, recent_places, replay_answer, sees_requests, stream_route, token_judged, ApiErrorModel,
    AuthCheck, GroupNews, HealthRowModel, PeerRowModel, Refusal, SseItem, UdpRowModel, SSE_KEEP_ALIVE_SECS,
    SSE_KEEP_ALIVE_TEXT,
};
use crate::auth::same_secret;
use crate::clock::{iso_of_instant, iso_of_unix, Clock};
use crate::db::{
    history_column, history_direction, is_new_token, order_clause, raw_token, sort_named, store_url, token_hash,
    token_record, users_query, AdminUserSort, NewTokenModel,
};
use crate::edge_laws::law_numerals_are_read_back;
use crate::group::{healthy_ids, GroupModel};
use crate::headers::{header_table, is_field_text};
use crate::health_laws::home;
use crate::ids::{is_random_uuid, law_uuid_forms_differ, uuid_form};
use crate::protocol::HealthCheckKind;
use crate::router_laws::consistent;
use crate::router_model::{tunnel_removed, CoreModel, KeyModel};
use crate::scope::{
    first_route, first_within, lists_visible, live_count, sees, serves, AuthScope, ScopeModel,
};
use crate::session::TokenModel;
use crate::summary::{
    group_entry, lists_groups, lists_pools, lists_summaries, member_entry, rows_fit, GroupRefModel, GroupSummaryModel,
    SummaryModel,
};
use crate::text::decimal;
use crate::traffic_laws::behind;
use crate::tunnel::TunnelModel;
use hyper::HeaderMap;
use vstd::prelude::*;
use vstd::utf8::*;

verus! {

// ── who asks ─────────────────────────────────────────────────────────────────

/// The token of a request is what stands behind the word `Bearer` and a space in its
/// `Authorization` field; a field without that has none.
pub proof fn law_bearer(token: Seq<char>, field: Seq<char>)
    ensures
        bearer_in(Some("Bearer "@ + token)) == Some(token),
        bearer_in(Some(field)) == Some(token) ==> field == "Bearer "@ + token,
        bearer_in(None) is None,
{
    reveal_strlit("Bearer ");
    let full = "Bearer "@ + token;
    assert(full.take(7) =~= "Bearer "@);
    assert(full.skip(7) =~= token);
    if bearer_in(Some(field)) == Some(token) {
        assert(field =~= field.take(7) + field.skip(7));
    }
}

/// The token of a request stands in its first `Authorization` field, and nowhere else.
pub proof fn law_where_tokens_stand(headers: HeaderMap, token: Seq<char>)
    ensures
        ({
            let table = header_table(headers);
            let readable = table.contains_key("authorization"@) && is_field_text(
                table["authorization"@][0],
            );
            bearer_of(headers) == Some(token) <==> readable && decode_utf8(
                table["authorization"@][0],
            ) == "Bearer "@ + token
        }),
{
    law_bearer(token, decode_utf8(header_table(headers)["authorization"@][0]));
}

/// One whose address has used up its budget is turned away whatever they show; one without a
/// token is turned away; the operator is let in as such; and any other token is looked up as it
/// is. Neither of the two that are turned away has failed at anything.
pub proof fn law_who_is_let_in(token: Option<Seq<char>>, limited: bool, admin: bool, r: AuthCheck)
    requires
        auth_checked(token, limited, admin, r),
    ensures
        ({
            let shown = token is Some && (token->0).len() > 0;
            &&& r is Refused <==> limited || !shown
            &&& r is Known <==> !limited && shown && admin
            &&& r is LookUp <==> !limited && shown && !admin
            &&& r matches AuthCheck::Known(s) ==> s@ == ScopeModel::Admin
            &&& r matches AuthCheck::LookUp(t) ==> t@ == token->0
            &&& r matches AuthCheck::Refused(e) ==> !e.failed && e.error@.status == (if limited {
                429u16
            } else {
                401u16
            }) && e.error@.error == (if limited {
                "too many failed attempts"@
            } else {
                "missing token"@
            })
        }),
{
    if token is Some && (token->0).len() == 0 {
        assert(token->0 =~= Seq::<char>::empty());
    }
}

/// A token that the database knows stands for its user, or for itself alone where it has none; a
/// token that it does not know is turned away, as a failed attempt.
pub proof fn law_what_a_token_stands_for(
    found: Option<TokenModel>,
    r: Result<AuthScope, Refusal>,
)
    requires
        token_judged(found, r),
    ensures
        r is Ok <==> found is Some,
        found matches Some(t) ==> (t.user_id matches Some(user) ==> r->Ok_0@ == ScopeModel::User(
            user,
        )) && (t.user_id is None ==> r->Ok_0@ == ScopeModel::Token(t.id)),
        r matches Err(e) ==> e.failed && e.error@.status == 401 && e.error@.error
            == "invalid token"@,
{
}

/// The operator's own requests are for the operator alone; everyone else is turned away, and has
/// failed if they showed a token. One whose address has used up its budget is turned away even
/// as the operator.
pub proof fn law_operator_alone(limited: bool, admin: bool, shown: bool, r: Result<(), Refusal>)
    requires
        admin_checked(limited, admin, shown, r),
    ensures
        r is Ok <==> admin && !limited,
        r matches Err(e) ==> (e.failed <==> shown && !limited) && e.error@.status == (if limited {
            429u16
        } else {
            401u16
        }) && e.error@.error == (if limited {
            "too many failed attempts"@
        } else {
            "admin token required"@
        }),
{
}

// ── what is seen ─────────────────────────────────────────────────────────────

/// Whether a caller may see what a session owns: the operator sees all; a user sees what live
/// sessions of theirs own, and a token without a user what live sessions with that token own.
pub open spec fn may_see(c: CoreModel, scope: ScopeModel, session_id: u128) -> bool {
    match scope {
        ScopeModel::Admin => true,
        ScopeModel::User(user) => c.sessions.contains_key(session_id)
            && c.sessions[session_id].user_id == Some(user),
        ScopeModel::Token(token) => c.sessions.contains_key(session_id)
            && c.sessions[session_id].db_token_id == Some(token),
    }
}

/// The operator sees what any session owns; a user sees what sessions of theirs own, and a token
/// without a user what sessions with that token own.
pub proof fn law_who_sees_what(
    scope: ScopeModel,
    user_id: Option<u128>,
    db_token_id: Option<Seq<char>>,
)
    ensures
        scope is Admin ==> sees(scope, user_id, db_token_id),
        scope matches ScopeModel::User(user) ==> (sees(scope, user_id, db_token_id) <==> user_id
            == Some(user)),
        scope matches ScopeModel::Token(token) ==> (sees(scope, user_id, db_token_id)
            <==> db_token_id == Some(token)),
{
}

/// What a tunnel is registered as, by where it is routed.
pub open spec fn known_as(c: CoreModel, id: u128) -> Option<TunnelModel> {
    if !c.index.contains_key(id) {
        None
    } else {
        match c.index[id] {
            KeyModel::P2p(name) => if c.p2p.contains_key(name) {
                Some(c.p2p[name].tunnel_info)
            } else {
                None
            },
            _ => match home(c, id) {
                Some(g) => Some(g.members[id].info),
                None => None,
            },
        }
    }
}

/// Whether a caller sees a tunnel: it is there, and they may see what its session owns.
pub open spec fn is_visible(c: CoreModel, scope: ScopeModel, id: u128) -> bool {
    known_as(c, id) matches Some(info) && may_see(c, scope, info.session_id)
}

/// Where a tunnel is found by walking the tables.
proof fn lemma_found(c: CoreModel, scope: ScopeModel, id: u128, route: Option<KeyModel>)
    requires
        consistent(c),
        first_route(c, id, route),
    ensures
        route is Some <==> c.index.contains_key(id),
        route matches Some(key) ==> key == c.index[id] && serves(c, key, id),
        known_as(c, id) is Some <==> c.index.contains_key(id),
        is_visible(c, scope, id) <==> route is Some && crate::scope::sees_tunnel(
            c,
            scope,
            route->0,
            id,
        ),
        is_visible(c, scope, id) <==> crate::api::sees_at(c, scope, route, id),
{
    law_walk_agrees_with_index(c, id, route);
    if let Some(key) = route {
        assert(crate::scope::serves_within(c, key, id, 0, 3));
        if !(key is P2p) {
            assert(crate::router_laws::is_member(c, key, id));
        }
    }
}

/// What a row says of a tunnel is what the tunnel is: its id, where it is routed and how that is
/// written, since when, what it counted, where its owner connects from, its health and its
/// failures, and the pool that it belongs to.
pub open spec fn tells_tunnel(
    c: CoreModel,
    id: u128,
    region_id: Seq<char>,
    now: Clock,
    s: SummaryModel,
) -> bool {
    let info = known_as(c, id)->0;
    &&& s.tunnel_id == uuid_form(id)
    &&& s.connected_since == iso_of_instant(info.created_at, now)
    &&& s.request_count == info.request_count && s.bytes_proxied == info.bytes_proxied
    &&& s.region_id == region_id
    &&& s.client_addr == if c.sessions.contains_key(info.session_id) {
        c.sessions[info.session_id].client_addr
    } else {
        ""@
    }
    &&& match c.index[id] {
        KeyModel::Http(label) => s.protocol == "http"@ && s.label == label && s.public_url
            == "https://"@ + label,
        KeyModel::Tcp(p) => s.protocol == "tcp"@ && s.label == decimal(p as nat) && s.public_url
            == "tcp://:"@ + decimal(p as nat),
        KeyModel::Udp(p) => s.protocol == "udp"@ && s.label == decimal(p as nat) && s.public_url
            == "udp://:"@ + decimal(p as nat),
        KeyModel::P2p(name) => s.protocol == "p2p"@ && s.label == c.p2p[name].name && s.public_url
            == "p2p://"@ + c.p2p[name].name,
    }
    &&& match c.index[id] {
        KeyModel::P2p(name) => s.group is None && s.healthy && s.consecutive_failures == 0
            && s.total_health_failures == 0 && s.nat_type == c.p2p[name].nat_type && (
        c.p2p[name].mapped_addrs.len() == 0 ==> s.mapped_addrs is None) && (
        c.p2p[name].mapped_addrs.len() > 0 ==> s.mapped_addrs == Some(c.p2p[name].mapped_addrs)),
        _ => {
            let g = home(c, id)->0;
            let m = g.members[id];
            &&& s.healthy == m.healthy && s.consecutive_failures == m.consecutive_failures
                && s.total_health_failures == m.total_health_failures
            &&& s.nat_type is None && s.mapped_addrs is None
            &&& tells_pool(g, s.group)
        },
    }
}

/// What is said of the pool that a group is: nothing of a lone tunnel; of a pool its name, the
/// first eight characters of its key's hash, and how many members it has and how many of them
/// are healthy.
pub open spec fn tells_pool(g: GroupModel, r: Option<GroupRefModel>) -> bool {
    match g.key_hash {
        None => r is None,
        Some(hash) => r == Some(
            GroupRefModel {
                name: g.name,
                key_hash_short: if hash.len() <= 8 {
                    hash
                } else {
                    hash.take(8)
                },
                member_count: g.members.dom().len(),
                healthy_count: healthy_ids(g).len(),
            },
        ),
    }
}

/// The row of a tunnel tells the tunnel.
proof fn lemma_row(c: CoreModel, id: u128, region_id: Seq<char>, now: Clock)
    requires
        consistent(c),
        c.index.contains_key(id),
        serves(c, c.index[id], id),
    ensures
        tells_tunnel(
            c,
            id,
            region_id,
            now,
            crate::summary::summary_at(c, c.index[id], id, region_id, now),
        ),
{
    let key = c.index[id];
    if key is P2p {
        assert(c.p2p[key->P2p_0].tunnel_info.tunnel_id == id);
    } else {
        assert(crate::router_laws::is_member(c, key, id));
        assert(crate::router_laws::member_at(c, key, id).info.tunnel_id == id);
    }
}

/// Who asks for a tunnel is shown it exactly if they see it, and then it is told as it is; a
/// tunnel that they do not see is answered like one that is not there.
pub proof fn law_asking_for_a_tunnel(
    c: CoreModel,
    scope: ScopeModel,
    id: u128,
    region_id: Seq<char>,
    now: Clock,
    r: Result<SummaryModel, ApiErrorModel>,
)
    requires
        consistent(c),
        answers_tunnel(c, scope, uuid_form(id), region_id, now, r),
    ensures
        r is Ok <==> is_visible(c, scope, id),
        r matches Ok(s) ==> tells_tunnel(c, id, region_id, now, s),
        r matches Err(e) ==> e == (ApiErrorModel { status: 404, error: "tunnel not found"@ }),
{
    if names_tunnel(uuid_form(id), None) {
        assert(uuid_form(id) != uuid_form(id));
    }
    let (other, route) = choose|other: u128, route: Option<KeyModel>|
        uuid_form(id) == uuid_form(other) && #[trigger] first_route(c, other, route) && r
            == crate::api::tunnel_answer(c, scope, route, other, region_id, now);
    law_uuid_forms_differ(id, other);
    lemma_found(c, scope, id, route);
    if route is Some {
        lemma_row(c, id, region_id, now);
    }
}

/// A text that is not how a tunnel is shown leads to none.
pub proof fn law_texts_that_name_nothing(
    c: CoreModel,
    scope: ScopeModel,
    text: Seq<char>,
    region_id: Seq<char>,
    now: Clock,
    tunnel: Result<SummaryModel, ApiErrorModel>,
    udp: Result<UdpRowModel, ApiErrorModel>,
    peer: Result<PeerRowModel, ApiErrorModel>,
)
    requires
        forall|id: u128| text != #[trigger] uuid_form(id),
        answers_tunnel(c, scope, text, region_id, now, tunnel),
        answers_udp(c, scope, text, now, udp),
        answers_peer(c, scope, text, now, peer),
    ensures
        tunnel == Err::<SummaryModel, ApiErrorModel>(
            ApiErrorModel { status: 404, error: "tunnel not found"@ },
        ),
        udp == Err::<UdpRowModel, ApiErrorModel>(
            ApiErrorModel { status: 404, error: "UDP tunnel not found"@ },
        ),
        peer == Err::<PeerRowModel, ApiErrorModel>(
            ApiErrorModel { status: 404, error: "P2P tunnel not found"@ },
        ),
{
}

/// Who closes a tunnel has it taken out exactly if they see it; the operator is told that it is
/// done whether it was there or not, and everyone else that it is not there where they do not
/// see it. A text that names no tunnel closes none.
pub proof fn law_closing_a_tunnel(
    before: CoreModel,
    after: CoreModel,
    scope: ScopeModel,
    read: Option<u128>,
    r: Result<(), ApiErrorModel>,
)
    requires
        consistent(before),
        closes_tunnel(before, after, scope, read, r),
    ensures
        read is None ==> after == before && r == Err::<(), ApiErrorModel>(
            ApiErrorModel { status: 404, error: "invalid tunnel id"@ },
        ),
        read matches Some(id) ==> {
            &&& r is Ok <==> scope is Admin || is_visible(before, scope, id)
            &&& r is Ok ==> after == tunnel_removed(before, id) && !after.index.contains_key(id)
            &&& r is Err ==> after == before
            &&& r matches Err(e) ==> e == (ApiErrorModel {
                status: 404,
                error: "tunnel not found"@,
            })
        },
{
    if let Some(id) = read {
        if !(scope is Admin) {
            let route = choose|route: Option<KeyModel>| #[trigger]
                first_route(before, id, route) && if crate::api::sees_at(
                    before,
                    scope,
                    route,
                    id,
                ) {
                    after == tunnel_removed(before, id) && r is Ok
                } else {
                    after == before && r == Err::<(), ApiErrorModel>(
                        crate::api::not_found_error("tunnel not found"@),
                    )
                };
            lemma_found(before, scope, id, route);
        }
    }
}

/// Who asks for a tunnel's history is shown it exactly if they see the tunnel and it is no
/// publisher: every transition that is kept, in order, each with its time, what the health was
/// then and why.
pub proof fn law_asking_for_a_history(
    c: CoreModel,
    scope: ScopeModel,
    read: Option<u128>,
    r: Result<Seq<HealthRowModel>, ApiErrorModel>,
)
    requires
        consistent(c),
        answers_health(c, scope, read, r),
    ensures
        read is None ==> r == Err::<Seq<HealthRowModel>, ApiErrorModel>(
            ApiErrorModel { status: 404, error: "invalid tunnel id"@ },
        ),
        read matches Some(id) ==> {
            &&& r is Ok <==> is_visible(c, scope, id) && home(c, id) is Some
            &&& r matches Err(e) ==> e == (ApiErrorModel {
                status: 404,
                error: "tunnel not found"@,
            })
            &&& r matches Ok(rows) ==> {
                let events = (home(c, id)->0).members[id].health_events;
                &&& rows.len() == events.len()
                &&& forall|i: int|
                    0 <= i < rows.len() ==> #[trigger] rows[i] == (HealthRowModel {
                        at: iso_of_unix(events[i].at),
                        healthy: events[i].healthy,
                        reason: events[i].reason,
                    })
            }
        },
{
    if let Some(id) = read {
        let route = choose|route: Option<KeyModel>| #[trigger]
            first_route(c, id, route) && r == crate::api::health_answer(c, scope, route, id);
        lemma_found(c, scope, id, route);
    }
}

/// Captured requests are for those who see their tunnel; those of a tunnel that is gone, or that
/// a text does not name, are for the operator.
pub proof fn law_who_gets_at_requests(
    c: CoreModel,
    scope: ScopeModel,
    read: Option<u128>,
    seen: bool,
)
    requires
        consistent(c),
        sees_requests(c, scope, read, seen),
    ensures
        read is None ==> (seen <==> scope is Admin),
        read matches Some(id) ==> (seen <==> scope is Admin || is_visible(c, scope, id)),
{
    if let Some(id) = read {
        let route = choose|route: Option<KeyModel>| #[trigger]
            first_route(c, id, route) && seen == (scope is Admin || crate::api::sees_at(
                c,
                scope,
                route,
                id,
            ));
        lemma_found(c, scope, id, route);
    }
}

/// The captured requests that are shown are the latest, the newest first, none left out: as many
/// as were asked for, and all of them where that is more than there are or less than none.
pub proof fn law_latest_requests(len: usize, limit: i64, i: int)
    ensures
        limit < 0 ==> recent_places(len, limit).len() == len,
        0 <= limit <= len ==> recent_places(len, limit).len() == limit,
        limit > len ==> recent_places(len, limit).len() == len,
        0 <= i < recent_places(len, limit).len() ==> recent_places(len, limit)[i] + i + 1 == len,
{
}

/// A request is replayed only on the tunnel that it was captured on.
pub proof fn law_replays_stay_on_their_tunnel(captured_on: Option<Seq<char>>, tunnel: Seq<char>)
    ensures
        replay_answer(captured_on, tunnel) is Ok <==> captured_on == Some(tunnel),
        replay_answer(captured_on, tunnel) matches Err(e) ==> e.status == 404 && e.error == (
        if captured_on is Some {
            "request does not belong to this tunnel"@
        } else {
            "request not found"@
        }),
{
}

/// Who asks for a UDP tunnel is shown it exactly if they see it and it is one, with what it
/// counted.
pub proof fn law_asking_for_a_udp_tunnel(
    c: CoreModel,
    scope: ScopeModel,
    id: u128,
    now: Clock,
    r: Result<UdpRowModel, ApiErrorModel>,
)
    requires
        consistent(c),
        answers_udp(c, scope, uuid_form(id), now, r),
    ensures
        r is Ok <==> is_visible(c, scope, id) && c.index[id] is Udp,
        r matches Err(e) ==> e == (ApiErrorModel { status: 404, error: "UDP tunnel not found"@ }),
        r matches Ok(row) ==> {
            let info = known_as(c, id)->0;
            &&& row.tunnel_id == uuid_form(id) && row.protocol == "udp"@
            &&& KeyModel::Udp(row.port) == c.index[id]
            &&& row.request_count == info.request_count && row.bytes_proxied == info.bytes_proxied
            &&& row.connected_since == iso_of_instant(info.created_at, now)
        },
{
    if names_tunnel(uuid_form(id), None) {
        assert(uuid_form(id) != uuid_form(id));
    }
    let (other, route) = choose|other: u128, route: Option<KeyModel>|
        uuid_form(id) == uuid_form(other) && #[trigger] first_within(c, other, 2, 2, route) && r
            == crate::api::udp_answer(c, scope, route, other, now);
    law_uuid_forms_differ(id, other);
    if let Some(key) = route {
        assert(crate::scope::serves_within(c, key, id, 2, 2));
        assert(crate::router_laws::is_member(c, key, id));
        assert(c.index[id] == key);
        assert(crate::router_laws::member_at(c, key, id).info.tunnel_id == id);
    } else if c.index.contains_key(id) && c.index[id] is Udp {
        assert(crate::router_laws::is_member(c, c.index[id], id));
        assert(crate::scope::serves_within(c, c.index[id], id, 2, 2));
    }
}

/// Who asks for a publisher is shown it exactly if they see it and it is one, with what it
/// counted and what it reported of its network.
pub proof fn law_asking_for_a_publisher(
    c: CoreModel,
    scope: ScopeModel,
    id: u128,
    now: Clock,
    r: Result<PeerRowModel, ApiErrorModel>,
)
    requires
        consistent(c),
        answers_peer(c, scope, uuid_form(id), now, r),
    ensures
        r is Ok <==> is_visible(c, scope, id) && c.index[id] is P2p,
        r matches Err(e) ==> e == (ApiErrorModel { status: 404, error: "P2P tunnel not found"@ }),
        r matches Ok(row) ==> {
            let p = c.p2p[c.index[id]->P2p_0];
            &&& row.tunnel_id == uuid_form(id) && row.tunnel_name == p.name
            &&& row.publisher_session_id == uuid_form(p.tunnel_info.session_id)
            &&& row.request_count == p.tunnel_info.request_count && row.bytes_proxied
                == p.tunnel_info.bytes_proxied
            &&& row.connected_since == iso_of_instant(p.tunnel_info.created_at, now)
            &&& row.nat_type == p.nat_type
            &&& p.mapped_addrs.len() == 0 ==> row.mapped_addrs is None
            &&& p.mapped_addrs.len() > 0 ==> row.mapped_addrs == Some(p.mapped_addrs)
        },
{
    if names_tunnel(uuid_form(id), None) {
        assert(uuid_form(id) != uuid_form(id));
    }
    let (other, route) = choose|other: u128, route: Option<KeyModel>|
        uuid_form(id) == uuid_form(other) && #[trigger] first_within(c, other, 3, 3, route) && r
            == crate::api::peer_answer(c, scope, route, other, now);
    law_uuid_forms_differ(id, other);
    if let Some(key) = route {
        assert(crate::scope::serves_within(c, key, id, 3, 3));
        assert(c.p2p.contains_key(key->P2p_0));
        assert(c.index[id] == key);
    } else if c.index.contains_key(id) && c.index[id] is P2p {
        assert(serves(c, c.index[id], id));
        assert(crate::scope::serves_within(c, c.index[id], id, 3, 3));
    }
}

// ── lists ────────────────────────────────────────────────────────────────────

/// The place of a kind of route in lists: subdomains come first, then TCP ports, UDP ports and
/// peer-to-peer names.
pub open spec fn place(key: KeyModel) -> int {
    match key {
        KeyModel::Http(_) => 1,
        KeyModel::Tcp(_) => 2,
        KeyModel::Udp(_) => 3,
        KeyModel::P2p(_) => 4,
    }
}

/// Whether `ids` are the tunnels that a caller sees, each once, by kind of route.
pub open spec fn lists_what_is_seen(ids: Seq<u128>, c: CoreModel, scope: ScopeModel) -> bool {
    &&& ids.no_duplicates()
    &&& forall|id: u128| #[trigger] ids.contains(id) <==> is_visible(c, scope, id)
    &&& forall|i: int, j: int|
        0 <= i < j < ids.len() ==> place(c.index[#[trigger] ids[i]]) <= place(
            c.index[#[trigger] ids[j]],
        )
}

/// The list of tunnels has a row for every tunnel that the caller sees and for no other, each
/// once, by kind of route; and each row tells its tunnel as it is.
pub proof fn law_listing_tunnels(
    c: CoreModel,
    scope: ScopeModel,
    region_id: Seq<char>,
    now: Clock,
    rows: Seq<SummaryModel>,
)
    requires
        consistent(c),
        lists_summaries(rows, c, scope, region_id, now),
    ensures
        exists|ids: Seq<u128>| #[trigger]
            lists_what_is_seen(ids, c, scope) && rows.len() == ids.len() && forall|i: int|
                0 <= i < rows.len() ==> tells_tunnel(c, ids[i], region_id, now, #[trigger] rows[i]),
{
    let routes = choose|routes: Seq<(KeyModel, u128)>| #[trigger]
        lists_visible(routes, c, scope, 0, 3) && rows == crate::summary::rows_of(
            routes,
            c,
            region_id,
            now,
        );
    let ids = Seq::new(routes.len(), |i: int| routes[i].1);
    assert forall|i: int| 0 <= i < routes.len() implies routes[i].0 == #[trigger] c.index[ids[i]]
        && c.index.contains_key(ids[i]) && serves(c, c.index[ids[i]], ids[i]) && is_visible(
        c,
        scope,
        ids[i],
    ) by {
        let (key, id) = routes[i];
        assert(routes.contains((key, id)));
        assert(crate::scope::sees_tunnel(c, scope, key, id));
        lemma_served_is_indexed(c, scope, key, id);
    }
    assert(ids.no_duplicates()) by {
        assert forall|i: int, j: int| 0 <= i < ids.len() && 0 <= j < ids.len() && i != j implies
            ids[i] != ids[j] by {
            assert(routes[i].0 == c.index[ids[i]]);
            assert(routes[j].0 == c.index[ids[j]]);
            assert(routes[i] != routes[j]);
        }
    }
    assert forall|id: u128| #[trigger] ids.contains(id) <==> is_visible(c, scope, id) by {
        if ids.contains(id) {
            let i = choose|i: int| 0 <= i < ids.len() && ids[i] == id;
            assert(routes[i].0 == c.index[ids[i]]);
        }
        if is_visible(c, scope, id) {
            let key = c.index[id];
            lemma_visible_is_seen(c, scope, id);
            assert(routes.contains((key, id)));
            let i = choose|i: int| 0 <= i < routes.len() && routes[i] == (key, id);
            assert(ids[i] == id);
        }
    }
    assert forall|i: int, j: int| 0 <= i < j < ids.len() implies place(c.index[#[trigger] ids[i]])
        <= place(c.index[#[trigger] ids[j]]) by {
        assert(routes[i].0 == c.index[ids[i]]);
        assert(routes[j].0 == c.index[ids[j]]);
        assert(crate::scope::rank(routes[i].0) <= crate::scope::rank(routes[j].0));
    }
    assert forall|i: int| 0 <= i < rows.len() implies tells_tunnel(
        c,
        ids[i],
        region_id,
        now,
        #[trigger] rows[i],
    ) by {
        assert(routes[i].0 == c.index[ids[i]]);
        lemma_row(c, ids[i], region_id, now);
    }
    assert(lists_what_is_seen(ids, c, scope));
}

/// A tunnel that is served somewhere, and seen there, is routed there, and visible.
proof fn lemma_served_is_indexed(c: CoreModel, scope: ScopeModel, key: KeyModel, id: u128)
    requires
        consistent(c),
        crate::scope::sees_tunnel(c, scope, key, id),
    ensures
        c.index.contains_key(id),
        c.index[id] == key,
        is_visible(c, scope, id),
{
    if let KeyModel::P2p(name) = key {
        assert(c.p2p.contains_key(name));
    } else {
        assert(crate::router_laws::is_member(c, key, id));
    }
}

/// A tunnel that is visible is seen where it is routed.
proof fn lemma_visible_is_seen(c: CoreModel, scope: ScopeModel, id: u128)
    requires
        consistent(c),
        is_visible(c, scope, id),
    ensures
        c.index.contains_key(id),
        crate::scope::sees_tunnel(c, scope, c.index[id], id),
{
    let key = c.index[id];
    if let KeyModel::P2p(name) = key {
        assert(serves(c, key, id));
    } else {
        assert(crate::router_laws::is_member(c, key, id));
    }
}

/// The entry of a member in a list of groups is what the member is; where its tenant wants to
/// hear of trouble is not told, only whether they do.
pub proof fn law_entries_tell_the_member(c: CoreModel, key: KeyModel, id: u128, now: Clock)
    requires
        behind(c, key) matches Some(g) && g.members.contains_key(id),
    ensures
        ({
            let m = (behind(c, key)->0).members[id];
            let e = member_entry(c, key, id, now);
            &&& e.tunnel_id == uuid_form(m.info.tunnel_id) && e.session_id == uuid_form(
                m.info.session_id,
            )
            &&& e.request_count == m.info.request_count && e.bytes_proxied == m.info.bytes_proxied
            &&& e.healthy == m.healthy && e.consecutive_failures == m.consecutive_failures
                && e.total_health_failures == m.total_health_failures
            &&& e.connected_since == iso_of_instant(m.info.created_at, now)
            &&& e.client_addr == if c.sessions.contains_key(m.info.session_id) {
                c.sessions[m.info.session_id].client_addr
            } else {
                ""@
            }
            &&& m.health_spec is None ==> e.health_check_kind is None && !e.has_alert_webhook
            &&& m.health_spec matches Some(check) ==> (e.has_alert_webhook
                <==> check.alert_webhook_url is Some) && e.health_check_kind == Some(
                match check.kind {
                    HealthCheckKind::Tcp => "tcp"@,
                    HealthCheckKind::Http => "http"@,
                },
            )
        }),
{
}

/// What a row says of a group besides its members: its route, its name, the first eight
/// characters of its key's hash, and what the members that count did together. The healthy
/// count and the unhealthy count are those of the entries.
pub proof fn law_group_rows(
    c: CoreModel,
    key: KeyModel,
    ids: Seq<u128>,
    region_id: Seq<char>,
    now: Clock,
)
    requires
        behind(c, key) is Some,
        ids.len() > 0,
    ensures
        ({
            let g = behind(c, key)->0;
            let row = group_entry(c, key, ids, region_id, now);
            let last = g.members[ids.last()];
            let rest = group_entry(c, key, ids.drop_last(), region_id, now);
            let none = group_entry(c, key, Seq::empty(), region_id, now);
            &&& row.name == g.name && row.region_id == region_id
            &&& match key {
                KeyModel::Http(s) => row.protocol == "http"@ && row.label == s,
                KeyModel::Tcp(p) => row.protocol == "tcp"@ && row.label == decimal(p as nat),
                KeyModel::Udp(p) => row.protocol == "udp"@ && row.label == decimal(p as nat),
                KeyModel::P2p(_) => false,
            }
            &&& g.key_hash matches Some(hash) ==> row.key_hash_short == if hash.len() <= 8 {
                hash
            } else {
                hash.take(8)
            }
            &&& row.member_count == rest.member_count + 1
            &&& row.healthy_count == rest.healthy_count + if last.healthy {
                1nat
            } else {
                0nat
            }
            &&& row.unhealthy_count == rest.unhealthy_count + if last.healthy {
                0nat
            } else {
                1nat
            }
            &&& rest.total_dispatches + last.info.request_count <= u64::MAX ==> row.total_dispatches
                == rest.total_dispatches + last.info.request_count
            &&& rest.total_health_failures + last.total_health_failures <= u64::MAX
                ==> row.total_health_failures == rest.total_health_failures
                + last.total_health_failures
            &&& none.member_count == 0 && none.healthy_count == 0 && none.unhealthy_count == 0
                && none.total_dispatches == 0 && none.total_health_failures == 0
        }),
{
}

/// Whether a caller is shown a group: it is a pool at a subdomain or a TCP port, and they see a
/// member of it.
pub open spec fn is_shown_pool(c: CoreModel, scope: ScopeModel, key: KeyModel) -> bool {
    &&& key is Http || key is Tcp
    &&& behind(c, key) matches Some(g) && g.key_hash is Some && exists|id: u128| #[trigger]
        g.members.contains_key(id) && may_see(c, scope, g.members[id].info.session_id)
}

/// Whether `ids` are the members of the group behind a route that a caller sees, each once.
pub open spec fn lists_seen_members(
    ids: Seq<u128>,
    c: CoreModel,
    scope: ScopeModel,
    key: KeyModel,
) -> bool {
    &&& ids.no_duplicates()
    &&& behind(c, key) matches Some(g) && forall|id: u128| #[trigger]
        ids.contains(id) <==> g.members.contains_key(id) && may_see(
            c,
            scope,
            g.members[id].info.session_id,
        )
}

/// Whether `keys` are the pools that a caller is shown, each once, subdomains before ports.
pub open spec fn lists_shown_pools(keys: Seq<KeyModel>, c: CoreModel, scope: ScopeModel) -> bool {
    &&& keys.no_duplicates()
    &&& forall|key: KeyModel| #[trigger] keys.contains(key) <==> is_shown_pool(c, scope, key)
    &&& forall|i: int, j: int|
        0 <= i < j < keys.len() ==> place(#[trigger] keys[i]) <= place(#[trigger] keys[j])
}

/// Whether a row is that of the group behind a route, with the members that a caller sees and
/// no others.
pub open spec fn is_row_of(
    row: GroupSummaryModel,
    c: CoreModel,
    scope: ScopeModel,
    key: KeyModel,
    region_id: Seq<char>,
    now: Clock,
) -> bool {
    exists|ids: Seq<u128>| #[trigger]
        lists_seen_members(ids, c, scope, key) && row == group_entry(c, key, ids, region_id, now)
            && row.members.len() == ids.len() && forall|i: int|
            0 <= i < ids.len() ==> #[trigger] row.members[i] == member_entry(c, key, ids[i], now)
}

/// The list of groups has a row for every pool at a subdomain or a TCP port that the caller sees
/// a member of, and for no other group; each once, subdomains before ports; and in each row the
/// members that the caller sees count, and no others.
pub proof fn law_listing_groups(
    c: CoreModel,
    scope: ScopeModel,
    region_id: Seq<char>,
    now: Clock,
    rows: Seq<GroupSummaryModel>,
)
    requires
        lists_groups(rows, c, scope, region_id, now),
    ensures
        exists|keys: Seq<KeyModel>| #[trigger]
            lists_shown_pools(keys, c, scope) && rows.len() == keys.len() && forall|i: int|
                0 <= i < rows.len() ==> is_row_of(
                    #[trigger] rows[i],
                    c,
                    scope,
                    keys[i],
                    region_id,
                    now,
                ),
{
    let keys = choose|keys: Seq<KeyModel>| #[trigger]
        lists_pools(keys, c, scope) && rows_fit(rows, keys, c, scope, region_id, now);
    assert forall|key: KeyModel| #[trigger] keys.contains(key) <==> is_shown_pool(c, scope, key) by {
        lemma_pools(c, scope, key);
    }
    assert forall|i: int, j: int| 0 <= i < j < keys.len() implies place(#[trigger] keys[i])
        <= place(#[trigger] keys[j]) by {
        assert(crate::scope::rank(keys[i]) <= crate::scope::rank(keys[j]));
    }
    assert forall|i: int| 0 <= i < rows.len() implies is_row_of(
        #[trigger] rows[i],
        c,
        scope,
        keys[i],
        region_id,
        now,
    ) by {
        let key = keys[i];
        assert(keys.contains(key));
        lemma_pools(c, scope, key);
        let ids = choose|ids: Seq<u128>| #[trigger]
            crate::scope::lists_seen(ids, c, scope, key) && Some(rows[i]) == if ids.len() == 0 {
                None
            } else {
                Some(group_entry(c, key, ids, region_id, now))
            };
        assert forall|id: u128| #[trigger] ids.contains(id) <==> (behind(
            c,
            key,
        )->0).members.contains_key(id) && may_see(
            c,
            scope,
            (behind(c, key)->0).members[id].info.session_id,
        ) by {
            assert(ids.contains(id) <==> crate::scope::sees_tunnel(c, scope, key, id));
        }
        assert(lists_seen_members(ids, c, scope, key));
    }
    assert(lists_shown_pools(keys, c, scope));
}

/// Which groups are shown.
proof fn lemma_pools(c: CoreModel, scope: ScopeModel, key: KeyModel)
    ensures
        crate::summary::sees_pool(c, scope, key) <==> is_shown_pool(c, scope, key),
{
    if crate::summary::sees_pool(c, scope, key) {
        let id = choose|id: u128| crate::scope::sees_tunnel(c, scope, key, id);
        assert((behind(c, key)->0).members.contains_key(id));
    }
    if is_shown_pool(c, scope, key) {
        let g = behind(c, key)->0;
        let id = choose|id: u128| #[trigger]
            g.members.contains_key(id) && may_see(c, scope, g.members[id].info.session_id);
        assert(crate::scope::sees_tunnel(c, scope, key, id));
    }
}

// ── following a group ────────────────────────────────────────────────────────

/// Only HTTP and TCP groups can be followed: one by its subdomain, the other by its port.
pub proof fn law_what_can_be_followed(protocol: Seq<char>, label: Seq<char>, port: u16)
    ensures
        stream_route("http"@, label) == Some(KeyModel::Http(label)),
        stream_route("tcp"@, decimal(port as nat)) == Some(KeyModel::Tcp(port)),
        protocol != "http"@ && protocol != "tcp"@ ==> stream_route(protocol, label) is None,
{
    reveal_strlit("http");
    reveal_strlit("tcp");
    assert("http"@.len() != "tcp"@.len());
    law_numerals_are_read_back(port as nat, 65535);
}

/// The operator may follow any group; anyone else may follow one that they see a member of, and
/// is told of any other that it is not there.
pub proof fn law_who_may_follow(
    c: CoreModel,
    scope: ScopeModel,
    protocol: Seq<char>,
    label: Seq<char>,
    id: u128,
)
    requires
        consistent(c),
    ensures
        scope is Admin ==> follow_answer(c, scope, protocol, label) is Ok,
        is_visible(c, scope, id) && stream_route(protocol, label) == Some(c.index[id])
            ==> follow_answer(c, scope, protocol, label) is Ok,
        follow_answer(c, scope, protocol, label) matches Ok(_) ==> scope is Admin || exists|x: u128|
         #[trigger]
            is_visible(c, scope, x) && stream_route(protocol, label) == Some(c.index[x]),
        follow_answer(c, scope, protocol, label) matches Err(e) ==> e == (ApiErrorModel {
            status: 404,
            error: "group not found"@,
        }),
{
    if is_visible(c, scope, id) && stream_route(protocol, label) == Some(c.index[id]) {
        lemma_visible_is_seen(c, scope, id);
    }
    if !(scope is Admin) && follow_answer(c, scope, protocol, label) is Ok {
        let key = stream_route(protocol, label)->0;
        let x = choose|x: u128| crate::scope::sees_tunnel(c, scope, key, x);
        lemma_served_is_indexed(c, scope, key, x);
    }
}

/// Who follows a group is sent every event of that group on a tunnel that they see, as it is
/// written, and nothing else but how many events they missed. The operator is sent those of
/// tunnels that are gone, too.
pub proof fn law_what_followers_are_sent(
    c: CoreModel,
    scope: ScopeModel,
    protocol: Seq<char>,
    label: Seq<char>,
    news: GroupNews<'_>,
    r: Option<SseItem>,
)
    requires
        consistent(c),
        is_sent(c, scope, protocol, label, news, r),
    ensures
        news matches GroupNews::Lagged(n) ==> (r matches Some(item) && item@.event == "lagged"@
            && item@.data == decimal(n as nat)),
        news matches GroupNews::Event { event, payload } ==> {
            &&& r is Some <==> payload is Some && event@.protocol == protocol && event@.label
                == label && (scope is Admin || is_visible(c, scope, event@.tunnel_id))
            &&& r matches Some(item) ==> item@.event == "group_event"@ && item@.data
                == (payload->0)@
        },
{
    if let GroupNews::Event { event, payload } = news {
        let id = event@.tunnel_id;
        if payload is Some && event@.protocol == protocol && event@.label == label && !(
        scope is Admin) {
            let told = r is Some;
            assert(crate::api::is_told(c, scope, protocol, label, event@, told));
            let route = choose|route: Option<KeyModel>| #[trigger]
                first_route(c, id, route) && told == crate::api::sees_at(c, scope, route, id);
            lemma_found(c, scope, id, route);
        }
    }
}

/// A quiet stream is kept alive every half minute.
pub proof fn law_quiet_streams()
    ensures
        SSE_KEEP_ALIVE_SECS == 30,
        SSE_KEEP_ALIVE_TEXT@ == "keep-alive"@,
{
}

// ── users and tokens ─────────────────────────────────────────────────────────

/// A user can be made active, banned or suspended, and nothing else; a text that names no user
/// is answered so.
pub proof fn law_user_changes(status: Seq<char>, read: Option<u128>)
    ensures
        is_user_status(status) <==> status == "active"@ || status == "banned"@ || status
            == "suspended"@,
        bad_status().status == 400,
        bad_status().error == "status must be one of: active, banned, suspended"@,
        user_named(read) is Ok <==> read is Some,
        read matches Some(id) ==> user_named(read) == Ok::<u128, ApiErrorModel>(id),
        user_named(read) matches Err(e) ==> e == (ApiErrorModel {
            status: 404,
            error: "invalid user id"@,
        }),
{
}

/// Between one day and a year of sign-ups are shown: as many days as are asked for where that is
/// within, and the nearer end where it is not.
pub proof fn law_sign_up_days(days: i64, more: i64)
    ensures
        1 <= shown_days(days) <= 365,
        1 <= days <= 365 ==> shown_days(days) == days,
        days <= more ==> shown_days(days) <= shown_days(more),
{
}

/// What is written down of a deleted token names it, and says whether the operator did it; a
/// token that was not there is answered so, and nothing is written down.
pub proof fn law_deleting_tokens(deleted: bool, id: Seq<char>, admin: bool)
    ensures
        deletion_answer(deleted, id, admin) is Ok <==> deleted,
        deletion_answer(deleted, id, admin) matches Ok(a) ==> a == (TokenAuditModel::Deleted {
            token_id: id,
            admin,
        }),
        deletion_answer(deleted, id, admin) matches Err(e) ==> e == (ApiErrorModel {
            status: 404,
            error: "token not found"@,
        }),
{
}

/// A path becomes the address of a store by a word in front, unless it is one already; so doing
/// it again changes nothing.
pub proof fn law_store_addresses(path: Seq<char>)
    ensures
        store_url(store_url(path)) == store_url(path),
        store_url(":memory:"@) == ":memory:"@,
        store_url("sqlite:"@ + path) == "sqlite:"@ + path,
        path.len() < 7 ==> store_url(path) == "sqlite:"@ + path,
        path.len() > 0 && path[0] == '/' ==> store_url(path) == "sqlite:"@ + path,
{
    reveal_strlit("sqlite:");
    reveal_strlit(":memory:");
    assert(("sqlite:"@ + path).take(7) =~= "sqlite:"@);
    if path.len() >= 7 {
        assert(path.take(7)[0] == path[0]);
    }
}

/// Only one who shows the operator's own token claims to be the operator; no token claims it.
pub proof fn law_claims_to_be_the_operator(token: Seq<char>, admin_token: Seq<char>)
    ensures
        claims_admin(Some(admin_token), admin_token),
        !claims_admin(None, admin_token),
        admin_claim(Some(token)) == token,
        admin_claim(None) == ""@,
{
}

/// How many tunnels are live: the members of the groups at subdomains and TCP ports, each once;
/// UDP tunnels and publishers do not count.
pub proof fn law_live_tunnels(c: CoreModel, n: nat)
    requires
        live_count(c, n),
    ensures
        exists|list: Seq<(KeyModel, u128)>| #[trigger] lists_live(list, c) && list.len() == n,
{
    let routes = choose|routes: Seq<(KeyModel, u128)>| #[trigger]
        lists_visible(routes, c, ScopeModel::Admin, 0, 1) && routes.len() == n;
    assert forall|key: KeyModel, id: u128| #[trigger] routes.contains((key, id)) <==> (key is Http
        || key is Tcp) && (behind(c, key) matches Some(g) && g.members.contains_key(id)) by {
        assert(routes.contains((key, id)) <==> crate::scope::sees_tunnel(
            c,
            ScopeModel::Admin,
            key,
            id,
        ) && 0 <= crate::scope::rank(key) <= 1);
    }
    assert(lists_live(routes, c));
}

/// Whether `list` holds every member of a group at a subdomain or a TCP port, each once.
pub open spec fn lists_live(list: Seq<(KeyModel, u128)>, c: CoreModel) -> bool {
    &&& list.no_duplicates()
    &&& forall|key: KeyModel, id: u128| #[trigger]
        list.contains((key, id)) <==> (key is Http || key is Tcp) && (behind(c, key) matches Some(
            g,
        ) && g.members.contains_key(id))
}

/// A new token starts with a fixed word and differs with the id that it is made of. What is kept
/// is its digest in place of the token, the label and the scope that were asked for; it is good
/// from the start, and its plan limits it.
pub proof fn law_new_tokens(
    label: Seq<char>,
    scope: Option<Seq<char>>,
    id: u128,
    secret: u128,
    other: u128,
)
    ensures
        ({
            let t = token_record(label, scope, id, secret);
            &&& t.id == uuid_form(id) && t.label == label && t.scope == scope
            &&& t.status == "active"@ && !t.unlimited
            &&& t.token_hash == token_hash(raw_token(secret))
        }),
        raw_token(secret).take(8) == "rt_live_"@,
        raw_token(secret).len() == 44,
        raw_token(secret) == raw_token(other) ==> secret == other,
{
    reveal_strlit("rt_live_");
    assert(raw_token(secret).take(8) =~= "rt_live_"@);
    assert(raw_token(secret).skip(8) =~= uuid_form(secret));
    assert(raw_token(other).skip(8) =~= uuid_form(other));
    if raw_token(secret) == raw_token(other) {
        law_uuid_forms_differ(secret, other);
    }
}

/// What is kept of a new token fits the token: its hash is that of the very token that is shown,
/// and the label and the scope are those asked for.
pub proof fn law_records_fit_their_tokens(
    label: Seq<char>,
    scope: Option<Seq<char>>,
    record: NewTokenModel,
    raw: Seq<char>,
    same: Seq<char>,
)
    requires
        is_new_token(label, scope, record, raw),
    ensures
        record.token_hash == token_hash(raw),
        same_secret(same, raw) ==> record.token_hash == token_hash(same),
        record.label == label && record.scope == scope && record.status == "active"@
            && !record.unlimited,
        raw.len() == 44 && raw.take(8) == "rt_live_"@,
        record.id.len() == 36,
{
    let (id, secret) = choose|id: u128, secret: u128|
        is_random_uuid(id) && is_random_uuid(secret) && record == #[trigger] token_record(
            label,
            scope,
            id,
            secret,
        ) && raw == raw_token(secret);
    law_new_tokens(label, scope, id, secret, secret);
}

/// The list of users is in the order that a word asks for: the newest first, the most recently
/// active first, or by address; no other word names an order.
pub proof fn law_orders_of_users(word: Seq<char>)
    ensures
        sort_named("created"@) == Some(AdminUserSort::Created),
        sort_named("last_active"@) == Some(AdminUserSort::LastActive),
        sort_named("email"@) == Some(AdminUserSort::Email),
        word != "created"@ && word != "last_active"@ && word != "email"@ ==> sort_named(word)
            is None,
        order_clause(AdminUserSort::Created) == "ORDER BY u.created_at DESC"@,
        order_clause(AdminUserSort::LastActive)
            == "ORDER BY tc.last_active_at DESC NULLS LAST, u.created_at DESC"@,
        order_clause(AdminUserSort::Email) == "ORDER BY u.email ASC"@,
{
    reveal_strlit("created");
    reveal_strlit("last_active");
    reveal_strlit("email");
    assert("created"@.len() == 7 && "last_active"@.len() == 11 && "email"@.len() == 5);
}

/// The query for a page of users ends with the order that was asked for and the page.
pub proof fn law_pages_of_users(sort: AdminUserSort)
    ensures
        ({
            let q = users_query(sort);
            let end = " "@ + order_clause(sort) + " LIMIT $6 OFFSET $7"@;
            q.len() >= end.len() && q.skip(q.len() - end.len()) == end
        }),
{
    let q = users_query(sort);
    let end = " "@ + order_clause(sort) + " LIMIT $6 OFFSET $7"@;
    assert(q.skip(q.len() - end.len()) =~= end);
}

/// The history is sorted by how long tunnels lasted, by protocol or, where the word is neither,
/// by when they started; upwards where that is asked for, and otherwise downwards.
pub proof fn law_orders_of_the_history(by: Seq<char>, dir: Seq<char>)
    ensures
        history_column("duration"@) == "COALESCE(tl.unregistered_at, now()) - tl.registered_at"@,
        history_column("protocol"@) == "tl.protocol"@,
        by != "duration"@ && by != "protocol"@ ==> history_column(by) == "tl.registered_at"@,
        history_direction("asc"@) == "ASC"@,
        dir != "asc"@ ==> history_direction(dir) == "DESC"@,
{
    reveal_strlit("duration");
    reveal_strlit("protocol");
    assert("duration"@[0] != "protocol"@[0]);
}

} // verus!
