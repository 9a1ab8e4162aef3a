//! The dashboard's interface: who may ask, and what each request is answered.
use crate::auth::{same_secret, secret_eq};
use crate::clock::{iso_of_instant, iso_of_unix, instant_to_iso, unix_to_iso, Clock};
use crate::group::{GroupEvent, GroupEventModel, TunnelGroup};
use crate::headers::{field_text, header_table, header_text};
use crate::ids::{parse_uuid, uuid_form, uuid_of_text, uuid_text};
use crate::router::{TunnelCore, TunnelKey};
use crate::router_laws::{consistent, is_member, member_at};
use crate::router_model::{tunnel_at, tunnel_removed, CoreModel, KeyModel};
use crate::router_ops::member_of;
use crate::scope::{
    find_tunnel_owning_session, first_route, first_within, info_at, opt_key, owner_at,
    scope_sees_session, seen_at, sees, sees_session, sees_tunnel, serves, AuthScope, ScopeModel,
};
use crate::session::{TokenFacts, TokenModel, THROTTLED};
use crate::summary::{
    mapped_addrs_of, opt_texts, publisher, shown_addrs, summarize, summary_at, SummaryModel,
    TunnelSummary,
};
use crate::table::table_view;
use crate::text::{
    chars_of, decimal, decimal_text, number_in, opt_text, opt_text_clone, parse_number, text_eq,
    text_of,
};
use crate::tunnel::{health_events, GroupMember, HealthEvent, HealthEventModel, TunnelInfo};
use hyper::HeaderMap;
use vstd::prelude::*;
use vstd::string::*;

verus! {

// ── refusals ─────────────────────────────────────────────────────────────────

/// A refusal: a status and a message.
#[derive(Debug)]
pub struct ApiError {
    pub status: u16,
    pub error: String,
}

/// The view of an [`ApiError`].
#[verifier::ext_equal]
pub struct ApiErrorModel {
    pub status: u16,
    pub error: Seq<char>,
}

impl View for ApiError {
    type V = ApiErrorModel;

    open spec fn view(&self) -> ApiErrorModel {
        ApiErrorModel { status: self.status, error: self.error@ }
    }
}

/// The refusal of one who has not shown who they are.
pub open spec fn unauthorized_error(message: Seq<char>) -> ApiErrorModel {
    ApiErrorModel { status: 401, error: message }
}

/// The refusal of what is not there, or not to be seen.
pub open spec fn not_found_error(message: Seq<char>) -> ApiErrorModel {
    ApiErrorModel { status: 404, error: message }
}

/// The refusal of one who has not shown who they are.
pub fn unauthorized(message: &str) -> (r: ApiError)
    ensures
        r@ == unauthorized_error(message@),
{
    ApiError { status: 401, error: message.to_owned() }
}

/// The refusal of what is not there, or not to be seen.
pub fn not_found(message: &str) -> (r: ApiError)
    ensures
        r@ == not_found_error(message@),
{
    ApiError { status: 404, error: message.to_owned() }
}

/// The refusal where the database failed, with what it said.
pub fn db_failure(message: String) -> (r: ApiError)
    ensures
        r@ == (ApiErrorModel { status: 500, error: message@ }),
{
    ApiError { status: 500, error: message }
}

/// The view of an answer that carries nothing.
pub open spec fn done(r: Result<(), ApiError>) -> Result<(), ApiErrorModel> {
    match r {
        Ok(()) => Ok(()),
        Err(e) => Err(e@),
    }
}

/// An answer that depends on whether a row was there.
pub fn found_or(found: bool, message: &str) -> (r: Result<(), ApiError>)
    ensures
        done(r) == if found {
            Ok(())
        } else {
            Err(not_found_error(message@))
        },
{
    if found {
        Ok(())
    } else {
        Err(not_found(message))
    }
}

// ── who asks ─────────────────────────────────────────────────────────────────

/// The token in an `Authorization` field of the form `Bearer <token>`.
pub open spec fn bearer_in(field: Option<Seq<char>>) -> Option<Seq<char>> {
    match field {
        Some(text) => if text.len() >= 7 && text.take(7) == "Bearer "@ {
            Some(text.skip(7))
        } else {
            None
        },
        None => None,
    }
}

/// The token that a request carries, if any.
pub open spec fn bearer_of(headers: HeaderMap) -> Option<Seq<char>> {
    bearer_in(field_text(header_table(headers), "authorization"@))
}

/// The token in the text of an `Authorization` field.
pub fn bearer_token(field: Option<String>) -> (r: Option<String>)
    ensures
        opt_text(r) == bearer_in(opt_text(field)),
{
    let text: Vec<char> = match &field {
        Some(s) => chars_of(s.as_str()),
        None => {
            return None;
        },
    };
    if text.len() < 7 {
        return None;
    }
    let head: String = text_of(&text, 0, 7);
    assert(text@.subrange(0, 7) =~= text@.take(7));
    if !text_eq(head.as_str(), "Bearer ") {
        return None;
    }
    let rest: String = text_of(&text, 7, text.len());
    assert(text@.subrange(7, text@.len() as int) =~= text@.skip(7));
    Some(rest)
}

/// The token that a request carries, if any.
pub fn request_token(headers: &HeaderMap) -> (r: Option<String>)
    ensures
        opt_text(r) == bearer_of(*headers),
{
    bearer_token(header_text(headers, "authorization"))
}

/// A caller turned away: what they are answered, and whether this is a failed attempt, to be
/// filed against their address.
#[derive(Debug)]
pub struct Refusal {
    pub error: ApiError,
    pub failed: bool,
}

/// Whether `r` turns a caller away with `error`, as a failed attempt or not.
pub open spec fn refuses(r: Refusal, error: ApiErrorModel, failed: bool) -> bool {
    r.error@ == error && r.failed == failed
}

/// The refusal of one whose address has used up its budget of failed attempts.
pub open spec fn throttled_error() -> ApiErrorModel {
    ApiErrorModel { status: 429, error: THROTTLED@ }
}

/// Turns a caller away whose address has used up its budget of failed attempts. That counts no
/// further.
fn refuse_throttled() -> (r: Refusal)
    ensures
        refuses(r, throttled_error(), false),
{
    Refusal { error: ApiError { status: 429, error: THROTTLED.to_owned() }, failed: false }
}

/// What is known of a caller before the database is asked.
#[derive(Debug)]
pub enum AuthCheck {
    /// Turned away.
    Refused(Refusal),
    /// Let in.
    Known(AuthScope),
    /// The database has to say what token this is.
    LookUp(String),
}

/// Whether a token is there and is the operator's, as far as their digests tell.
pub open spec fn claims_admin(token: Option<Seq<char>>, admin_token: Seq<char>) -> bool {
    token is Some && same_secret(token->0, admin_token)
}

/// Whether a token is there and is the operator's.
fn shows_admin_token(token: &Option<String>, admin_token: &str) -> (r: bool)
    ensures
        r == claims_admin(opt_text(*token), admin_token@),
{
    match token {
        Some(t) => secret_eq(t.as_str(), admin_token),
        None => false,
    }
}

/// What is known of the caller with a token before the database is asked. `limited` says
/// whether their address has used up its budget of failed attempts, `admin` whether the token
/// is the operator's. One who shows no token has failed at nothing.
pub open spec fn auth_checked(
    token: Option<Seq<char>>,
    limited: bool,
    admin: bool,
    r: AuthCheck,
) -> bool {
    if limited {
        r matches AuthCheck::Refused(e) && refuses(e, throttled_error(), false)
    } else if token is None || token->0 == Seq::<char>::empty() {
        r matches AuthCheck::Refused(e) && refuses(e, unauthorized_error("missing token"@), false)
    } else if admin {
        r matches AuthCheck::Known(s) && s@ == ScopeModel::Admin
    } else {
        r matches AuthCheck::LookUp(t) && t@ == token->0
    }
}

/// What is known of the caller with a token before the database is asked. `limited` says
/// whether their address has used up its budget of failed attempts, `admin` whether the token
/// is the operator's.
pub fn check_token(token: Option<String>, limited: bool, admin: bool) -> (r: AuthCheck)
    ensures
        auth_checked(opt_text(token), limited, admin, r),
{
    if limited {
        return AuthCheck::Refused(refuse_throttled());
    }
    let missing = Refusal { error: unauthorized("missing token"), failed: false };
    match token {
        None => AuthCheck::Refused(missing),
        Some(t) => {
            if text_eq(t.as_str(), "") {
                proof {
                    reveal_strlit("");
                    assert(t@ =~= Seq::<char>::empty());
                }
                return AuthCheck::Refused(missing);
            }
            proof {
                reveal_strlit("");
                if t@ == Seq::<char>::empty() {
                    assert(t@ =~= ""@);
                }
            }
            if admin {
                return AuthCheck::Known(AuthScope::Admin);
            }
            AuthCheck::LookUp(t)
        },
    }
}

/// What is known of a caller before the database is asked. Where `limited`, their token is
/// compared with no other.
pub fn require_auth(headers: &HeaderMap, admin_token: &str, limited: bool) -> (r: AuthCheck)
    ensures
        auth_checked(
            bearer_of(*headers),
            limited,
            claims_admin(bearer_of(*headers), admin_token@),
            r,
        ),
{
    if limited {
        return AuthCheck::Refused(refuse_throttled());
    }
    let token: Option<String> = request_token(headers);
    let admin: bool = shows_admin_token(&token, admin_token);
    check_token(token, limited, admin)
}

/// The scope of a token of the database.
pub open spec fn token_scope(t: TokenModel) -> ScopeModel {
    match t.user_id {
        Some(user) => ScopeModel::User(user),
        None => ScopeModel::Token(t.id),
    }
}

/// The view of what the database said of a token.
pub open spec fn opt_facts(found: Option<TokenFacts>) -> Option<TokenModel> {
    match found {
        Some(t) => Some(t@),
        None => None,
    }
}

/// `r` is what becomes of a caller by what the database said of their token.
pub open spec fn token_judged(found: Option<TokenModel>, r: Result<AuthScope, Refusal>) -> bool {
    match found {
        Some(t) => r matches Ok(s) && s@ == token_scope(t),
        None => r matches Err(e) && refuses(e, unauthorized_error("invalid token"@), true),
    }
}

/// What the caller is, by what the database said of their token: that of its user, or of the
/// token alone where it has no user. A token that is not there, or could not be looked up, is
/// none, and a failed attempt.
pub fn scope_of_token(found: Option<TokenFacts>) -> (r: Result<AuthScope, Refusal>)
    ensures
        token_judged(opt_facts(found), r),
{
    match found {
        Some(t) => match t.user_id {
            Some(user) => Ok(AuthScope::User(user)),
            None => Ok(AuthScope::Token(t.id)),
        },
        None => Err(Refusal { error: unauthorized("invalid token"), failed: true }),
    }
}

/// Whether the token that a request carries is the operator's. Where `limited`, the caller's
/// address has used up its budget of failed attempts: their token is not compared, and does
/// not count.
pub fn is_admin_request(headers: &HeaderMap, admin_token: &str, limited: bool) -> (r: bool)
    ensures
        r == (!limited && claims_admin(bearer_of(*headers), admin_token@)),
{
    if limited {
        return false;
    }
    let token: Option<String> = request_token(headers);
    shows_admin_token(&token, admin_token)
}

/// The token that counts for the operator's own requests: none at all reads as empty.
pub open spec fn admin_claim(token: Option<Seq<char>>) -> Seq<char> {
    match token {
        Some(t) => t,
        None => ""@,
    }
}

/// What becomes of a caller at the operator's own requests: the operator is let in, and
/// everyone else turned away. `shown` says whether there is a token at all, without which
/// nobody has failed at anything.
pub open spec fn admin_checked(
    limited: bool,
    admin: bool,
    shown: bool,
    r: Result<(), Refusal>,
) -> bool {
    if limited {
        r matches Err(e) && refuses(e, throttled_error(), false)
    } else if admin {
        r is Ok
    } else {
        r matches Err(e) && refuses(e, unauthorized_error("admin token required"@), shown)
    }
}

/// Lets the operator in and turns everyone else away. `limited` says whether the caller's
/// address has used up its budget of failed attempts, `admin` whether it is the operator, and
/// `shown` whether there is a token at all.
pub fn admit_admin(limited: bool, admin: bool, shown: bool) -> (r: Result<(), Refusal>)
    ensures
        admin_checked(limited, admin, shown, r),
{
    if limited {
        Err(refuse_throttled())
    } else if admin {
        Ok(())
    } else {
        Err(Refusal { error: unauthorized("admin token required"), failed: shown })
    }
}

/// Lets the operator in and turns everyone else away. Where `limited`, the caller's token is
/// not compared with the operator's.
pub fn require_admin(headers: &HeaderMap, admin_token: &str, limited: bool) -> (r: Result<
    (),
    Refusal,
>)
    ensures
        admin_checked(
            limited,
            same_secret(admin_claim(bearer_of(*headers)), admin_token@),
            bearer_of(*headers) is Some,
            r,
        ),
{
    if limited {
        return Err(refuse_throttled());
    }
    let (claim, shown): (String, bool) = match request_token(headers) {
        Some(t) => (t, true),
        None => ("".to_owned(), false),
    };
    admit_admin(limited, secret_eq(claim.as_str(), admin_token), shown)
}

// ── one tunnel ───────────────────────────────────────────────────────────────

/// `id` is the tunnel that a text names in the form in which tunnels are shown; `None` where
/// it names none.
pub open spec fn names_tunnel(text: Seq<char>, id: Option<u128>) -> bool {
    match id {
        Some(id) => text == uuid_form(id),
        None => forall|id: u128| text != #[trigger] uuid_form(id),
    }
}

/// The id that a text shows.
fn shown_id(text: &str) -> (r: Option<u128>)
    ensures
        names_tunnel(text@, r),
{
    match parse_uuid(text) {
        Some(id) => {
            if text_eq(uuid_text(id).as_str(), text) {
                Some(id)
            } else {
                None
            }
        },
        None => None,
    }
}

/// What a caller is answered who asks for the tunnel that is first found at `route`.
pub open spec fn tunnel_answer(
    c: CoreModel,
    scope: ScopeModel,
    route: Option<KeyModel>,
    id: u128,
    region_id: Seq<char>,
    now: Clock,
) -> Result<SummaryModel, ApiErrorModel> {
    match route {
        Some(key) => if sees_tunnel(c, scope, key, id) {
            Ok(summary_at(c, key, id, region_id, now))
        } else {
            Err(not_found_error("tunnel not found"@))
        },
        None => Err(not_found_error("tunnel not found"@)),
    }
}

/// `r` is what a caller is answered who asks for the tunnel that a text names.
pub open spec fn answers_tunnel(
    c: CoreModel,
    scope: ScopeModel,
    text: Seq<char>,
    region_id: Seq<char>,
    now: Clock,
    r: Result<SummaryModel, ApiErrorModel>,
) -> bool {
    ||| names_tunnel(text, None) && r == Err::<SummaryModel, ApiErrorModel>(
        not_found_error("tunnel not found"@),
    )
    ||| exists|id: u128, route: Option<KeyModel>|
        text == uuid_form(id) && #[trigger] first_route(c, id, route) && r == tunnel_answer(
            c,
            scope,
            route,
            id,
            region_id,
            now,
        )
}

/// The view of an answer with a row.
pub open spec fn row_answer(r: Result<TunnelSummary, ApiError>) -> Result<
    SummaryModel,
    ApiErrorModel,
> {
    match r {
        Ok(s) => Ok(s@),
        Err(e) => Err(e@),
    }
}

/// The row of one tunnel, on a clock reading that the caller supplies. A tunnel that the
/// asker does not see is answered like one that is not there.
pub fn get_tunnel_with(
    core: &TunnelCore,
    scope: &AuthScope,
    id: &str,
    region_id: &str,
    now: Clock,
) -> (r: Result<TunnelSummary, ApiError>)
    ensures
        answers_tunnel(core@, scope@, id@, region_id@, now, row_answer(r)),
{
    let tunnel_id: u128 = match shown_id(id) {
        Some(x) => x,
        None => {
            return Err(not_found("tunnel not found"));
        },
    };
    let route: Option<TunnelKey> = core.find_route(&tunnel_id);
    assert(first_route(core@, tunnel_id, opt_key(route)));
    match &route {
        Some(key) => {
            if let Some(owner) = core.session_at(key, &tunnel_id) {
                if scope_sees_session(core, scope, &owner) {
                    if let Some(row) = summarize(core, key, &tunnel_id, region_id, now) {
                        return Ok(row);
                    }
                }
            }
            Err(not_found("tunnel not found"))
        },
        None => Err(not_found("tunnel not found")),
    }
}

/// The row of one tunnel. A tunnel that the asker does not see is answered like one that is
/// not there.
pub fn get_tunnel(core: &TunnelCore, scope: &AuthScope, id: &str, region_id: &str) -> (r: Result<
    TunnelSummary,
    ApiError,
>)
    ensures
        exists|now: Clock| answers_tunnel(core@, scope@, id@, region_id@, now, row_answer(r)),
{
    let now: Clock = core.clock();
    get_tunnel_with(core, scope, id, region_id, now)
}

/// Whether a caller sees the tunnel `id` that is first found at `route`.
pub open spec fn sees_at(c: CoreModel, scope: ScopeModel, route: Option<KeyModel>, id: u128) -> bool {
    match owner_at(c, route, id) {
        Some(owner) => sees_session(c, scope, owner),
        None => false,
    }
}

/// `r` is what a caller is answered who closes the tunnel that a text reads as, and `after` is
/// the core then. The operator is not told whether it was there.
pub open spec fn closes_tunnel(
    before: CoreModel,
    after: CoreModel,
    scope: ScopeModel,
    read: Option<u128>,
    r: Result<(), ApiErrorModel>,
) -> bool {
    match read {
        None => after == before && r == Err::<(), ApiErrorModel>(
            not_found_error("invalid tunnel id"@),
        ),
        Some(id) => if scope is Admin {
            after == tunnel_removed(before, id) && r is Ok
        } else {
            exists|route: Option<KeyModel>| #[trigger]
                first_route(before, id, route) && if sees_at(before, scope, route, id) {
                    after == tunnel_removed(before, id) && r is Ok
                } else {
                    after == before && r == Err::<(), ApiErrorModel>(
                        not_found_error("tunnel not found"@),
                    )
                }
        },
    }
}

/// Closes the tunnel of an id, or not, for a caller.
pub fn close_tunnel(core: &mut TunnelCore, scope: &AuthScope, read: Option<u128>) -> (r: Result<
    (),
    ApiError,
>)
    ensures
        closes_tunnel(old(core)@, final(core)@, scope@, read, done(r)),
{
    let tunnel_id: u128 = match read {
        Some(x) => x,
        None => {
            return Err(not_found("invalid tunnel id"));
        },
    };
    if scope.is_admin() {
        core.remove_tunnel(&tunnel_id);
        return Ok(());
    }
    let owner: Option<u128> = find_tunnel_owning_session(core, &tunnel_id);
    let visible: bool = match owner {
        Some(session) => scope_sees_session(core, scope, &session),
        None => false,
    };
    if !visible {
        return Err(not_found("tunnel not found"));
    }
    core.remove_tunnel(&tunnel_id);
    Ok(())
}

/// Closes a tunnel for a caller, if they see it. The operator may close what is not there.
pub fn force_close_tunnel(core: &mut TunnelCore, scope: &AuthScope, id: &str) -> (r: Result<
    (),
    ApiError,
>)
    ensures
        forall|x: u128| #[trigger] uuid_form(x) == id@ ==> uuid_of_text(id@) == Some(x),
        closes_tunnel(old(core)@, final(core)@, scope@, uuid_of_text(id@), done(r)),
{
    close_tunnel(core, scope, parse_uuid(id))
}

// ── the health of one tunnel ─────────────────────────────────────────────────

/// A row of a tunnel's health history.
#[derive(Debug)]
pub struct HealthEventRow {
    pub at: String,
    pub healthy: bool,
    pub reason: String,
}

/// The view of a [`HealthEventRow`].
#[verifier::ext_equal]
pub struct HealthRowModel {
    pub at: Seq<char>,
    pub healthy: bool,
    pub reason: Seq<char>,
}

impl View for HealthEventRow {
    type V = HealthRowModel;

    open spec fn view(&self) -> HealthRowModel {
        HealthRowModel { at: self.at@, healthy: self.healthy, reason: self.reason@ }
    }
}

/// The row of a transition.
pub open spec fn health_row(e: HealthEventModel) -> HealthRowModel {
    HealthRowModel { at: iso_of_unix(e.at), healthy: e.healthy, reason: e.reason }
}

/// The view of an answer with a history.
pub open spec fn history_answer(r: Result<Vec<HealthEventRow>, ApiError>) -> Result<
    Seq<HealthRowModel>,
    ApiErrorModel,
> {
    match r {
        Ok(rows) => Ok(rows@.map_values(|row: HealthEventRow| row@)),
        Err(e) => Err(e@),
    }
}

/// What a caller is answered who asks for the history of the tunnel `id` that is first found
/// at `route`. Peer-to-peer tunnels have none.
pub open spec fn health_answer(c: CoreModel, scope: ScopeModel, route: Option<KeyModel>, id: u128) -> Result<
    Seq<HealthRowModel>,
    ApiErrorModel,
> {
    match route {
        Some(key) => if sees_tunnel(c, scope, key, id) && !(key is P2p) {
            Ok(member_at(c, key, id).health_events.map_values(|e: HealthEventModel| health_row(e)))
        } else {
            Err(not_found_error("tunnel not found"@))
        },
        None => Err(not_found_error("tunnel not found"@)),
    }
}

/// `r` is what a caller is answered who asks for the history of the tunnel that a text reads
/// as.
pub open spec fn answers_health(
    c: CoreModel,
    scope: ScopeModel,
    read: Option<u128>,
    r: Result<Seq<HealthRowModel>, ApiErrorModel>,
) -> bool {
    match read {
        None => r == Err::<Seq<HealthRowModel>, ApiErrorModel>(
            not_found_error("invalid tunnel id"@),
        ),
        Some(id) => exists|route: Option<KeyModel>| #[trigger]
            first_route(c, id, route) && r == health_answer(c, scope, route, id),
    }
}

/// `x` is the history of the member `id` of `g`.
pub open spec fn history_in(
    g: crate::group::GroupModel,
    id: u128,
    x: Option<Vec<HealthEvent>>,
) -> bool {
    &&& x is Some <==> g.members.contains_key(id)
    &&& x is Some ==> health_events((x->0)@) == g.members[id].health_events
}

impl TunnelGroup {
    /// The history of the member `id`.
    fn member_history(&self, id: &u128) -> (r: Option<Vec<HealthEvent>>)
        ensures
            history_in(self@, *id, r),
    {
        table_view(
            &self.members,
            id,
            |m: &GroupMember| -> (x: Vec<HealthEvent>) ensures health_events(x@) == m@.health_events { m.health_events_snapshot() },
        )
    }
}

/// The history of the tunnel `id` at a key, oldest transition first. `None` where it is not
/// served there, and for publishers.
pub fn find_member_health_events(core: &TunnelCore, key: &TunnelKey, id: &u128) -> (r: Option<
    Vec<HealthEvent>,
>)
    ensures
        r is Some <==> !(key@ is P2p) && is_member(core@, key@, *id),
        r matches Some(events) ==> health_events(events@) == member_at(core@, key@, *id).health_events,
{
    let found: Option<Option<Vec<HealthEvent>>> = match key {
        TunnelKey::Http(s) => table_view(
            &core.http_routes,
            s,
            |g: &TunnelGroup| -> (x: Option<Vec<HealthEvent>>) ensures history_in(g@, *id, x) { g.member_history(id) },
        ),
        TunnelKey::Tcp(p) => table_view(
            &core.tcp_routes,
            p,
            |g: &TunnelGroup| -> (x: Option<Vec<HealthEvent>>) ensures history_in(g@, *id, x) { g.member_history(id) },
        ),
        TunnelKey::Udp(p) => table_view(
            &core.udp_routes,
            p,
            |g: &TunnelGroup| -> (x: Option<Vec<HealthEvent>>) ensures history_in(g@, *id, x) { g.member_history(id) },
        ),
        TunnelKey::P2p(_) => None,
    };
    match found {
        Some(r) => r,
        None => None,
    }
}

/// The rows of a history, in order.
fn health_rows(events: &Vec<HealthEvent>) -> (r: Vec<HealthEventRow>)
    ensures
        r@.map_values(|row: HealthEventRow| row@) == health_events(events@).map_values(
            |e: HealthEventModel| health_row(e),
        ),
{
    let mut out: Vec<HealthEventRow> = Vec::new();
    let mut i: usize = 0;
    while i < events.len()
        invariant
            i <= events@.len(),
            out@.len() == i,
            forall|j: int| 0 <= j < i ==> (#[trigger] out@[j])@ == health_row(events@[j]@),
        decreases events@.len() - i,
    {
        let e: &HealthEvent = &events[i];
        out.push(
            HealthEventRow { at: unix_to_iso(e.at), healthy: e.healthy, reason: e.reason.clone() },
        );
        i = i + 1;
    }
    assert(out@.map_values(|row: HealthEventRow| row@) =~= health_events(events@).map_values(
        |e: HealthEventModel| health_row(e),
    ));
    out
}

/// The history of the tunnel of an id, for a caller.
pub fn health_history(core: &TunnelCore, scope: &AuthScope, read: Option<u128>) -> (r: Result<
    Vec<HealthEventRow>,
    ApiError,
>)
    ensures
        answers_health(core@, scope@, read, history_answer(r)),
{
    let tunnel_id: u128 = match read {
        Some(x) => x,
        None => {
            return Err(not_found("invalid tunnel id"));
        },
    };
    let route: Option<TunnelKey> = core.find_route(&tunnel_id);
    assert(first_route(core@, tunnel_id, opt_key(route)));
    match &route {
        Some(key) => {
            if let Some(owner) = core.session_at(key, &tunnel_id) {
                if scope_sees_session(core, scope, &owner) {
                    if let Some(events) = find_member_health_events(core, key, &tunnel_id) {
                        return Ok(health_rows(&events));
                    }
                }
            }
            Err(not_found("tunnel not found"))
        },
        None => Err(not_found("tunnel not found")),
    }
}

/// The latest health transitions of a tunnel, oldest first, for a caller.
pub fn tunnel_health_events(core: &TunnelCore, scope: &AuthScope, id: &str) -> (r: Result<
    Vec<HealthEventRow>,
    ApiError,
>)
    ensures
        forall|x: u128| #[trigger] uuid_form(x) == id@ ==> uuid_of_text(id@) == Some(x),
        answers_health(core@, scope@, uuid_of_text(id@), history_answer(r)),
{
    health_history(core, scope, parse_uuid(id))
}

// ── captured requests ────────────────────────────────────────────────────────

/// Whether a caller sees the captured requests of the tunnel that a text reads as. Of a tunnel
/// that is gone, only the operator does.
pub open spec fn sees_requests(c: CoreModel, scope: ScopeModel, read: Option<u128>, seen: bool) -> bool {
    match read {
        Some(id) => exists|route: Option<KeyModel>| #[trigger]
            first_route(c, id, route) && seen == (scope is Admin || sees_at(c, scope, route, id)),
        None => seen == (scope is Admin),
    }
}

/// Whether a caller gets at the captured requests of the tunnel of an id.
pub fn requests_gate(core: &TunnelCore, scope: &AuthScope, read: Option<u128>) -> (r: Result<
    (),
    ApiError,
>)
    ensures
        sees_requests(core@, scope@, read, r is Ok),
        done(r) is Err ==> done(r) == Err::<(), ApiErrorModel>(not_found_error("tunnel not found"@)),
{
    let visible: bool = match read {
        Some(id) => match find_tunnel_owning_session(core, &id) {
            Some(owner) => scope_sees_session(core, scope, &owner),
            None => scope.is_admin(),
        },
        None => scope.is_admin(),
    };
    if visible {
        Ok(())
    } else {
        Err(not_found("tunnel not found"))
    }
}

/// Whether a caller gets at the captured requests of a tunnel.
pub fn tunnel_requests(core: &TunnelCore, scope: &AuthScope, tunnel_id: &str) -> (r: Result<
    (),
    ApiError,
>)
    ensures
        forall|x: u128| #[trigger]
            uuid_form(x) == tunnel_id@ ==> uuid_of_text(tunnel_id@) == Some(x),
        sees_requests(core@, scope@, uuid_of_text(tunnel_id@), r is Ok),
        done(r) is Err ==> done(r) == Err::<(), ApiErrorModel>(not_found_error("tunnel not found"@)),
{
    requests_gate(core, scope, parse_uuid(tunnel_id))
}

/// How many of `len` captured requests a caller gets who asks for `limit` of them. A negative
/// limit is none.
pub open spec fn requests_taken(len: nat, limit: i64) -> nat {
    if limit < 0 || limit >= len {
        len
    } else {
        limit as nat
    }
}

/// The places of the captured requests that a caller gets, the newest first, of `len` that are
/// kept oldest first.
pub open spec fn recent_places(len: usize, limit: i64) -> Seq<usize> {
    Seq::new(requests_taken(len as nat, limit), |i: int| (len - 1 - i) as usize)
}

/// The places of the captured requests that a caller gets, the newest first, of `len` that are
/// kept oldest first.
pub fn recent_requests(len: usize, limit: i64) -> (r: Vec<usize>)
    ensures
        r@ == recent_places(len, limit),
{
    let mut out: Vec<usize> = Vec::new();
    let mut i: usize = 0;
    while i < len && (limit < 0 || (i as u64) < limit as u64)
        invariant
            i <= requests_taken(len as nat, limit),
            out@ == Seq::new(i as nat, |k: int| (len - 1 - k) as usize),
        decreases len - i,
    {
        let ghost before = out@;
        out.push(len - 1 - i);
        i = i + 1;
        assert(out@ =~= Seq::new(i as nat, |k: int| (len - 1 - k) as usize));
    }
    assert(out@ =~= recent_places(len, limit));
    out
}

/// What a caller is answered who replays a request, given the tunnel that it was captured on.
pub open spec fn replay_answer(captured_on: Option<Seq<char>>, tunnel_id: Seq<char>) -> Result<
    (),
    ApiErrorModel,
> {
    match captured_on {
        Some(tunnel) => if tunnel == tunnel_id {
            Ok(())
        } else {
            Err(not_found_error("request does not belong to this tunnel"@))
        },
        None => Err(not_found_error("request not found"@)),
    }
}

/// What a caller is answered who replays a request, given the tunnel that it was captured on.
pub fn replay_request(captured_on: Option<String>, tunnel_id: &str) -> (r: Result<(), ApiError>)
    ensures
        done(r) == replay_answer(opt_text(captured_on), tunnel_id@),
{
    match captured_on {
        Some(tunnel) => {
            if text_eq(tunnel.as_str(), tunnel_id) {
                Ok(())
            } else {
                Err(not_found("request does not belong to this tunnel"))
            }
        },
        None => Err(not_found("request not found")),
    }
}

// ── UDP tunnels and publishers ───────────────────────────────────────────────

/// What is shown of a UDP tunnel.
#[derive(Debug)]
pub struct UdpSessionInfo {
    pub tunnel_id: String,
    pub port: u16,
    pub protocol: String,
    pub request_count: u64,
    pub bytes_proxied: u64,
    pub connected_since: String,
}

/// The view of a [`UdpSessionInfo`].
#[verifier::ext_equal]
pub struct UdpRowModel {
    pub tunnel_id: Seq<char>,
    pub port: u16,
    pub protocol: Seq<char>,
    pub request_count: u64,
    pub bytes_proxied: u64,
    pub connected_since: Seq<char>,
}

impl View for UdpSessionInfo {
    type V = UdpRowModel;

    open spec fn view(&self) -> UdpRowModel {
        UdpRowModel {
            tunnel_id: self.tunnel_id@,
            port: self.port,
            protocol: self.protocol@,
            request_count: self.request_count,
            bytes_proxied: self.bytes_proxied,
            connected_since: self.connected_since@,
        }
    }
}

/// What a caller is answered who asks for the UDP tunnel `id` that is first found at `route`.
pub open spec fn udp_answer(
    c: CoreModel,
    scope: ScopeModel,
    route: Option<KeyModel>,
    id: u128,
    now: Clock,
) -> Result<UdpRowModel, ApiErrorModel> {
    match route {
        Some(key) => if sees_tunnel(c, scope, key, id) {
            Ok(
                UdpRowModel {
                    tunnel_id: uuid_form(info_at(c, key, id).tunnel_id),
                    port: key->Udp_0,
                    protocol: "udp"@,
                    request_count: info_at(c, key, id).request_count,
                    bytes_proxied: info_at(c, key, id).bytes_proxied,
                    connected_since: iso_of_instant(info_at(c, key, id).created_at, now),
                },
            )
        } else {
            Err(not_found_error("UDP tunnel not found"@))
        },
        None => Err(not_found_error("UDP tunnel not found"@)),
    }
}

/// `r` is what a caller is answered who asks for the UDP tunnel that a text names.
pub open spec fn answers_udp(
    c: CoreModel,
    scope: ScopeModel,
    text: Seq<char>,
    now: Clock,
    r: Result<UdpRowModel, ApiErrorModel>,
) -> bool {
    ||| names_tunnel(text, None) && r == Err::<UdpRowModel, ApiErrorModel>(
        not_found_error("UDP tunnel not found"@),
    )
    ||| exists|id: u128, route: Option<KeyModel>|
        text == uuid_form(id) && #[trigger] first_within(c, id, 2, 2, route) && r == udp_answer(
            c,
            scope,
            route,
            id,
            now,
        )
}

/// The view of an answer with a UDP tunnel.
pub open spec fn udp_view(r: Result<UdpSessionInfo, ApiError>) -> Result<UdpRowModel, ApiErrorModel> {
    match r {
        Ok(s) => Ok(s@),
        Err(e) => Err(e@),
    }
}

/// What is shown of a UDP tunnel, on a clock reading that the caller supplies.
pub fn tunnel_udp_sessions_with(core: &TunnelCore, scope: &AuthScope, id: &str, now: Clock) -> (r:
    Result<UdpSessionInfo, ApiError>)
    ensures
        answers_udp(core@, scope@, id@, now, udp_view(r)),
{
    let tunnel_id: u128 = match shown_id(id) {
        Some(x) => x,
        None => {
            return Err(not_found("UDP tunnel not found"));
        },
    };
    let route: Option<TunnelKey> = core.find_udp_route(&tunnel_id);
    assert(first_within(core@, tunnel_id, 2, 2, opt_key(route)));
    match &route {
        Some(TunnelKey::Udp(port)) => {
            let found: Option<Option<TunnelInfo>> = table_view(
                &core.udp_routes,
                port,
                |g: &TunnelGroup| -> (x: Option<TunnelInfo>) ensures member_of(g@, tunnel_id, x) { g.member_info(&tunnel_id) },
            );
            if let Some(Some(info)) = found {
                if scope_sees_session(core, scope, &info.session_id) {
                    let row = UdpSessionInfo {
                        tunnel_id: uuid_text(info.tunnel_id),
                        port: *port,
                        protocol: "udp".to_owned(),
                        request_count: info.request_count,
                        bytes_proxied: info.bytes_proxied,
                        connected_since: instant_to_iso(info.created_at, now),
                    };
                    return Ok(row);
                }
            }
            Err(not_found("UDP tunnel not found"))
        },
        _ => Err(not_found("UDP tunnel not found")),
    }
}

/// What is shown of a UDP tunnel.
pub fn tunnel_udp_sessions(core: &TunnelCore, scope: &AuthScope, id: &str) -> (r: Result<
    UdpSessionInfo,
    ApiError,
>)
    ensures
        exists|now: Clock| answers_udp(core@, scope@, id@, now, udp_view(r)),
{
    let now: Clock = core.clock();
    tunnel_udp_sessions_with(core, scope, id, now)
}

/// What is shown of a publisher.
#[derive(Debug)]
pub struct P2pPeerInfo {
    pub tunnel_id: String,
    pub tunnel_name: String,
    pub publisher_session_id: String,
    pub request_count: u64,
    pub bytes_proxied: u64,
    pub connected_since: String,
    pub nat_type: Option<String>,
    pub mapped_addrs: Option<Vec<String>>,
}

/// The view of a [`P2pPeerInfo`].
#[verifier::ext_equal]
pub struct PeerRowModel {
    pub tunnel_id: Seq<char>,
    pub tunnel_name: Seq<char>,
    pub publisher_session_id: Seq<char>,
    pub request_count: u64,
    pub bytes_proxied: u64,
    pub connected_since: Seq<char>,
    pub nat_type: Option<Seq<char>>,
    pub mapped_addrs: Option<Seq<Seq<char>>>,
}

impl View for P2pPeerInfo {
    type V = PeerRowModel;

    open spec fn view(&self) -> PeerRowModel {
        PeerRowModel {
            tunnel_id: self.tunnel_id@,
            tunnel_name: self.tunnel_name@,
            publisher_session_id: self.publisher_session_id@,
            request_count: self.request_count,
            bytes_proxied: self.bytes_proxied,
            connected_since: self.connected_since@,
            nat_type: opt_text(self.nat_type),
            mapped_addrs: opt_texts(self.mapped_addrs),
        }
    }
}

/// What a caller is answered who asks for the publisher `id` that is first found at `route`.
pub open spec fn peer_answer(
    c: CoreModel,
    scope: ScopeModel,
    route: Option<KeyModel>,
    id: u128,
    now: Clock,
) -> Result<PeerRowModel, ApiErrorModel> {
    match route {
        Some(key) => if sees_tunnel(c, scope, key, id) {
            let p = c.p2p[key->P2p_0];
            Ok(
                PeerRowModel {
                    tunnel_id: uuid_form(p.tunnel_info.tunnel_id),
                    tunnel_name: p.name,
                    publisher_session_id: uuid_form(p.tunnel_info.session_id),
                    request_count: p.tunnel_info.request_count,
                    bytes_proxied: p.tunnel_info.bytes_proxied,
                    connected_since: iso_of_instant(p.tunnel_info.created_at, now),
                    nat_type: p.nat_type,
                    mapped_addrs: shown_addrs(p),
                },
            )
        } else {
            Err(not_found_error("P2P tunnel not found"@))
        },
        None => Err(not_found_error("P2P tunnel not found"@)),
    }
}

/// `r` is what a caller is answered who asks for the publisher that a text names.
pub open spec fn answers_peer(
    c: CoreModel,
    scope: ScopeModel,
    text: Seq<char>,
    now: Clock,
    r: Result<PeerRowModel, ApiErrorModel>,
) -> bool {
    ||| names_tunnel(text, None) && r == Err::<PeerRowModel, ApiErrorModel>(
        not_found_error("P2P tunnel not found"@),
    )
    ||| exists|id: u128, route: Option<KeyModel>|
        text == uuid_form(id) && #[trigger] first_within(c, id, 3, 3, route) && r == peer_answer(
            c,
            scope,
            route,
            id,
            now,
        )
}

/// The view of an answer with a publisher.
pub open spec fn peer_view(r: Result<P2pPeerInfo, ApiError>) -> Result<PeerRowModel, ApiErrorModel> {
    match r {
        Ok(s) => Ok(s@),
        Err(e) => Err(e@),
    }
}

/// What is shown of a publisher, on a clock reading that the caller supplies.
pub fn tunnel_p2p_peers_with(core: &TunnelCore, scope: &AuthScope, id: &str, now: Clock) -> (r:
    Result<P2pPeerInfo, ApiError>)
    ensures
        answers_peer(core@, scope@, id@, now, peer_view(r)),
{
    let tunnel_id: u128 = match shown_id(id) {
        Some(x) => x,
        None => {
            return Err(not_found("P2P tunnel not found"));
        },
    };
    let route: Option<TunnelKey> = core.find_p2p_route(&tunnel_id);
    assert(first_within(core@, tunnel_id, 3, 3, opt_key(route)));
    match &route {
        Some(TunnelKey::P2p(name)) => {
            if let Some(p) = publisher(core, name) {
                if scope_sees_session(core, scope, &p.tunnel_info.session_id) {
                    let row = P2pPeerInfo {
                        tunnel_id: uuid_text(p.tunnel_info.tunnel_id),
                        tunnel_name: p.name.clone(),
                        publisher_session_id: uuid_text(p.tunnel_info.session_id),
                        request_count: p.tunnel_info.request_count,
                        bytes_proxied: p.tunnel_info.bytes_proxied,
                        connected_since: instant_to_iso(p.tunnel_info.created_at, now),
                        nat_type: opt_text_clone(&p.nat_type),
                        mapped_addrs: mapped_addrs_of(&p),
                    };
                    return Ok(row);
                }
            }
            Err(not_found("P2P tunnel not found"))
        },
        _ => Err(not_found("P2P tunnel not found")),
    }
}

/// What is shown of a publisher.
pub fn tunnel_p2p_peers(core: &TunnelCore, scope: &AuthScope, id: &str) -> (r: Result<
    P2pPeerInfo,
    ApiError,
>)
    ensures
        exists|now: Clock| answers_peer(core@, scope@, id@, now, peer_view(r)),
{
    let now: Clock = core.clock();
    tunnel_p2p_peers_with(core, scope, id, now)
}

// ── the live stream of a group ───────────────────────────────────────────────

/// The route of the group that a protocol and a label name. Only HTTP and TCP groups have a
/// stream.
pub open spec fn stream_route(protocol: Seq<char>, label: Seq<char>) -> Option<KeyModel> {
    if protocol == "http"@ {
        Some(KeyModel::Http(label))
    } else if protocol == "tcp"@ {
        match number_in(label, 65535) {
            Some(port) => Some(KeyModel::Tcp(port as u16)),
            None => None,
        }
    } else {
        None
    }
}

/// Whether a caller sees a member of the group that a protocol and a label name.
pub open spec fn sees_group(c: CoreModel, scope: ScopeModel, protocol: Seq<char>, label: Seq<char>) -> bool {
    match stream_route(protocol, label) {
        Some(key) => exists|id: u128| sees_tunnel(c, scope, key, id),
        None => false,
    }
}

/// The route of the group that a protocol and a label name.
fn stream_key(protocol: &str, label: &str) -> (r: Option<TunnelKey>)
    ensures
        opt_key(r) == stream_route(protocol@, label@),
{
    if text_eq(protocol, "http") {
        return Some(TunnelKey::Http(label.to_owned()));
    }
    if text_eq(protocol, "tcp") {
        return match parse_number(label, 65535) {
            Some(port) => Some(TunnelKey::Tcp(port as u16)),
            None => None,
        };
    }
    None
}

/// What a caller is answered who wants to follow a group.
pub open spec fn follow_answer(
    c: CoreModel,
    scope: ScopeModel,
    protocol: Seq<char>,
    label: Seq<char>,
) -> Result<(), ApiErrorModel> {
    if scope is Admin || sees_group(c, scope, protocol, label) {
        Ok(())
    } else {
        Err(not_found_error("group not found"@))
    }
}

/// Whether a caller may follow a group. One that they see no member of is answered like one
/// that is not there; the operator may follow even that.
pub fn open_group_stream(core: &TunnelCore, scope: &AuthScope, protocol: &str, label: &str) -> (r:
    Result<(), ApiError>)
    ensures
        done(r) == follow_answer(core@, scope@, protocol@, label@),
{
    proof {
        reveal_strlit("http");
        reveal_strlit("tcp");
    }
    let visible: bool = match stream_key(protocol, label) {
        Some(key) => {
            let ids: Vec<u128> = seen_at(core, scope, &key);
            proof {
                if ids@.len() > 0 {
                    assert(ids@.contains(ids@[0]));
                    assert(sees_tunnel(core@, scope@, key@, ids@[0]));
                }
                if exists|id: u128| sees_tunnel(core@, scope@, key@, id) {
                    let id = choose|id: u128| sees_tunnel(core@, scope@, key@, id);
                    assert(ids@.contains(id));
                }
            }
            ids.len() > 0
        },
        None => false,
    };
    if scope.is_admin() || visible {
        Ok(())
    } else {
        Err(not_found("group not found"))
    }
}

/// Whether a caller who follows a group is told of an event: it is of that group, and of a
/// member that they see.
pub open spec fn is_told(
    c: CoreModel,
    scope: ScopeModel,
    protocol: Seq<char>,
    label: Seq<char>,
    event: GroupEventModel,
    told: bool,
) -> bool {
    if event.protocol != protocol || event.label != label {
        !told
    } else if scope is Admin {
        told
    } else {
        exists|route: Option<KeyModel>| #[trigger]
            first_route(c, event.tunnel_id, route) && told == sees_at(
                c,
                scope,
                route,
                event.tunnel_id,
            )
    }
}

/// Whether a caller who follows a group is told of an event.
pub fn tells_event(
    core: &TunnelCore,
    scope: &AuthScope,
    protocol: &str,
    label: &str,
    event: &GroupEvent,
) -> (told: bool)
    ensures
        is_told(core@, scope@, protocol@, label@, event@, told),
{
    if !text_eq(event.protocol.as_str(), protocol) || !text_eq(event.label.as_str(), label) {
        return false;
    }
    if scope.is_admin() {
        return true;
    }
    assert(event@.protocol == protocol@ && event@.label == label@);
    let owner: Option<u128> = find_tunnel_owning_session(core, &event.tunnel_id);
    let told: bool = match owner {
        Some(session) => scope_sees_session(core, scope, &session),
        None => false,
    };
    proof {
        let id = event@.tunnel_id;
        let route = choose|route: Option<KeyModel>| #[trigger]
            first_route(core@, id, route) && owner == owner_at(core@, route, id);
        assert(first_route(core@, id, route));
        assert(told == sees_at(core@, scope@, route, id));
    }
    told
}

/// After how many quiet seconds a stream is kept alive.
pub const SSE_KEEP_ALIVE_SECS: u64 = 30;

/// What a stream is kept alive with.
pub const SSE_KEEP_ALIVE_TEXT: &'static str = "keep-alive";

/// What comes off the queue of one who follows a group.
#[derive(Debug)]
pub enum GroupNews<'a> {
    /// An event, with how it is written for those who are told; `None` where it cannot be.
    Event { event: &'a GroupEvent, payload: Option<String> },
    /// So many events went by before they could be taken.
    Lagged(u64),
}

/// What is sent on a stream: the name of an event, and its text.
#[derive(Debug)]
pub struct SseItem {
    pub event: String,
    pub data: String,
}

/// The view of an [`SseItem`].
#[verifier::ext_equal]
pub struct SseModel {
    pub event: Seq<char>,
    pub data: Seq<char>,
}

impl View for SseItem {
    type V = SseModel;

    open spec fn view(&self) -> SseModel {
        SseModel { event: self.event@, data: self.data@ }
    }
}

/// What is sent to a caller who follows a group: every event that they are told of and that
/// can be written, under the name `group_event`; and, for events that went by, how many these
/// were, under the name `lagged`.
pub open spec fn is_sent(
    c: CoreModel,
    scope: ScopeModel,
    protocol: Seq<char>,
    label: Seq<char>,
    news: GroupNews<'_>,
    r: Option<SseItem>,
) -> bool {
    match news {
        GroupNews::Lagged(n) => r matches Some(item) && item@ == (SseModel {
            event: "lagged"@,
            data: decimal(n as nat),
        }),
        GroupNews::Event { event, payload: None } => r is None,
        GroupNews::Event { event, payload: Some(text) } => match r {
            Some(item) => is_told(c, scope, protocol, label, event@, true) && item@ == (SseModel {
                event: "group_event"@,
                data: text@,
            }),
            None => is_told(c, scope, protocol, label, event@, false),
        },
    }
}

/// What is sent to a caller who follows a group, when something comes off their queue.
pub fn group_events_sse(
    core: &TunnelCore,
    scope: &AuthScope,
    protocol: &str,
    label: &str,
    news: GroupNews<'_>,
) -> (r: Option<SseItem>)
    ensures
        is_sent(core@, scope@, protocol@, label@, news, r),
{
    match news {
        GroupNews::Lagged(n) => Some(
            SseItem { event: "lagged".to_owned(), data: decimal_text(n) },
        ),
        GroupNews::Event { event, payload } => {
            let told: bool = tells_event(core, scope, protocol, label, event);
            match payload {
                Some(data) => {
                    if told {
                        Some(SseItem { event: "group_event".to_owned(), data })
                    } else {
                        None
                    }
                },
                None => None,
            }
        },
    }
}

// ── laws ─────────────────────────────────────────────────────────────────────

/// On a stream of a group nothing is sent of an event of another group, nor, but to the
/// operator, of a member that the caller does not see; and a lag never passes in silence.
pub proof fn law_streams_keep_to_their_group(
    c: CoreModel,
    scope: ScopeModel,
    protocol: Seq<char>,
    label: Seq<char>,
    news: GroupNews<'_>,
    r: Option<SseItem>,
)
    requires
        is_sent(c, scope, protocol, label, news, r),
    ensures
        r is Some ==> (news matches GroupNews::Event { event, .. } ==> {
            &&& event@.protocol == protocol && event@.label == label
            &&& scope is Admin || exists|key: KeyModel| #[trigger]
                sees_tunnel(c, scope, key, event@.tunnel_id)
        }),
        news is Lagged ==> r is Some,
{
    if let GroupNews::Event { event, .. } = news {
        if r is Some && !(scope is Admin) {
            let id = event@.tunnel_id;
            let route = choose|route: Option<KeyModel>| #[trigger]
                first_route(c, id, route) && sees_at(c, scope, route, id);
            assert(sees_tunnel(c, scope, route->0, id));
        }
    }
}

/// The operator sees every tunnel that there is.
pub proof fn law_admin_sees_everything(c: CoreModel, key: KeyModel, id: u128)
    requires
        serves(c, key, id),
    ensures
        sees_tunnel(c, ScopeModel::Admin, key, id),
{
}

/// A user sees no tunnel but those of sessions of that user, and a token without a user none
/// but those of sessions with that token.
pub proof fn law_tenants_are_apart(c: CoreModel, scope: ScopeModel, key: KeyModel, id: u128)
    requires
        sees_tunnel(c, scope, key, id),
        !(scope is Admin),
    ensures
        c.sessions.contains_key(info_at(c, key, id).session_id),
        scope matches ScopeModel::User(user) ==> c.sessions[info_at(c, key, id).session_id].user_id
            == Some(user),
        scope matches ScopeModel::Token(token) ==> c.sessions[info_at(
            c,
            key,
            id,
        ).session_id].db_token_id == Some(token),
{
}

/// A session that has neither a user nor a token of the database is the operator's alone to
/// see.
pub proof fn law_unowned_is_hidden(c: CoreModel, scope: ScopeModel, session_id: u128)
    requires
        c.sessions.contains_key(session_id),
        c.sessions[session_id].user_id is None,
        c.sessions[session_id].db_token_id is None,
    ensures
        sees_session(c, scope, session_id) <==> scope is Admin,
{
}

/// In a core that is consistent, walking the tables finds each tunnel where the index says,
/// and finds none that the index does not have.
pub proof fn law_walk_agrees_with_index(c: CoreModel, id: u128, route: Option<KeyModel>)
    requires
        consistent(c),
        first_route(c, id, route),
    ensures
        route is Some <==> c.index.contains_key(id),
        route matches Some(key) ==> key == c.index[id],
        owner_at(c, route, id) == match tunnel_at(c, id) {
            Some(info) => Some(info.session_id),
            None => None,
        },
{
    match route {
        Some(key) => {
            assert(crate::scope::serves_within(c, key, id, 0, 3));
            if let KeyModel::P2p(name) = key {
                assert(c.p2p.contains_key(name));
            } else {
                assert(is_member(c, key, id));
            }
        },
        None => {
            if c.index.contains_key(id) {
                assert(serves(c, c.index[id], id)) by {
                    if !(c.index[id] is P2p) {
                        assert(is_member(c, c.index[id], id));
                    }
                }
                assert(crate::scope::serves_within(c, c.index[id], id, 0, 3));
            }
        },
    }
}

/// A tunnel that a caller does not see is answered like one that is not there: asked for, asked
/// for its history, and closed.
pub proof fn law_hidden_is_like_absent(
    c: CoreModel,
    scope: ScopeModel,
    id: u128,
    region_id: Seq<char>,
    now: Clock,
)
    requires
        consistent(c),
        !(scope is Admin),
        forall|key: KeyModel| !#[trigger] sees_tunnel(c, scope, key, id),
    ensures
        forall|r: Result<SummaryModel, ApiErrorModel>| #[trigger]
            answers_tunnel(c, scope, uuid_form(id), region_id, now, r) ==> r == Err::<
                SummaryModel,
                ApiErrorModel,
            >(not_found_error("tunnel not found"@)),
        forall|r: Result<Seq<HealthRowModel>, ApiErrorModel>| #[trigger]
            answers_health(c, scope, Some(id), r) ==> r == Err::<
                Seq<HealthRowModel>,
                ApiErrorModel,
            >(not_found_error("tunnel not found"@)),
        forall|after: CoreModel, r: Result<(), ApiErrorModel>| #[trigger]
            closes_tunnel(c, after, scope, Some(id), r) ==> after == c && r == Err::<
                (),
                ApiErrorModel,
            >(not_found_error("tunnel not found"@)),
        forall|seen: bool| #[trigger] sees_requests(c, scope, Some(id), seen) ==> !seen,
{
    assert forall|r: Result<SummaryModel, ApiErrorModel>| #[trigger]
        answers_tunnel(c, scope, uuid_form(id), region_id, now, r) implies r == Err::<
        SummaryModel,
        ApiErrorModel,
    >(not_found_error("tunnel not found"@)) by {
        if !names_tunnel(uuid_form(id), None) {
            let (other, route) = choose|other: u128, route: Option<KeyModel>|
                uuid_form(id) == uuid_form(other) && #[trigger] first_route(c, other, route) && r
                    == tunnel_answer(c, scope, route, other, region_id, now);
            crate::ids::law_uuid_forms_differ(id, other);
        }
    }
    assert forall|route: Option<KeyModel>| #[trigger] first_route(c, id, route) implies !sees_at(
        c,
        scope,
        route,
        id,
    ) by {
        if let Some(key) = route {
            assert(crate::scope::serves_within(c, key, id, 0, 3));
            assert(!sees_tunnel(c, scope, key, id));
        }
    }
}

} // verus!
