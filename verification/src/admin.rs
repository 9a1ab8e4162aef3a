//! The dashboard's interface to what the database keeps, and to the server as a whole.
use crate::api::{db_failure, done, found_or, not_found, not_found_error, ApiError, ApiErrorModel};
use crate::db::NewToken;
use crate::ids::{parse_uuid, uuid_form, uuid_of_text};
use crate::router::TunnelCore;
use crate::scope::{live_count, live_tunnels};
use crate::table::{has_size, table_len};
use crate::text::{opt_text, text_eq};
use vstd::prelude::*;
use vstd::string::*;

verus! {

// ── the server as a whole ────────────────────────────────────────────────────

/// How many sessions and tunnels are live.
#[derive(Debug, Clone, Copy)]
pub struct ServerStatus {
    pub active_sessions: usize,
    pub active_tunnels: usize,
}

/// How many sessions are live, and how many tunnels at subdomains and TCP ports.
pub fn status_handler(core: &TunnelCore) -> (r: ServerStatus)
    ensures
        has_size(core@.sessions, r.active_sessions as nat),
        live_count(core@, r.active_tunnels as nat),
{
    ServerStatus { active_sessions: table_len(&core.sessions), active_tunnels: live_tunnels(core) }
}

/// What goes on across all regions.
#[derive(Debug, Clone, Copy)]
pub struct PlatformUsage {
    pub active_tunnels_global: i64,
    pub tunnels_today: i64,
    pub active_users: i64,
    pub bandwidth_today_bytes: i64,
    pub total_users: i64,
}

/// The usage of the platform as the database, which all regions share, has it down; or why it
/// could not be read.
pub fn admin_platform_usage(usage: Result<PlatformUsage, String>) -> (r: Result<
    PlatformUsage,
    ApiError,
>)
    ensures
        match usage {
            Ok(u) => r == Ok::<PlatformUsage, ApiError>(u),
            Err(e) => r matches Err(failure) && failure@ == (ApiErrorModel {
                status: 500,
                error: e@,
            }),
        },
{
    match usage {
        Ok(u) => Ok(u),
        Err(e) => Err(db_failure(e)),
    }
}

// ── tokens ───────────────────────────────────────────────────────────────────

/// What is written down of a change to the tokens.
#[derive(Debug)]
pub enum TokenAudit {
    Created { token_id: String, label: String, admin: bool },
    Deleted { token_id: String, admin: bool },
}

/// The view of a [`TokenAudit`].
#[verifier::ext_equal]
pub enum TokenAuditModel {
    Created { token_id: Seq<char>, label: Seq<char>, admin: bool },
    Deleted { token_id: Seq<char>, admin: bool },
}

impl View for TokenAudit {
    type V = TokenAuditModel;

    open spec fn view(&self) -> TokenAuditModel {
        match self {
            TokenAudit::Created { token_id, label, admin } => TokenAuditModel::Created {
                token_id: token_id@,
                label: label@,
                admin: *admin,
            },
            TokenAudit::Deleted { token_id, admin } => TokenAuditModel::Deleted {
                token_id: token_id@,
                admin: *admin,
            },
        }
    }
}

/// What is written down of a new token.
pub fn token_created(record: &NewToken, admin: bool) -> (r: TokenAudit)
    ensures
        r@ == (TokenAuditModel::Created { token_id: record@.id, label: record@.label, admin }),
{
    TokenAudit::Created { token_id: record.id.clone(), label: record.label.clone(), admin }
}

/// The view of what is written down, or of a refusal.
pub open spec fn audited(r: Result<TokenAudit, ApiError>) -> Result<TokenAuditModel, ApiErrorModel> {
    match r {
        Ok(a) => Ok(a@),
        Err(e) => Err(e@),
    }
}

/// What a caller is answered who deletes a token, and what is written down of it.
pub open spec fn deletion_answer(deleted: bool, id: Seq<char>, admin: bool) -> Result<
    TokenAuditModel,
    ApiErrorModel,
> {
    if deleted {
        Ok(TokenAuditModel::Deleted { token_id: id, admin })
    } else {
        Err(not_found_error("token not found"@))
    }
}

/// What a caller is answered who deletes a token, and what is written down of it.
pub fn delete_token(deleted: bool, id: String, admin: bool) -> (r: Result<TokenAudit, ApiError>)
    ensures
        audited(r) == deletion_answer(deleted, id@, admin),
{
    if deleted {
        Ok(TokenAudit::Deleted { token_id: id, admin })
    } else {
        Err(not_found("token not found"))
    }
}

/// What the operator is answered who lifts or sets the limits of a token.
pub fn admin_patch_token(found: bool) -> (r: Result<(), ApiError>)
    ensures
        done(r) == if found {
            Ok(())
        } else {
            Err(not_found_error("token not found"@))
        },
{
    found_or(found, "token not found")
}

// ── users ────────────────────────────────────────────────────────────────────

/// The view of an id, or of a refusal.
pub open spec fn id_answer(r: Result<u128, ApiError>) -> Result<u128, ApiErrorModel> {
    match r {
        Ok(id) => Ok(id),
        Err(e) => Err(e@),
    }
}

/// The user that a text names, given what it reads as.
pub open spec fn user_named(read: Option<u128>) -> Result<u128, ApiErrorModel> {
    match read {
        Some(id) => Ok(id),
        None => Err(not_found_error("invalid user id"@)),
    }
}

/// The user that a text names, given what it reads as.
pub fn user_of(read: Option<u128>) -> (r: Result<u128, ApiError>)
    ensures
        id_answer(r) == user_named(read),
{
    match read {
        Some(id) => Ok(id),
        None => Err(not_found("invalid user id")),
    }
}

/// The user that a text names.
pub fn admin_get_user(id: &str) -> (r: Result<u128, ApiError>)
    ensures
        forall|x: u128| #[trigger] uuid_form(x) == id@ ==> uuid_of_text(id@) == Some(x),
        id_answer(r) == user_named(uuid_of_text(id@)),
{
    user_of(parse_uuid(id))
}

/// Whether a user can be given this status.
pub open spec fn is_user_status(status: Seq<char>) -> bool {
    status == "active"@ || status == "banned"@ || status == "suspended"@
}

/// The refusal of a status that no user can be given.
pub open spec fn bad_status() -> ApiErrorModel {
    ApiErrorModel { status: 400, error: "status must be one of: active, banned, suspended"@ }
}

/// The user whose status is to change, given what the text reads as that names them: the new
/// status is looked at first.
pub fn update_user(status: &str, read: Option<u128>) -> (r: Result<u128, ApiError>)
    ensures
        id_answer(r) == if !is_user_status(status@) {
            Err(bad_status())
        } else {
            user_named(read)
        },
{
    if !text_eq(status, "active") && !text_eq(status, "banned") && !text_eq(status, "suspended") {
        return Err(
            ApiError {
                status: 400,
                error: "status must be one of: active, banned, suspended".to_owned(),
            },
        );
    }
    user_of(read)
}

/// The user whose status is to change: the new status is looked at first.
pub fn admin_update_user(status: &str, id: &str) -> (r: Result<u128, ApiError>)
    ensures
        forall|x: u128| #[trigger] uuid_form(x) == id@ ==> uuid_of_text(id@) == Some(x),
        id_answer(r) == if !is_user_status(status@) {
            Err(bad_status())
        } else {
            user_named(uuid_of_text(id@))
        },
{
    update_user(status, parse_uuid(id))
}

/// How many days of sign-ups are shown to one who asks for `days`.
pub open spec fn shown_days(days: i64) -> i64 {
    if days < 1 {
        1
    } else if days > 365 {
        365
    } else {
        days
    }
}

/// How many days of sign-ups are shown to one who asks for `days`.
pub fn admin_users_over_time(days: i64) -> (r: i64)
    ensures
        r == shown_days(days),
{
    if days < 1 {
        1
    } else if days > 365 {
        365
    } else {
        days
    }
}

/// How many users signed up on one day.
#[derive(Debug)]
pub struct UserOverTimeEntry {
    /// The day, as `YYYY-MM-DD`.
    pub date: String,
    pub count: i64,
}

/// The sign-ups of the days that were asked for, as the database has them down, from the oldest
/// to the newest; or why they could not be read.
pub fn users_over_time(entries: Result<Vec<UserOverTimeEntry>, String>) -> (r: Result<
    Vec<UserOverTimeEntry>,
    ApiError,
>)
    ensures
        match entries {
            Ok(e) => r == Ok::<Vec<UserOverTimeEntry>, ApiError>(e),
            Err(e) => r matches Err(failure) && failure@ == (ApiErrorModel {
                status: 500,
                error: e@,
            }),
        },
{
    match entries {
        Ok(e) => Ok(e),
        Err(e) => Err(db_failure(e)),
    }
}

// ── pages ────────────────────────────────────────────────────────────────────

/// A page and the number of all rows, or the refusal where the database failed on either.
pub fn page<T>(entries: Result<Vec<T>, String>, total: Result<i64, String>) -> (r: Result<
    (Vec<T>, i64),
    ApiError,
>)
    ensures
        match (entries, total) {
            (Ok(rows), Ok(n)) => r == Ok::<(Vec<T>, i64), ApiError>((rows, n)),
            (Err(e), _) => r matches Err(x) && x@ == (ApiErrorModel { status: 500, error: e@ }),
            (_, Err(e)) => r matches Err(x) && x@ == (ApiErrorModel { status: 500, error: e@ }),
        },
{
    match entries {
        Ok(rows) => match total {
            Ok(n) => Ok((rows, n)),
            Err(e) => Err(crate::api::db_failure(e)),
        },
        Err(e) => Err(crate::api::db_failure(e)),
    }
}

/// What a page of the history is asked for with.
#[derive(Debug)]
pub struct HistoryQuery {
    pub limit: i64,
    pub offset: i64,
    /// "http" or "tcp".
    pub protocol: Option<String>,
    pub token_id: Option<String>,
    /// Only open tunnels, or only closed ones.
    pub active: Option<bool>,
    /// "started", "duration" or "protocol".
    pub sort_by: String,
    /// "desc" or "asc".
    pub sort_dir: String,
}

/// How many captured requests are shown to one who does not say.
pub fn default_limit() -> (r: i64)
    ensures
        r == 50,
{
    50
}

/// How many rows the operator is shown who does not say.
pub fn default_admin_limit() -> (r: i64)
    ensures
        r == 50,
{
    50
}

/// How many days of sign-ups are shown to one who does not say.
pub fn default_uot_days() -> (r: i64)
    ensures
        r == 30,
{
    30
}

/// How many rows of the history are shown to one who does not say.
pub fn default_history_limit() -> (r: i64)
    ensures
        r == 50,
{
    50
}

/// What the history is sorted by for one who does not say.
pub fn default_sort_by() -> (r: String)
    ensures
        r@ == "started"@,
{
    "started".to_owned()
}

/// Which way the history is sorted for one who does not say.
pub fn default_sort_dir() -> (r: String)
    ensures
        r@ == "desc"@,
{
    "desc".to_owned()
}

/// What a caller said, or a value in its place.
pub open spec fn or_default<T>(said: Option<T>, default_value: T) -> T {
    match said {
        Some(x) => x,
        None => default_value,
    }
}

impl HistoryQuery {
    /// A query, with what the caller did not say filled in.
    pub fn new(
        limit: Option<i64>,
        offset: Option<i64>,
        protocol: Option<String>,
        token_id: Option<String>,
        active: Option<bool>,
        sort_by: Option<String>,
        sort_dir: Option<String>,
    ) -> (r: Self)
        ensures
            r.limit == or_default(limit, 50),
            r.offset == or_default(offset, 0),
            r.protocol == protocol,
            r.token_id == token_id,
            r.active == active,
            r.sort_by@ == or_default(opt_text(sort_by), "started"@),
            r.sort_dir@ == or_default(opt_text(sort_dir), "desc"@),
    {
        HistoryQuery {
            limit: match limit {
                Some(x) => x,
                None => default_history_limit(),
            },
            offset: match offset {
                Some(x) => x,
                None => 0,
            },
            protocol,
            token_id,
            active,
            sort_by: match sort_by {
                Some(x) => x,
                None => default_sort_by(),
            },
            sort_dir: match sort_dir {
                Some(x) => x,
                None => default_sort_dir(),
            },
        }
    }
}

} // verus!
