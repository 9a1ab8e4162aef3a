//! What the database is asked: tokens, and the text of the queries.
use crate::digest::{hex_form, hex_text, sha256, sha256_of};
use crate::ids::{is_random_uuid, new_uuid, uuid_form, uuid_text};
use crate::text::{chars_of, opt_text, text_eq, text_of};
use vstd::prelude::*;
use vstd::string::*;
use vstd::utf8::encode_utf8;

verus! {

// ── tokens ───────────────────────────────────────────────────────────────────

/// What is kept of a token in place of the token itself: its SHA-256 digest, in hexadecimal.
pub open spec fn token_hash(raw: Seq<char>) -> Seq<char> {
    hex_form(sha256(encode_utf8(raw)))
}

/// What is kept of a token in place of the token itself.
pub fn hash_token(raw: &str) -> (r: String)
    ensures
        r@ == token_hash(raw@),
{
    let digest: Vec<u8> = sha256_of(raw.as_bytes());
    hex_text(digest.as_slice())
}

/// A token as it is first kept.
#[derive(Debug)]
pub struct NewToken {
    pub id: String,
    pub token_hash: String,
    pub label: String,
    /// The subdomains that the token is good for; `None` for all.
    pub scope: Option<String>,
    pub status: String,
    pub unlimited: bool,
}

/// The view of a [`NewToken`].
#[verifier::ext_equal]
pub struct NewTokenModel {
    pub id: Seq<char>,
    pub token_hash: Seq<char>,
    pub label: Seq<char>,
    pub scope: Option<Seq<char>>,
    pub status: Seq<char>,
    pub unlimited: bool,
}

impl View for NewToken {
    type V = NewTokenModel;

    open spec fn view(&self) -> NewTokenModel {
        NewTokenModel {
            id: self.id@,
            token_hash: self.token_hash@,
            label: self.label@,
            scope: opt_text(self.scope),
            status: self.status@,
            unlimited: self.unlimited,
        }
    }
}

/// The token that is made of a random id.
pub open spec fn raw_token(secret: u128) -> Seq<char> {
    "rt_live_"@ + uuid_form(secret)
}

/// What is kept of a new token.
pub open spec fn token_record(
    label: Seq<char>,
    scope: Option<Seq<char>>,
    id: u128,
    secret: u128,
) -> NewTokenModel {
    NewTokenModel {
        id: uuid_form(id),
        token_hash: token_hash(raw_token(secret)),
        label,
        scope,
        status: "active"@,
        unlimited: false,
    }
}

/// A new token, of ids that the caller supplies: what is kept of it, and the token itself.
pub fn create_token_with(label: &str, scope: Option<String>, id: u128, secret: u128) -> (r: (
    NewToken,
    String,
))
    ensures
        r.0@ == token_record(label@, opt_text(scope), id, secret),
        r.1@ == raw_token(secret),
{
    let raw: String = "rt_live_".to_owned().concat(uuid_text(secret).as_str());
    let record = NewToken {
        id: uuid_text(id),
        token_hash: hash_token(raw.as_str()),
        label: label.to_owned(),
        scope,
        status: "active".to_owned(),
        unlimited: false,
    };
    (record, raw)
}

/// Whether `r` is a new token of this label and scope, of random ids.
pub open spec fn is_new_token(
    label: Seq<char>,
    scope: Option<Seq<char>>,
    record: NewTokenModel,
    raw: Seq<char>,
) -> bool {
    exists|id: u128, secret: u128|
        is_random_uuid(id) && is_random_uuid(secret) && record == #[trigger] token_record(
            label,
            scope,
            id,
            secret,
        ) && raw == raw_token(secret)
}

/// A new token: what is kept of it, and the token itself, which is shown once.
pub fn create_token(label: &str, scope: Option<String>) -> (r: (NewToken, String))
    ensures
        is_new_token(label@, opt_text(scope), r.0@, r.1@),
{
    let secret: u128 = new_uuid();
    let id: u128 = new_uuid();
    let ghost wanted = opt_text(scope);
    let r = create_token_with(label, scope, id, secret);
    assert(r.0@ == token_record(label@, wanted, id, secret));
    r
}

// ── where the captured requests are kept ─────────────────────────────────────

/// Whether a path says by itself what kind of store it is.
pub open spec fn is_store_url(path: Seq<char>) -> bool {
    (path.len() >= 7 && path.take(7) == "sqlite:"@) || path == ":memory:"@
}

/// The address of the store at a path.
pub open spec fn store_url(path: Seq<char>) -> Seq<char> {
    if is_store_url(path) {
        path
    } else {
        "sqlite:"@ + path
    }
}

/// The address of the store at a path.
pub fn sqlite_url(captured_path: &str) -> (r: String)
    ensures
        r@ == store_url(captured_path@),
{
    let chars: Vec<char> = chars_of(captured_path);
    let mut named: bool = text_eq(captured_path, ":memory:");
    if chars.len() >= 7 {
        let head: String = text_of(&chars, 0, 7);
        assert(chars@.subrange(0, 7) =~= chars@.take(7));
        if text_eq(head.as_str(), "sqlite:") {
            named = true;
        }
    }
    if named {
        captured_path.to_owned()
    } else {
        "sqlite:".to_owned().concat(captured_path)
    }
}

// ── the history of tunnels ───────────────────────────────────────────────────

/// The query for a page of the history, up to the column that it is sorted by.
pub const HISTORY_HEAD: &'static str = "SELECT tl.id, tl.tunnel_id, tl.protocol, tl.label, tl.session_id, tl.token_id, t.label AS token_label, tl.registered_at, tl.unregistered_at, tl.region_id FROM tunnel_log tl LEFT JOIN tokens t ON t.id = tl.token_id WHERE ($1::text IS NULL OR tl.protocol = $1) AND ($2::text IS NULL OR tl.token_id = $2) AND ($3::boolean IS NULL OR ($3 = true  AND tl.unregistered_at IS NULL) OR ($3 = false AND tl.unregistered_at IS NOT NULL)) ORDER BY ";

/// The query for a page of the history, from the direction of its order on.
pub const HISTORY_TAIL: &'static str = " LIMIT $4 OFFSET $5";

/// The column that a page of the history is sorted by.
pub open spec fn history_column(sort_by: Seq<char>) -> Seq<char> {
    if sort_by == "duration"@ {
        "COALESCE(tl.unregistered_at, now()) - tl.registered_at"@
    } else if sort_by == "protocol"@ {
        "tl.protocol"@
    } else {
        "tl.registered_at"@
    }
}

/// The direction in which a page of the history is sorted.
pub open spec fn history_direction(sort_dir: Seq<char>) -> Seq<char> {
    if sort_dir == "asc"@ {
        "ASC"@
    } else {
        "DESC"@
    }
}

/// The query for a page of the history. What the caller asks to sort by only ever chooses
/// among fixed texts.
pub fn list_tunnel_history(sort_by: &str, sort_dir: &str) -> (r: String)
    ensures
        r@ == HISTORY_HEAD@ + history_column(sort_by@) + " "@ + history_direction(sort_dir@)
            + HISTORY_TAIL@,
{
    let column: &str = if text_eq(sort_by, "duration") {
        "COALESCE(tl.unregistered_at, now()) - tl.registered_at"
    } else if text_eq(sort_by, "protocol") {
        "tl.protocol"
    } else {
        "tl.registered_at"
    };
    let direction: &str = if text_eq(sort_dir, "asc") {
        "ASC"
    } else {
        "DESC"
    };
    HISTORY_HEAD.to_owned().concat(column).concat(" ").concat(direction).concat(HISTORY_TAIL)
}

/// What a page of the history may be sorted by is one of six texts, whatever the caller says.
pub proof fn law_history_order_is_fixed(sort_by: Seq<char>, sort_dir: Seq<char>)
    ensures
        history_column(sort_by) == "COALESCE(tl.unregistered_at, now()) - tl.registered_at"@
            || history_column(sort_by) == "tl.protocol"@ || history_column(sort_by)
            == "tl.registered_at"@,
        history_direction(sort_dir) == "ASC"@ || history_direction(sort_dir) == "DESC"@,
{
}

// ── the operator's list of users ─────────────────────────────────────────────

/// Which users to list.
#[derive(Debug, Clone, Copy)]
pub struct AdminUserFilters<'a> {
    /// Part of the email address, in any case.
    pub search: Option<&'a str>,
    /// The plan that is in effect: "free" for those who have canceled a paid one, too.
    pub plan: Option<&'a str>,
    /// "google" or "password".
    pub auth_method: Option<&'a str>,
    /// "active", "banned" and so on.
    pub status: Option<&'a str>,
    /// Only those who had a paid plan and canceled it.
    pub previously_paid: bool,
}

impl<'a> Default for AdminUserFilters<'a> {
    fn default() -> (r: Self)
        ensures
            r.search is None,
            r.plan is None,
            r.auth_method is None,
            r.status is None,
            !r.previously_paid,
    {
        AdminUserFilters {
            search: None,
            plan: None,
            auth_method: None,
            status: None,
            previously_paid: false,
        }
    }
}

/// The order of the list of users.
#[derive(Debug, Clone, Copy, PartialEq, Eq, Structural)]
pub enum AdminUserSort {
    /// The newest first.
    Created,
    /// The most recently active first, and those who never were last.
    LastActive,
    /// By email address.
    Email,
}

impl Default for AdminUserSort {
    fn default() -> (r: Self)
        ensures
            r == AdminUserSort::Created,
    {
        AdminUserSort::Created
    }
}

/// The order that a word stands for.
pub open spec fn sort_named(s: Seq<char>) -> Option<AdminUserSort> {
    if s == "created"@ {
        Some(AdminUserSort::Created)
    } else if s == "last_active"@ {
        Some(AdminUserSort::LastActive)
    } else if s == "email"@ {
        Some(AdminUserSort::Email)
    } else {
        None
    }
}

/// The clause of an order.
pub open spec fn order_clause(sort: AdminUserSort) -> Seq<char> {
    match sort {
        AdminUserSort::Created => "ORDER BY u.created_at DESC"@,
        AdminUserSort::LastActive => "ORDER BY tc.last_active_at DESC NULLS LAST, u.created_at DESC"@,
        AdminUserSort::Email => "ORDER BY u.email ASC"@,
    }
}

impl AdminUserSort {
    /// The clause of the order.
    pub fn order_by(self) -> (r: &'static str)
        ensures
            r@ == order_clause(self),
    {
        match self {
            AdminUserSort::Created => "ORDER BY u.created_at DESC",
            AdminUserSort::LastActive => "ORDER BY tc.last_active_at DESC NULLS LAST, u.created_at DESC",
            AdminUserSort::Email => "ORDER BY u.email ASC",
        }
    }

    /// The order that a word stands for.
    pub fn named(s: &str) -> (r: Option<Self>)
        ensures
            r == sort_named(s@),
    {
        proof {
            reveal_strlit("created");
            reveal_strlit("last_active");
            reveal_strlit("email");
        }
        if text_eq(s, "created") {
            Some(AdminUserSort::Created)
        } else if text_eq(s, "last_active") {
            Some(AdminUserSort::LastActive)
        } else if text_eq(s, "email") {
            Some(AdminUserSort::Email)
        } else {
            None
        }
    }
}

impl std::str::FromStr for AdminUserSort {
    type Err = ();

    fn from_str(s: &str) -> (r: Result<Self, ()>)
        ensures
            r == match sort_named(s@) {
                Some(sort) => Ok::<AdminUserSort, ()>(sort),
                None => Err(()),
            },
    {
        match AdminUserSort::named(s) {
            Some(sort) => Ok(sort),
            None => Err(()),
        }
    }
}

/// A user's latest subscription, with its plan.
pub const SUB_LATERAL: &'static str = "
    LEFT JOIN LATERAL (
        SELECT p.name AS plan_name, p.billing_model, s.status, s.canceled_at
          FROM subscriptions s JOIN plans p ON p.id = s.plan_id
         WHERE s.user_id = u.id
         ORDER BY s.created_at DESC
         LIMIT 1
    ) sub ON TRUE";

/// How many tokens a user has, and when one was last used.
pub const TOKEN_LATERAL: &'static str = "
    LEFT JOIN LATERAL (
        SELECT COUNT(*)::bigint AS token_count, MAX(t.last_used_at) AS last_active_at
          FROM tokens t WHERE t.user_id = u.id
    ) tc ON TRUE";

/// What is shown of a user.
pub const ADMIN_USER_COLS: &'static str = "
    u.id, u.email, u.display_name, u.email_verified, u.status, u.auth_method, u.created_at,
    tc.token_count,
    CASE WHEN sub.status = 'canceled' THEN 'free' ELSE sub.plan_name END AS plan_name,
    sub.status AS subscription_status,
    CASE WHEN sub.status = 'canceled' AND sub.billing_model <> 'free'
         THEN sub.plan_name END AS previous_plan_name,
    CASE WHEN sub.status = 'canceled' THEN sub.canceled_at END AS canceled_at,
    tc.last_active_at";

/// Which users are listed: `$1` search, `$2` plan, `$3` way of signing in, `$4` status and
/// `$5` whether they had a paid plan before.
pub const ADMIN_USER_FILTERS: &'static str = "
    WHERE ($1::text IS NULL OR u.email ILIKE '%' || $1 || '%')
      AND ($2::text IS NULL OR (CASE WHEN sub.status = 'canceled'
                                     THEN 'free' ELSE sub.plan_name END) = $2)
      AND ($3::text IS NULL OR u.auth_method = $3)
      AND ($4::text IS NULL OR u.status = $4)
      AND ($5::bool IS NOT TRUE OR (sub.status = 'canceled'
                                    AND sub.billing_model <> 'free'))";

/// The query for a page of users.
pub open spec fn users_query(sort: AdminUserSort) -> Seq<char> {
    "SELECT "@ + ADMIN_USER_COLS@ + " FROM users u "@ + TOKEN_LATERAL@ + " "@ + SUB_LATERAL@ + " "@
        + ADMIN_USER_FILTERS@ + " "@ + order_clause(sort) + " LIMIT $6 OFFSET $7"@
}

/// The query for a page of users.
pub fn list_admin_users(sort: AdminUserSort) -> (r: String)
    ensures
        r@ == users_query(sort),
{
    "SELECT ".to_owned().concat(ADMIN_USER_COLS).concat(" FROM users u ").concat(
        TOKEN_LATERAL,
    ).concat(" ").concat(SUB_LATERAL).concat(" ").concat(ADMIN_USER_FILTERS).concat(" ").concat(
        sort.order_by(),
    ).concat(" LIMIT $6 OFFSET $7")
}

/// The query for how many users pass the same filters.
pub fn count_admin_users() -> (r: String)
    ensures
        r@ == "SELECT COUNT(*)::bigint FROM users u "@ + SUB_LATERAL@ + " "@ + ADMIN_USER_FILTERS@,
{
    "SELECT COUNT(*)::bigint FROM users u ".to_owned().concat(SUB_LATERAL).concat(" ").concat(
        ADMIN_USER_FILTERS,
    )
}

/// The query for one user.
pub fn get_admin_user() -> (r: String)
    ensures
        r@ == "SELECT "@ + ADMIN_USER_COLS@ + " FROM users u "@ + TOKEN_LATERAL@ + " "@
            + SUB_LATERAL@ + " WHERE u.id = $1"@,
{
    "SELECT ".to_owned().concat(ADMIN_USER_COLS).concat(" FROM users u ").concat(
        TOKEN_LATERAL,
    ).concat(" ").concat(SUB_LATERAL).concat(" WHERE u.id = $1")
}

} // verus!
