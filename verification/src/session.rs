//! The control plane: who may connect, and what each frame of a client does.
use crate::auth::{same_secret, secret_eq};
use crate::error::{error_text, Error, ErrorModel};
use crate::group::{is_member_protocol, opt_group, GroupSpec, GroupSpecModel};
use crate::ids::{is_random_uuid, new_uuid};
use crate::protocol::{ControlFrame, FrameModel, RegisterRequest, RequestModel, TunnelProtocol};
use crate::router::{
    http_outcome, http_registered, p2p_registered, registered, registered_port, tcp_registered,
    udp_registered,
    TunnelCore,
};
use crate::router_laws::{
    consistent, is_fresh, law_http_registration_consistent, law_p2p_registration_consistent,
    law_tcp_registration_consistent, law_udp_registration_consistent,
};
use crate::router_model::{http_label, is_random_draw, CoreModel, Draw};
use crate::session_info::new_session;
use crate::text::{decimal, decimal_text, join3, opt_text, signed_decimal, signed_text, text_eq};
use vstd::prelude::*;
use vstd::string::*;

verus! {

/// What the control plane is configured with.
#[derive(Debug)]
pub struct ControlConfig {
    /// The domain under which subdomains are served.
    pub domain: String,
    pub region_id: String,
    /// Whether pools may be formed at all.
    pub load_balancing: bool,
    /// Where the operator wants to hear that a group is down.
    pub alert_webhook_url: Option<String>,
    pub p2p_enabled: bool,
    pub require_auth: bool,
    pub admin_token: String,
    /// The version to tell clients.
    pub server_version: String,
}

/// The view of a [`ControlConfig`].
#[verifier::ext_equal]
pub struct ConfigModel {
    pub domain: Seq<char>,
    pub region_id: Seq<char>,
    pub load_balancing: bool,
    pub alert_webhook_url: Option<Seq<char>>,
    pub p2p_enabled: bool,
    pub require_auth: bool,
    pub admin_token: Seq<char>,
    pub server_version: Seq<char>,
}

impl View for ControlConfig {
    type V = ConfigModel;

    open spec fn view(&self) -> ConfigModel {
        ConfigModel {
            domain: self.domain@,
            region_id: self.region_id@,
            load_balancing: self.load_balancing,
            alert_webhook_url: opt_text(self.alert_webhook_url),
            p2p_enabled: self.p2p_enabled,
            require_auth: self.require_auth,
            admin_token: self.admin_token@,
            server_version: self.server_version@,
        }
    }
}

/// The version that clients are told where the operator does not set one.
pub const SERVER_VERSION: &'static str = "0.7.0";

/// The version to tell clients: the one that the operator set, or the server's own.
pub open spec fn version_told(override_version: Option<Seq<char>>) -> Seq<char> {
    match override_version {
        Some(v) => v,
        None => SERVER_VERSION@,
    }
}

/// The version to tell clients: the one that the operator set, or the server's own.
pub fn advertised_version(override_version: Option<String>) -> (r: String)
    ensures
        r@ == version_told(opt_text(override_version)),
{
    match override_version {
        Some(v) => v,
        None => SERVER_VERSION.to_owned(),
    }
}

/// What is known of a token of the database.
#[derive(Debug)]
pub struct TokenFacts {
    pub id: String,
    pub status: String,
    /// Whether limits and expiry do not apply.
    pub unlimited: bool,
    /// Nanoseconds since the Unix epoch.
    pub expires_at: Option<i128>,
    pub user_id: Option<u128>,
}

/// The view of a [`TokenFacts`].
#[verifier::ext_equal]
pub struct TokenModel {
    pub id: Seq<char>,
    pub status: Seq<char>,
    pub unlimited: bool,
    pub expires_at: Option<i128>,
    pub user_id: Option<u128>,
}

impl View for TokenFacts {
    type V = TokenModel;

    open spec fn view(&self) -> TokenModel {
        TokenModel {
            id: self.id@,
            status: self.status@,
            unlimited: self.unlimited,
            expires_at: self.expires_at,
            user_id: self.user_id,
        }
    }
}

/// The view of an optional token.
pub open spec fn opt_token(t: Option<TokenFacts>) -> Option<TokenModel> {
    match t {
        Some(token) => Some(token@),
        None => None,
    }
}

// ── handshake ────────────────────────────────────────────────────────────────

/// What came in place of the first frame, or as it.
#[derive(Debug)]
pub enum FirstFrame {
    /// Nothing came in time.
    Timeout,
    /// The client left.
    Closed,
    /// The connection failed.
    Failed(String),
    /// What came was no message that can hold a frame.
    NotBinary(String),
    /// What came was no frame.
    Unreadable(String),
    /// A frame, and how whoever decoded it shows it in messages.
    Frame { frame: ControlFrame, shown: String },
}

/// What to do about a first frame.
#[derive(Debug)]
pub enum AuthStart {
    /// The client shows this token.
    Token(String),
    /// End the session, after answering with `reply` if there is one. `failed` says whether
    /// this is a failed attempt, to be filed against the client's address.
    Refuse { reply: Option<ControlFrame>, error: Error, failed: bool },
}

/// What a client is told whose address has used up its budget of failed attempts.
pub const THROTTLED: &'static str = "too many failed attempts";

/// What to do about a first frame: take the token out of an `Auth` frame, and refuse
/// everything else. Only a frame of another kind is answered, and counts as a failed attempt.
/// Where `limited`, the address has used up its budget of failed attempts: the client is
/// refused whatever it sends, and that counts no further.
pub open spec fn auth_started(first: FirstFrame, limited: bool, r: AuthStart) -> bool {
    if limited {
        r matches AuthStart::Refuse { reply, error, failed } && reply matches Some(f) && f@ == (
        FrameModel::AuthError { message: THROTTLED@ }) && error@ == ErrorModel::Auth(THROTTLED@)
            && !failed
    } else {
        match first {
            FirstFrame::Timeout => refused_unanswered(r, ErrorModel::Auth("auth timeout"@)),
            FirstFrame::Closed => refused_unanswered(
                r,
                ErrorModel::Auth("connection closed before auth"@),
            ),
            FirstFrame::Failed(e) => refused_unanswered(r, ErrorModel::Auth(e@)),
            FirstFrame::NotBinary(e) => refused_unanswered(r, ErrorModel::InvalidData(e@)),
            FirstFrame::Unreadable(e) => refused_unanswered(r, ErrorModel::Protocol(e@)),
            FirstFrame::Frame { frame, shown } => match frame@ {
                FrameModel::Auth { token, .. } => r matches AuthStart::Token(t) && t@ == token,
                _ => r matches AuthStart::Refuse { reply, error, failed } && reply matches Some(
                    f,
                ) && f@ == (FrameModel::AuthError { message: "expected Auth frame"@ }) && error@
                    == ErrorModel::Auth("unexpected frame: "@ + shown@) && failed,
            },
        }
    }
}

/// A client that is refused without an answer, which is no failed attempt.
pub open spec fn refused_unanswered(r: AuthStart, e: ErrorModel) -> bool {
    r matches AuthStart::Refuse { reply, error, failed } && reply is None && error@ == e && !failed
}

/// Refuses a client without an answer.
fn refuse_unanswered(error: Error) -> (r: AuthStart)
    ensures
        refused_unanswered(r, error@),
{
    AuthStart::Refuse { reply: None, error, failed: false }
}

/// Starts the handshake. `limited` says whether the client's address has used up its budget of
/// failed attempts.
pub fn start_auth(first: FirstFrame, limited: bool) -> (r: AuthStart)
    ensures
        auth_started(first, limited, r),
{
    if limited {
        return AuthStart::Refuse {
            reply: Some(ControlFrame::AuthError { message: THROTTLED.to_owned() }),
            error: Error::Auth(THROTTLED.to_owned()),
            failed: false,
        };
    }
    match first {
        FirstFrame::Timeout => refuse_unanswered(Error::Auth("auth timeout".to_owned())),
        FirstFrame::Closed => refuse_unanswered(
            Error::Auth("connection closed before auth".to_owned()),
        ),
        FirstFrame::Failed(e) => refuse_unanswered(Error::Auth(e)),
        FirstFrame::NotBinary(e) => refuse_unanswered(Error::InvalidData(e)),
        FirstFrame::Unreadable(e) => refuse_unanswered(Error::Protocol(e)),
        FirstFrame::Frame { frame, shown } => match frame {
            ControlFrame::Auth { token, client_version: _ } => AuthStart::Token(token),
            _ => AuthStart::Refuse {
                reply: Some(ControlFrame::AuthError { message: "expected Auth frame".to_owned() }),
                error: Error::Auth("unexpected frame: ".to_owned().concat(shown.as_str())),
                failed: true,
            },
        },
    }
}

/// Whether a token is the admin token, as far as their digests tell.
pub open spec fn is_admin_token(cfg: ConfigModel, token: Seq<char>) -> bool {
    same_secret(token, cfg.admin_token)
}

/// Whether the database has to be asked for a token: where authentication is on, for every
/// token but the admin token of a client that is not `limited`.
pub open spec fn lookup_needed(cfg: ConfigModel, token: Seq<char>, limited: bool) -> bool {
    !limited && cfg.require_auth && !is_admin_token(cfg, token)
}

/// Whether the database has to be asked for a token: where authentication is on, for every
/// token but the admin token. A client whose address is `limited` has its token neither
/// compared nor looked up.
pub fn needs_lookup(cfg: &ControlConfig, token: &str, limited: bool) -> (r: bool)
    ensures
        r == lookup_needed(cfg@, token@, limited),
{
    !limited && cfg.require_auth && !secret_eq(token, cfg.admin_token.as_str())
}

/// Whether a client may connect. `limited` says whether its address has used up its budget of
/// failed attempts, `admin` whether its token is the admin token; `found` is the database's
/// record of the token, `None` where it has none, could not be asked or was not.
pub open spec fn may_connect(
    cfg: ConfigModel,
    limited: bool,
    admin: bool,
    found: Option<TokenModel>,
) -> bool {
    !limited && (!cfg.require_auth || admin || found is Some)
}

/// The database's record that counts for a session: that of an admin token does not, and none
/// does where authentication is off.
pub open spec fn session_token(
    cfg: ConfigModel,
    admin: bool,
    found: Option<TokenModel>,
) -> Option<TokenModel> {
    if !cfg.require_auth || admin {
        None
    } else {
        found
    }
}

/// What a session notes of the token that was shown: nothing where authentication is off.
pub open spec fn noted_token(cfg: ConfigModel, token: Seq<char>) -> Seq<char> {
    if cfg.require_auth {
        token
    } else {
        ""@
    }
}

/// How a handshake ends.
#[derive(Debug)]
pub enum AuthEnd {
    Admitted { session_id: u128, reply: ControlFrame, token: Option<TokenFacts> },
    /// `failed` says whether this is a failed attempt, to be filed against the client's
    /// address.
    Refused { reply: ControlFrame, error: Error, failed: bool },
}

/// What settling a handshake does.
pub open spec fn auth_settled(
    before: CoreModel,
    after: CoreModel,
    cfg: ConfigModel,
    peer: Seq<char>,
    token: Seq<char>,
    limited: bool,
    admin: bool,
    found: Option<TokenModel>,
    session_id: u128,
    now: u64,
    r: AuthEnd,
) -> bool {
    if may_connect(cfg, limited, admin, found) {
        let record = session_token(cfg, admin, found);
        &&& after == (CoreModel {
            sessions: before.sessions.insert(
                session_id,
                new_session(
                    peer,
                    noted_token(cfg, token),
                    match record {
                        Some(t) => Some(t.id),
                        None => None,
                    },
                    match record {
                        Some(t) => t.user_id,
                        None => None,
                    },
                    now,
                ),
            ),
            ..before
        })
        &&& r matches AuthEnd::Admitted { session_id: id, reply, token: t } && id == session_id
            && reply@ == (FrameModel::AuthOk { session_id, server_version: cfg.server_version })
            && opt_token(t) == record
    } else {
        let message = if limited {
            THROTTLED@
        } else {
            "invalid token"@
        };
        &&& after == before
        &&& r matches AuthEnd::Refused { reply, error, failed } && reply@ == (
        FrameModel::AuthError { message }) && error@ == ErrorModel::Auth(message) && failed
            == !limited
    }
}

/// Refuses a client's token.
fn refuse_token(message: &str, failed: bool) -> (r: AuthEnd)
    ensures
        r matches AuthEnd::Refused { reply, error, failed: f } && reply@ == (
        FrameModel::AuthError { message: message@ }) && error@ == ErrorModel::Auth(message@) && f
            == failed,
{
    AuthEnd::Refused {
        reply: ControlFrame::AuthError { message: message.to_owned() },
        error: Error::Auth(message.to_owned()),
        failed,
    }
}

/// Settles a handshake of which the caller says whether the token is the admin token, under a
/// session id and with a clock reading that the caller supplies. See [`settle_auth`].
pub fn settle_auth_with(
    core: &mut TunnelCore,
    cfg: &ControlConfig,
    peer: String,
    token: String,
    limited: bool,
    admin: bool,
    found: Option<TokenFacts>,
    session_id: u128,
    now: u64,
) -> (r: AuthEnd)
    ensures
        auth_settled(
            old(core)@,
            final(core)@,
            cfg@,
            peer@,
            token@,
            limited,
            admin,
            opt_token(found),
            session_id,
            now,
            r,
        ),
{
    if limited {
        return refuse_token(THROTTLED, false);
    }
    if cfg.require_auth && !admin && found.is_none() {
        return refuse_token("invalid token", true);
    }
    let record: Option<TokenFacts> = if !cfg.require_auth || admin {
        None
    } else {
        found
    };
    let noted: String = if cfg.require_auth {
        token
    } else {
        "".to_owned()
    };
    let (db_token_id, user_id): (Option<String>, Option<u128>) = match &record {
        Some(t) => (Some(t.id.clone()), t.user_id),
        None => (None, None),
    };
    core.register_session_with(peer, noted, db_token_id, user_id, session_id, now);
    AuthEnd::Admitted {
        session_id,
        reply: ControlFrame::AuthOk { session_id, server_version: cfg.server_version.clone() },
        token: record,
    }
}

/// Settles a handshake: a client that may connect gets a session, which notes whose token it
/// showed, where authentication is on; any other is refused and leaves nothing behind. A client
/// whose address is `limited` is refused before its token is compared with any other.
pub fn settle_auth(
    core: &mut TunnelCore,
    cfg: &ControlConfig,
    peer: String,
    token: String,
    limited: bool,
    found: Option<TokenFacts>,
) -> (r: AuthEnd)
    ensures
        exists|session_id: u128, now: u64|
            is_random_uuid(session_id) && #[trigger] auth_settled(
                old(core)@,
                final(core)@,
                cfg@,
                peer@,
                token@,
                limited,
                is_admin_token(cfg@, token@),
                opt_token(found),
                session_id,
                now,
                r,
            ),
{
    let admin: bool = !limited && secret_eq(token.as_str(), cfg.admin_token.as_str());
    let session_id: u128 = new_uuid();
    let now: u64 = core.clock_nanos();
    let ghost (who, shown, record) = (peer@, token@, opt_token(found));
    let end: AuthEnd = settle_auth_with(
        core,
        cfg,
        peer,
        token,
        limited,
        admin,
        found,
        session_id,
        now,
    );
    assert(auth_settled(
        old(core)@,
        core@,
        cfg@,
        who,
        shown,
        limited,
        is_admin_token(cfg@, shown),
        record,
        session_id,
        now,
        end,
    ));
    end
}

// ── who may register ─────────────────────────────────────────────────────────

/// What a user's plan allows.
#[derive(Debug, Clone, Copy)]
pub struct PlanLimits {
    pub max_tunnels: Option<i32>,
    pub allow_custom_subdomains: bool,
}

/// What to do next about a request for a tunnel.
#[derive(Debug)]
pub enum GateStep {
    /// Refuse it, with this message.
    Refuse(String),
    /// Find out the user's plan.
    AskPlan(u128),
    /// Find out how many tunnels the user has open.
    AskOpen(u128),
    /// Register the tunnel.
    Admit,
}

/// The view of a [`GateStep`].
#[verifier::ext_equal]
pub enum GateModel {
    Refuse(Seq<char>),
    AskPlan(u128),
    AskOpen(u128),
    Admit,
}

impl View for GateStep {
    type V = GateModel;

    open spec fn view(&self) -> GateModel {
        match self {
            GateStep::Refuse(s) => GateModel::Refuse(s@),
            GateStep::AskPlan(u) => GateModel::AskPlan(*u),
            GateStep::AskOpen(u) => GateModel::AskOpen(*u),
            GateStep::Admit => GateModel::Admit,
        }
    }
}

/// What a plan says to a request, where `open` is the number of the user's open tunnels, if
/// known.
pub open spec fn plan_gate(
    user: u128,
    plan: PlanLimits,
    open: Option<i64>,
    subdomain: Option<Seq<char>>,
) -> GateModel {
    if plan.max_tunnels is Some && open is None {
        GateModel::AskOpen(user)
    } else if plan.max_tunnels is Some && open->0 >= plan.max_tunnels->0 {
        GateModel::Refuse(
            "tunnel limit of "@ + signed_decimal(plan.max_tunnels->0 as int) + " reached"@,
        )
    } else if !plan.allow_custom_subdomains && subdomain is Some && (subdomain->0).len() > 0 {
        GateModel::Refuse("custom subdomains require a paid plan"@)
    } else {
        GateModel::Admit
    }
}

/// What to do next about a request for a tunnel at `now`. `plan` is what asking for the plan
/// gave (`Some(None)`: the user has none), `open` what asking for the open tunnels gave; each
/// is `None` before it has been asked.
///
/// Sessions without a token of the database are not limited. A token that is not active is
/// refused always; expiry and plan count only for tokens that are not unlimited and belong to
/// a user.
pub open spec fn gate_model(
    token: Option<TokenModel>,
    now: i128,
    subdomain: Option<Seq<char>>,
    plan: Option<Option<PlanLimits>>,
    open: Option<i64>,
) -> GateModel {
    match token {
        None => GateModel::Admit,
        Some(t) => if t.status != "active"@ {
            GateModel::Refuse("token is suspended or revoked"@)
        } else if t.unlimited {
            GateModel::Admit
        } else {
            match t.user_id {
                None => GateModel::Admit,
                Some(user) => if t.expires_at is Some && now > t.expires_at->0 {
                    GateModel::Refuse("token has expired"@)
                } else {
                    match plan {
                        None => GateModel::AskPlan(user),
                        Some(None) => GateModel::Admit,
                        Some(Some(p)) => plan_gate(user, p, open, subdomain),
                    }
                },
            }
        },
    }
}

/// What to do next about a request for a tunnel, by what is known so far.
pub fn gate(
    token: &Option<TokenFacts>,
    now: i128,
    subdomain: &Option<String>,
    plan: Option<Option<PlanLimits>>,
    open: Option<i64>,
) -> (r: GateStep)
    ensures
        r@ == gate_model(opt_token(*token), now, opt_text(*subdomain), plan, open),
{
    let t: &TokenFacts = match token {
        None => {
            return GateStep::Admit;
        },
        Some(t) => t,
    };
    if !text_eq(t.status.as_str(), "active") {
        return GateStep::Refuse("token is suspended or revoked".to_owned());
    }
    if t.unlimited {
        return GateStep::Admit;
    }
    let user: u128 = match t.user_id {
        None => {
            return GateStep::Admit;
        },
        Some(u) => u,
    };
    if let Some(exp) = t.expires_at {
        if now > exp {
            return GateStep::Refuse("token has expired".to_owned());
        }
    }
    let p: PlanLimits = match plan {
        None => {
            return GateStep::AskPlan(user);
        },
        Some(None) => {
            return GateStep::Admit;
        },
        Some(Some(p)) => p,
    };
    if let Some(limit) = p.max_tunnels {
        match open {
            None => {
                return GateStep::AskOpen(user);
            },
            Some(n) => {
                if n >= limit as i64 {
                    return GateStep::Refuse(
                        join3("tunnel limit of ", signed_text(limit).as_str(), " reached"),
                    );
                }
            },
        }
    }
    if !p.allow_custom_subdomains {
        if let Some(s) = subdomain {
            if !s.as_str().is_empty() {
                return GateStep::Refuse("custom subdomains require a paid plan".to_owned());
            }
        }
    }
    GateStep::Admit
}

/// Deciding on a request comes to an end and asks only what matters: with both answers at hand
/// nothing more is asked, and where nothing was asked, an answer would have changed nothing.
pub proof fn law_only_what_matters_is_asked(
    token: Option<TokenModel>,
    now: i128,
    subdomain: Option<Seq<char>>,
    plan: Option<PlanLimits>,
    open: i64,
)
    ensures
        ({
            let end = gate_model(token, now, subdomain, Some(plan), Some(open));
            let first = gate_model(token, now, subdomain, None, None);
            let second = gate_model(token, now, subdomain, Some(plan), None);
            &&& end is Admit || end is Refuse
            &&& !(first is AskPlan) ==> first == end
            &&& !(second is AskOpen) ==> second == end
        }),
{
}

// ── registering ──────────────────────────────────────────────────────────────

/// What the log of tunnels is told about a new one.
#[derive(Debug)]
pub struct TunnelLog {
    pub tunnel_id: u128,
    pub protocol: String,
    pub label: String,
}

/// The view of a [`TunnelLog`].
#[verifier::ext_equal]
pub struct TunnelLogModel {
    pub tunnel_id: u128,
    pub protocol: Seq<char>,
    pub label: Seq<char>,
}

impl View for TunnelLog {
    type V = TunnelLogModel;

    open spec fn view(&self) -> TunnelLogModel {
        TunnelLogModel {
            tunnel_id: self.tunnel_id,
            protocol: self.protocol@,
            label: self.label@,
        }
    }
}

/// The answer to a request for a tunnel, and what to log of a new one.
#[derive(Debug)]
pub struct RegisterReply {
    pub reply: ControlFrame,
    pub log: Option<TunnelLog>,
}

/// The pool that a request asks for. Without pools, or without a name and a key, the tunnel
/// stands alone.
pub open spec fn asked_group(cfg: ConfigModel, req: RequestModel) -> Option<GroupSpecModel> {
    if cfg.load_balancing && req.group is Some && req.group_key_hash is Some {
        Some(
            GroupSpecModel {
                group_name: req.group->0,
                key_hash: req.group_key_hash->0,
                health_check: req.health_check,
            },
        )
    } else {
        None
    }
}

/// The answer to a refused request.
pub open spec fn is_refusal(req: RequestModel, message: Seq<char>, r: RegisterReply) -> bool {
    r.reply@ == (FrameModel::TunnelError { request_id: req.request_id, message }) && r.log is None
}

/// The answer to a granted request.
pub open spec fn is_grant(
    req: RequestModel,
    id: u128,
    url: Seq<char>,
    port: Option<u16>,
    p2p_name: Option<Seq<char>>,
    protocol: Seq<char>,
    label: Seq<char>,
    r: RegisterReply,
) -> bool {
    &&& r.reply@ == (FrameModel::TunnelRegistered {
        request_id: req.request_id,
        tunnel_id: id,
        public_url: url,
        assigned_port: port,
        p2p_tunnel_name: p2p_name,
    })
    &&& r.log matches Some(log) && log@ == (TunnelLogModel { tunnel_id: id, protocol, label })
}

/// The scheme of an HTTP or HTTPS tunnel.
pub open spec fn http_scheme(p: TunnelProtocol) -> Seq<char> {
    if p == TunnelProtocol::Https {
        "https"@
    } else {
        "http"@
    }
}

/// What an HTTP registration that came to `x` is answered.
pub open spec fn http_answer(
    cfg: ConfigModel,
    req: RequestModel,
    x: Result<(u128, Seq<char>), ErrorModel>,
    r: RegisterReply,
) -> bool {
    match x {
        Ok((id, label)) => is_grant(
            req,
            id,
            http_scheme(req.protocol) + "://"@ + label + "."@ + cfg.domain,
            None,
            None,
            http_scheme(req.protocol),
            label,
            r,
        ),
        Err(e) => is_refusal(req, error_text(e), r),
    }
}

/// What a registration on a port that came to `x` is answered.
pub open spec fn port_answer(
    cfg: ConfigModel,
    req: RequestModel,
    protocol: Seq<char>,
    x: Result<(u128, u16), ErrorModel>,
    r: RegisterReply,
) -> bool {
    match x {
        Ok((id, port)) => is_grant(
            req,
            id,
            protocol + "://"@ + cfg.domain + ":"@ + decimal(port as nat),
            Some(port),
            None,
            protocol,
            decimal(port as nat),
            r,
        ),
        Err(e) => is_refusal(req, error_text(e), r),
    }
}

/// What a peer-to-peer registration that came to `x` is answered.
pub open spec fn p2p_answer(
    req: RequestModel,
    x: Result<(u128, Seq<char>), ErrorModel>,
    r: RegisterReply,
) -> bool {
    match x {
        Ok((id, name)) => is_grant(
            req,
            id,
            "p2p://"@ + name,
            None,
            Some(name),
            "p2p"@,
            name,
            r,
        ),
        Err(e) => is_refusal(req, error_text(e), r),
    }
}

/// Why a server does not take a peer-to-peer publisher, before its name is looked at.
pub open spec fn p2p_refusal(cfg: ConfigModel, req: RequestModel) -> Option<Seq<char>> {
    if !cfg.p2p_enabled {
        Some("P2P tunnels are not enabled on this server"@)
    } else if req.p2p_name is None {
        Some("P2P tunnel requires a name (p2p_name)"@)
    } else if req.p2p_secret_hash is None {
        Some("P2P tunnel requires a secret hash (p2p_secret_hash)"@)
    } else {
        None
    }
}

/// What registering a tunnel for a session does, and how it is answered.
pub open spec fn tunnel_answered(
    before: CoreModel,
    after: CoreModel,
    cfg: ConfigModel,
    sid: u128,
    req: RequestModel,
    draw: Draw,
    r: RegisterReply,
) -> bool {
    match req.protocol {
        TunnelProtocol::Http | TunnelProtocol::Https => exists|x: Result<
            (u128, Seq<char>),
            ErrorModel,
        >| #[trigger]
            http_registered(
                before,
                after,
                sid,
                req.subdomain,
                req.protocol,
                asked_group(cfg, req),
                draw,
                x,
            ) && http_answer(cfg, req, x, r),
        TunnelProtocol::Tcp => exists|x: Result<(u128, u16), ErrorModel>| #[trigger]
            tcp_registered(before, after, sid, asked_group(cfg, req), draw, x) && port_answer(
                cfg,
                req,
                "tcp"@,
                x,
                r,
            ),
        TunnelProtocol::Udp => exists|x: Result<(u128, u16), ErrorModel>| #[trigger]
            udp_registered(before, after, sid, draw, x) && port_answer(cfg, req, "udp"@, x, r),
        TunnelProtocol::P2p => match p2p_refusal(cfg, req) {
            Some(message) => after == before && is_refusal(req, message, r),
            None => exists|x: Result<(u128, Seq<char>), ErrorModel>| #[trigger]
                p2p_registered(
                    before,
                    after,
                    sid,
                    req.p2p_name->0,
                    req.p2p_secret_hash->0,
                    draw,
                    x,
                ) && p2p_answer(req, x, r),
        },
    }
}

/// The answer to a refused request.
fn refusal(request_id: String, message: String) -> (r: RegisterReply)
    ensures
        r.reply@ == (FrameModel::TunnelError { request_id: request_id@, message: message@ }),
        r.log is None,
{
    RegisterReply { reply: ControlFrame::TunnelError { request_id, message }, log: None }
}

/// The answer to a granted request.
fn grant(
    request_id: String,
    id: u128,
    url: String,
    port: Option<u16>,
    p2p_name: Option<String>,
    protocol: &str,
    label: String,
) -> (r: RegisterReply)
    ensures
        r.reply@ == (FrameModel::TunnelRegistered {
            request_id: request_id@,
            tunnel_id: id,
            public_url: url@,
            assigned_port: port,
            p2p_tunnel_name: opt_text(p2p_name),
        }),
        r.log matches Some(log) && log@ == (TunnelLogModel {
            tunnel_id: id,
            protocol: protocol@,
            label: label@,
        }),
{
    RegisterReply {
        reply: ControlFrame::TunnelRegistered {
            request_id,
            tunnel_id: id,
            public_url: url,
            assigned_port: port,
            p2p_tunnel_name: p2p_name,
        },
        log: Some(TunnelLog { tunnel_id: id, protocol: protocol.to_owned(), label }),
    }
}

/// The answer to a registration on a port.
fn answer_port(
    cfg: &ControlConfig,
    request_id: String,
    protocol: &str,
    x: Result<(u128, u16), Error>,
) -> (r: RegisterReply)
    ensures
        forall|req: RequestModel|
            req.request_id == request_id@ ==> #[trigger] port_answer(
                cfg@,
                req,
                protocol@,
                registered_port(x),
                r,
            ),
{
    match x {
        Ok((id, port)) => {
            let label: String = decimal_text(port as u64);
            let mut url: String = join3(protocol, "://", cfg.domain.as_str());
            url.append(":");
            url.append(label.as_str());
            grant(request_id, id, url, Some(port), None, protocol, label)
        },
        Err(e) => refusal(request_id, e.message()),
    }
}

/// Registers a tunnel with an id, a generated label and clock readings that the caller
/// supplies. See [`register_tunnel`].
pub fn register_tunnel_with(
    core: &mut TunnelCore,
    cfg: &ControlConfig,
    session_id: &u128,
    request: RegisterRequest,
    draw: Draw,
) -> (r: RegisterReply)
    ensures
        tunnel_answered(old(core)@, final(core)@, cfg@, *session_id, request@, draw, r),
{
    let ghost req = request@;
    let ghost before = core@;
    let protocol: TunnelProtocol = request.protocol;
    let group: Option<GroupSpec> = if cfg.load_balancing {
        match (request.group, request.group_key_hash) {
            (Some(group_name), Some(key_hash)) => Some(
                GroupSpec { group_name, key_hash, health_check: request.health_check },
            ),
            _ => None,
        }
    } else {
        None
    };
    assert(opt_group(group) == asked_group(cfg@, req));
    let request_id: String = request.request_id;
    match protocol {
        TunnelProtocol::Http | TunnelProtocol::Https => {
            let x: Result<(u128, String), Error> = core.register_http_tunnel_with(
                session_id,
                request.subdomain,
                protocol,
                group,
                draw,
            );
            let ghost gx = registered(x);
            let scheme: &str = if protocol == TunnelProtocol::Https {
                "https"
            } else {
                "http"
            };
            let r: RegisterReply = match x {
                Ok((id, label)) => {
                    let mut url: String = join3(scheme, "://", label.as_str());
                    url.append(".");
                    url.append(cfg.domain.as_str());
                    grant(request_id, id, url, None, None, scheme, label)
                },
                Err(e) => refusal(request_id, e.message()),
            };
            assert(http_answer(cfg@, req, gx, r));
            assert(http_registered(
                before,
                core@,
                *session_id,
                req.subdomain,
                req.protocol,
                asked_group(cfg@, req),
                draw,
                gx,
            ));
            r
        },
        TunnelProtocol::Tcp => {
            let x: Result<(u128, u16), Error> = core.register_tcp_tunnel_with(
                session_id,
                group,
                draw,
            );
            let ghost gx = registered_port(x);
            let r: RegisterReply = answer_port(cfg, request_id, "tcp", x);
            assert(port_answer(cfg@, req, "tcp"@, gx, r));
            assert(tcp_registered(before, core@, *session_id, asked_group(cfg@, req), draw, gx));
            r
        },
        TunnelProtocol::Udp => {
            let x: Result<(u128, u16), Error> = core.register_udp_tunnel_with(session_id, draw);
            let ghost gx = registered_port(x);
            let r: RegisterReply = answer_port(cfg, request_id, "udp", x);
            assert(port_answer(cfg@, req, "udp"@, gx, r));
            assert(udp_registered(before, core@, *session_id, draw, gx));
            r
        },
        TunnelProtocol::P2p => {
            if !cfg.p2p_enabled {
                return refusal(
                    request_id,
                    "P2P tunnels are not enabled on this server".to_owned(),
                );
            }
            let name: String = match request.p2p_name {
                Some(n) => n,
                None => {
                    return refusal(
                        request_id,
                        "P2P tunnel requires a name (p2p_name)".to_owned(),
                    );
                },
            };
            let secret_hash: String = match request.p2p_secret_hash {
                Some(h) => h,
                None => {
                    return refusal(
                        request_id,
                        "P2P tunnel requires a secret hash (p2p_secret_hash)".to_owned(),
                    );
                },
            };
            let x: Result<(u128, String), Error> = core.register_p2p_tunnel_with(
                session_id,
                name,
                secret_hash,
                draw,
            );
            let ghost gx = registered(x);
            let r: RegisterReply = match x {
                Ok((id, label)) => {
                    let url: String = "p2p://".to_owned().concat(label.as_str());
                    grant(request_id, id, url, None, Some(label.clone()), "p2p", label)
                },
                Err(e) => refusal(request_id, e.message()),
            };
            assert(p2p_answer(req, gx, r));
            assert(p2p_registered(
                before,
                core@,
                *session_id,
                req.p2p_name->0,
                req.p2p_secret_hash->0,
                draw,
                gx,
            ));
            r
        },
    }
}

/// Registers the tunnel that a client asks for, and says what to answer and to log.
pub fn register_tunnel(
    core: &mut TunnelCore,
    cfg: &ControlConfig,
    session_id: &u128,
    request: RegisterRequest,
) -> (r: RegisterReply)
    ensures
        exists|draw: Draw|
            is_random_draw(draw) && #[trigger] tunnel_answered(
                old(core)@,
                final(core)@,
                cfg@,
                *session_id,
                request@,
                draw,
                r,
            ),
{
    let draw: Draw = core.draw();
    register_tunnel_with(core, cfg, session_id, request, draw)
}

// ── laws ─────────────────────────────────────────────────────────────────────

/// A client whose address has used up its budget of failed attempts gets nowhere: whatever it
/// sends first and whatever token it shows, it is refused with an authentication error, the
/// core stays as it is, and nothing further is filed against it.
pub proof fn law_throttled_client_is_refused(
    first: FirstFrame,
    start: AuthStart,
    before: CoreModel,
    after: CoreModel,
    cfg: ConfigModel,
    peer: Seq<char>,
    token: Seq<char>,
    admin: bool,
    found: Option<TokenModel>,
    session_id: u128,
    now: u64,
    end: AuthEnd,
)
    requires
        auth_started(first, true, start),
        auth_settled(
            before,
            after,
            cfg,
            peer,
            token,
            true,
            admin,
            found,
            session_id,
            now,
            end,
        ),
    ensures
        start matches AuthStart::Refuse { error, failed, .. } && error@ is Auth && !failed,
        end matches AuthEnd::Refused { error, failed, .. } && error@ is Auth && !failed,
        after == before,
{
}

/// A token that is active and either unlimited or without a user is never refused, nor is
/// anything asked about it; one that is not active always is refused.
pub proof fn law_status_comes_first(
    t: TokenModel,
    now: i128,
    subdomain: Option<Seq<char>>,
    plan: Option<Option<PlanLimits>>,
    open: Option<i64>,
)
    ensures
        t.status == "active"@ && (t.unlimited || t.user_id is None) ==> gate_model(
            Some(t),
            now,
            subdomain,
            plan,
            open,
        ) is Admit,
        t.status != "active"@ ==> gate_model(Some(t), now, subdomain, plan, open) is Refuse,
{
}

/// A core that is consistent stays so whatever tunnel a client asks for, as long as the id
/// drawn for the tunnel is a new one.
pub proof fn law_registrations_keep_the_core_consistent(
    before: CoreModel,
    after: CoreModel,
    cfg: ConfigModel,
    sid: u128,
    req: RequestModel,
    draw: Draw,
    r: RegisterReply,
)
    requires
        consistent(before),
        is_fresh(before, draw.tunnel_id),
        tunnel_answered(before, after, cfg, sid, req, draw, r),
    ensures
        consistent(after),
        r.log is None ==> after == before,
{
    let group = asked_group(cfg, req);
    match req.protocol {
        TunnelProtocol::Http | TunnelProtocol::Https => {
            let x = choose|x: Result<(u128, Seq<char>), ErrorModel>| #[trigger]
                http_registered(before, after, sid, req.subdomain, req.protocol, group, draw, x)
                    && http_answer(cfg, req, x, r);
            let label = http_label(req.subdomain, draw);
            let existing = choose|existing: Option<TunnelProtocol>|
                (before.http.contains_key(label) ==> is_member_protocol(
                    before.http[label],
                    existing,
                )) && #[trigger] http_outcome(
                    before,
                    after,
                    sid,
                    req.subdomain,
                    req.protocol,
                    group,
                    draw,
                    existing,
                    x,
                );
            law_http_registration_consistent(
                before,
                sid,
                req.subdomain,
                req.protocol,
                group,
                draw,
                existing,
            );
        },
        TunnelProtocol::Tcp => {
            law_tcp_registration_consistent(before, sid, group, draw);
        },
        TunnelProtocol::Udp => {
            law_udp_registration_consistent(before, sid, draw);
        },
        TunnelProtocol::P2p => {
            if p2p_refusal(cfg, req) is None {
                law_p2p_registration_consistent(
                    before,
                    sid,
                    req.p2p_name->0,
                    req.p2p_secret_hash->0,
                    draw,
                );
            }
        },
    }
}

} // verus!
