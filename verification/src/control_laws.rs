//! What a client is owed: who gets in, which tunnels are granted, and what the answer says.
use crate::auth::same_secret;
use crate::error::{error_text, ErrorModel};
use crate::group::{is_member_protocol, GroupModel};
use crate::ids::hex_label;
use crate::protocol::{FrameModel, RequestModel, TunnelProtocol};
use crate::registration_laws::{
    has_room, is_subdomain, law_http_granted_when, law_http_grant_leaves, law_p2p_registration,
    law_tcp_grant_leaves, law_tcp_granted_when, law_udp_grant_leaves, law_udp_granted_when,
    session_gained,
};
use crate::router::{
    http_outcome, http_registered, p2p_registered, tcp_registered, udp_registered,
};
use crate::router_laws::{consistent, group_sound};
use crate::router_model::{group_at, http_registration, tunnel_at, CoreModel, Draw, KeyModel};
use crate::session::{
    asked_group, auth_settled, auth_started, gate_model, http_answer, lookup_needed, p2p_answer,
    p2p_refusal, port_answer, tunnel_answered, version_told, AuthEnd, AuthStart, ConfigModel,
    FirstFrame, GateModel, PlanLimits, RegisterReply, TokenModel,
};
use crate::text::{decimal, signed_decimal};
use vstd::prelude::*;

verus! {

/// Clients are told the version that the operator set, and the server's own where none was set.
pub proof fn law_version_told(set: Seq<char>)
    ensures
        version_told(Some(set)) == set,
        version_told(None) == "0.7.0"@,
{
}

// ── handshake ────────────────────────────────────────────────────────────────

/// A handshake goes on exactly with an `Auth` frame, and then with the token that is in it.
/// Only a frame of another kind is answered, and only that is a failed attempt.
pub proof fn law_first_frame_decides(first: FirstFrame, r: AuthStart)
    requires
        auth_started(first, false, r),
    ensures
        r is Token <==> (first matches FirstFrame::Frame { frame, .. } && frame@ is Auth),
        r matches AuthStart::Token(t) ==> (first matches FirstFrame::Frame { frame, .. }
            && frame@->Auth_token == t@),
        r matches AuthStart::Refuse { reply, error, failed } ==> {
            &&& failed <==> first is Frame
            &&& reply is Some <==> first is Frame
            &&& reply matches Some(f) ==> f@ == (FrameModel::AuthError {
                message: "expected Auth frame"@,
            })
            &&& error@ is InvalidData <==> first is NotBinary
            &&& error@ is Protocol <==> first is Unreadable
            &&& error@ is Auth <==> !(first is NotBinary || first is Unreadable)
            &&& first is Timeout ==> error@ == ErrorModel::Auth("auth timeout"@)
            &&& first is Closed ==> error@ == ErrorModel::Auth("connection closed before auth"@)
            &&& first matches FirstFrame::Failed(e) ==> error@ == ErrorModel::Auth(e@)
            &&& first matches FirstFrame::NotBinary(e) ==> error@ == ErrorModel::InvalidData(e@)
            &&& first matches FirstFrame::Unreadable(e) ==> error@ == ErrorModel::Protocol(e@)
            &&& first matches FirstFrame::Frame { shown, .. } ==> error@ == ErrorModel::Auth(
                "unexpected frame: "@ + shown@,
            )
        },
{
}

/// A client whose address has used up its budget is told so whatever it sends, and that is no
/// further failed attempt.
pub proof fn law_limited_clients_are_told(first: FirstFrame, r: AuthStart)
    requires
        auth_started(first, true, r),
    ensures
        r matches AuthStart::Refuse { reply, error, failed } && !failed && (reply matches Some(f)
            && f@ == (FrameModel::AuthError { message: "too many failed attempts"@ })) && error@
            == ErrorModel::Auth("too many failed attempts"@),
{
}

/// Who gets a session: nobody whose address is limited; everybody else where authentication is
/// off; and where it is on, who shows the admin token or one that the database knows.
pub proof fn law_who_gets_in(
    before: CoreModel,
    after: CoreModel,
    cfg: ConfigModel,
    peer: Seq<char>,
    token: Seq<char>,
    limited: bool,
    admin: bool,
    found: Option<TokenModel>,
    session_id: u128,
    now: u64,
    r: AuthEnd,
)
    requires
        auth_settled(
            before,
            after,
            cfg,
            peer,
            token,
            limited,
            admin,
            found,
            session_id,
            now,
            r,
        ),
    ensures
        r is Admitted <==> !limited && (!cfg.require_auth || admin || found is Some),
        r matches AuthEnd::Refused { reply, error, failed } ==> {
            &&& after == before
            &&& failed == !limited
            &&& !limited ==> reply@ == (FrameModel::AuthError { message: "invalid token"@ })
                && error@ == ErrorModel::Auth("invalid token"@)
            &&& limited ==> reply@ == (FrameModel::AuthError {
                message: "too many failed attempts"@,
            }) && error@ == ErrorModel::Auth("too many failed attempts"@)
        },
{
}

/// What a client that gets in has: a session under the id that it is told, with the version
/// that the server tells, known by the address and by whose token it shows. The admin token is
/// nobody's, and where authentication is off no token counts. No other session changes.
pub proof fn law_what_a_session_starts_with(
    before: CoreModel,
    after: CoreModel,
    cfg: ConfigModel,
    peer: Seq<char>,
    token: Seq<char>,
    admin: bool,
    found: Option<TokenModel>,
    session_id: u128,
    now: u64,
    r: AuthEnd,
)
    requires
        auth_settled(
            before,
            after,
            cfg,
            peer,
            token,
            false,
            admin,
            found,
            session_id,
            now,
            r,
        ),
    ensures
        r matches AuthEnd::Admitted { session_id: id, reply, token: kept } ==> {
            let s = after.sessions[id];
            let counts = cfg.require_auth && !admin;
            &&& id == session_id
            &&& reply@ == (FrameModel::AuthOk {
                session_id: id,
                server_version: cfg.server_version,
            })
            &&& after == (CoreModel { sessions: after.sessions, ..before })
            &&& after.sessions.dom() =~= before.sessions.dom().insert(id)
            &&& forall|other: u128|
                other != id && #[trigger] before.sessions.contains_key(other)
                    ==> after.sessions[other] == before.sessions[other]
            &&& s.client_addr == peer
            &&& cfg.require_auth ==> s.auth_token_id == token
            &&& !cfg.require_auth ==> s.auth_token_id == ""@
            &&& counts ==> found is Some && s.db_token_id == Some((found->0).id) && s.user_id == (
            found->0).user_id && kept is Some && (kept->0)@ == found->0
            &&& !counts ==> s.db_token_id is None && s.user_id is None && kept is None
            &&& s.tunnels.len() == 0 && !s.data_pipe
            &&& s.connected_at == now && s.last_heartbeat == now
        },
{
}

/// The database is asked exactly where its answer decides: then a client gets in with a token
/// that it knows and not without, and otherwise whatever it would say makes no difference.
pub proof fn law_lookups_decide(
    before: CoreModel,
    after: CoreModel,
    cfg: ConfigModel,
    peer: Seq<char>,
    token: Seq<char>,
    limited: bool,
    t: TokenModel,
    session_id: u128,
    now: u64,
    r: AuthEnd,
)
    ensures
        ({
            let admin = same_secret(token, cfg.admin_token);
            let ends = |found: Option<TokenModel>|
                auth_settled(
                    before,
                    after,
                    cfg,
                    peer,
                    token,
                    limited,
                    admin,
                    found,
                    session_id,
                    now,
                    r,
                );
            if lookup_needed(cfg, token, limited) {
                &&& ends(Some(t)) ==> r is Admitted
                &&& ends(None) ==> r is Refused
            } else {
                ends(Some(t)) <==> ends(None)
            }
        }),
{
}

// ── who may register ─────────────────────────────────────────────────────────

/// Whether a token's limits apply at all: it is active, not unlimited, and belongs to a user.
pub open spec fn is_limited_token(t: TokenModel) -> bool {
    t.status == "active"@ && !t.unlimited && t.user_id is Some
}

/// With everything known, a request is admitted exactly if nothing speaks against it: the token
/// is active; and, where its limits apply, it has not expired, the user has fewer tunnels open
/// than the plan has, and a subdomain is not asked for by name unless the plan has that.
pub proof fn law_admitted_when_nothing_speaks_against(
    t: TokenModel,
    now: i128,
    subdomain: Option<Seq<char>>,
    plan: Option<PlanLimits>,
    open: i64,
)
    ensures
        ({
            let r = gate_model(Some(t), now, subdomain, Some(plan), Some(open));
            &&& r is Admit || r is Refuse
            &&& r is Admit <==> {
                &&& t.status == "active"@
                &&& is_limited_token(t) ==> {
                    &&& t.expires_at is Some ==> now <= t.expires_at->0
                    &&& plan matches Some(p) ==> {
                        &&& p.max_tunnels is Some ==> open < p.max_tunnels->0
                        &&& subdomain is Some && (subdomain->0).len() > 0
                            ==> p.allow_custom_subdomains
                    }
                }
            }
        }),
        gate_model(None, now, subdomain, Some(plan), Some(open)) is Admit,
{
}

/// On a plan without custom subdomains, nobody to whom the plan applies gets a subdomain by name,
/// whatever the plan's limit and however many tunnels are open; and an empty name is none.
pub proof fn law_plan_bans_custom_subdomains(
    t: TokenModel,
    now: i128,
    subdomain: Seq<char>,
    plan: PlanLimits,
    open: Option<i64>,
)
    requires
        is_limited_token(t),
        !plan.allow_custom_subdomains,
    ensures
        subdomain.len() > 0 ==> !(gate_model(Some(t), now, Some(subdomain), Some(Some(plan)), open)
            is Admit),
        subdomain.len() == 0 ==> gate_model(Some(t), now, Some(subdomain), Some(Some(plan)), open)
            == gate_model(Some(t), now, None, Some(Some(plan)), open),
{
}

/// More open tunnels never help, and a plan that has more never hurts.
pub proof fn law_limits_are_monotone(
    t: Option<TokenModel>,
    now: i128,
    subdomain: Option<Seq<char>>,
    plan: PlanLimits,
    more: PlanLimits,
    open: i64,
    later: i64,
)
    requires
        later >= open,
        more.max_tunnels is Some ==> plan.max_tunnels is Some && more.max_tunnels->0
            >= plan.max_tunnels->0,
        plan.allow_custom_subdomains ==> more.allow_custom_subdomains,
    ensures
        gate_model(t, now, subdomain, Some(Some(plan)), Some(later)) is Admit ==> gate_model(
            t,
            now,
            subdomain,
            Some(Some(plan)),
            Some(open),
        ) is Admit,
        gate_model(t, now, subdomain, Some(Some(plan)), Some(open)) is Admit ==> gate_model(
            t,
            now,
            subdomain,
            Some(Some(more)),
            Some(open),
        ) is Admit,
{
}

/// What is asked on the way, and of whom: the plan of the token's user, where its limits apply
/// and it has not expired; then how many tunnels that user has open, where the plan has a limit.
/// Nothing is asked twice.
pub proof fn law_what_is_asked(
    token: Option<TokenModel>,
    now: i128,
    subdomain: Option<Seq<char>>,
    plan: Option<Option<PlanLimits>>,
    open: Option<i64>,
)
    ensures
        ({
            let r = gate_model(token, now, subdomain, plan, open);
            let applies = token is Some && is_limited_token(token->0) && !((
            token->0).expires_at is Some && now > (token->0).expires_at->0);
            &&& r is AskPlan <==> applies && plan is None
            &&& r is AskOpen <==> applies && plan is Some && plan->0 is Some && (
            plan->0->0).max_tunnels is Some && open is None
            &&& r matches GateModel::AskPlan(u) ==> (token->0).user_id == Some(u)
            &&& r matches GateModel::AskOpen(u) ==> (token->0).user_id == Some(u)
        }),
{
}

/// What a client is told whose request is refused: the first thing that speaks against it, of
/// its status, its expiry, its number of tunnels and its subdomain.
pub proof fn law_gate_refusals(
    t: TokenModel,
    now: i128,
    subdomain: Option<Seq<char>>,
    plan: Option<PlanLimits>,
    open: i64,
)
    ensures
        ({
            let r = gate_model(Some(t), now, subdomain, Some(plan), Some(open));
            let expired = t.expires_at is Some && now > t.expires_at->0;
            let full = plan is Some && (plan->0).max_tunnels is Some && open >= (
            plan->0).max_tunnels->0;
            &&& t.status != "active"@ ==> r == GateModel::Refuse("token is suspended or revoked"@)
            &&& is_limited_token(t) && expired ==> r == GateModel::Refuse("token has expired"@)
            &&& is_limited_token(t) && !expired && full ==> r == GateModel::Refuse(
                "tunnel limit of "@ + signed_decimal((plan->0).max_tunnels->0 as int)
                    + " reached"@,
            )
            &&& is_limited_token(t) && !expired && !full && r is Refuse ==> r == GateModel::Refuse(
                "custom subdomains require a paid plan"@,
            )
        }),
{
}

// ── registering ──────────────────────────────────────────────────────────────

/// The scheme of a protocol, which is also its name in the log.
pub open spec fn scheme_of(p: TunnelProtocol) -> Seq<char> {
    match p {
        TunnelProtocol::Http => "http"@,
        TunnelProtocol::Https => "https"@,
        TunnelProtocol::Tcp => "tcp"@,
        TunnelProtocol::Udp => "udp"@,
        TunnelProtocol::P2p => "p2p"@,
    }
}

/// Whether what a granted request is told fits the place at which the tunnel is then routed:
/// the address that the public has it under, the port, the name among peers, and the label in
/// the log.
pub open spec fn tells_place(
    cfg: ConfigModel,
    protocol: TunnelProtocol,
    key: KeyModel,
    url: Seq<char>,
    port: Option<u16>,
    name: Option<Seq<char>>,
    label: Seq<char>,
) -> bool {
    match key {
        KeyModel::Http(s) => {
            &&& protocol is Http || protocol is Https
            &&& url == scheme_of(protocol) + "://"@ + s + "."@ + cfg.domain
            &&& port is None && name is None && label == s
        },
        KeyModel::Tcp(p) => {
            &&& protocol is Tcp
            &&& url == "tcp"@ + "://"@ + cfg.domain + ":"@ + decimal(p as nat)
            &&& port == Some(p) && name is None && label == decimal(p as nat)
        },
        KeyModel::Udp(p) => {
            &&& protocol is Udp
            &&& url == "udp"@ + "://"@ + cfg.domain + ":"@ + decimal(p as nat)
            &&& port == Some(p) && name is None && label == decimal(p as nat)
        },
        KeyModel::P2p(n) => {
            &&& protocol is P2p
            &&& url == "p2p://"@ + n
            &&& port is None && name == Some(n) && label == n
        },
    }
}

/// Gives the route of what an HTTP request was granted.
proof fn lemma_http_granted(
    before: CoreModel,
    after: CoreModel,
    cfg: ConfigModel,
    sid: u128,
    req: RequestModel,
    draw: Draw,
    r: RegisterReply,
)
    requires
        consistent(before),
        req.protocol is Http || req.protocol is Https,
        tunnel_answered(before, after, cfg, sid, req, draw, r),
        r.reply@ is TunnelRegistered,
    ensures
        ({
            let label = match req.subdomain {
                Some(s) => s,
                None => hex_label(draw.label_id),
            };
            &&& after.index == before.index.insert(draw.tunnel_id, KeyModel::Http(label))
            &&& http_answer(cfg, req, Ok((draw.tunnel_id, label)), r)
            &&& session_gained(before, after, sid, draw.tunnel_id)
            &&& tunnel_at(after, draw.tunnel_id) matches Some(info) && info.session_id == sid
                && info.protocol == req.protocol
        }),
{
    let group = asked_group(cfg, req);
    let x = choose|x: Result<(u128, Seq<char>), ErrorModel>| #[trigger]
        http_registered(before, after, sid, req.subdomain, req.protocol, group, draw, x)
            && http_answer(cfg, req, x, r);
    let label = match req.subdomain {
        Some(s) => s,
        None => hex_label(draw.label_id),
    };
    let existing = choose|existing: Option<TunnelProtocol>|
        (before.http.contains_key(label) ==> is_member_protocol(before.http[label], existing))
            && #[trigger] http_outcome(
            before,
            after,
            sid,
            req.subdomain,
            req.protocol,
            group,
            draw,
            existing,
            x,
        );
    law_http_grant_leaves(before, sid, req.subdomain, req.protocol, group, draw, existing);
}

/// What a granted request is told: the request it answers, the new tunnel, and the place at
/// which that is now routed, under the protocol that was asked for; and the log is told the
/// same. A place that was asked for by name is the one that is granted, and the tunnel there is
/// the session's.
pub proof fn law_grants_tell_what_was_granted(
    before: CoreModel,
    after: CoreModel,
    cfg: ConfigModel,
    sid: u128,
    req: RequestModel,
    draw: Draw,
    r: RegisterReply,
)
    requires
        consistent(before),
        tunnel_answered(before, after, cfg, sid, req, draw, r),
    ensures
        r.reply@ matches FrameModel::TunnelRegistered {
            request_id,
            tunnel_id,
            public_url,
            assigned_port,
            p2p_tunnel_name,
        } ==> {
            &&& request_id == req.request_id
            &&& tunnel_id == draw.tunnel_id
            &&& r.log matches Some(log) && log@.tunnel_id == tunnel_id && log@.protocol
                == scheme_of(req.protocol) && tells_place(
                cfg,
                req.protocol,
                after.index[tunnel_id],
                public_url,
                assigned_port,
                p2p_tunnel_name,
                log@.label,
            )
            &&& after.index == before.index.insert(tunnel_id, after.index[tunnel_id])
            &&& req.subdomain is Some && (req.protocol is Http || req.protocol is Https)
                ==> after.index[tunnel_id] == KeyModel::Http(req.subdomain->0)
            &&& req.protocol is P2p ==> after.index[tunnel_id] == KeyModel::P2p(req.p2p_name->0)
                && after.p2p[req.p2p_name->0].secret_hash == req.p2p_secret_hash->0
            &&& tunnel_at(after, tunnel_id) matches Some(info) && info.session_id == sid
                && info.protocol == req.protocol
            &&& session_gained(before, after, sid, tunnel_id)
        },
{
    if r.reply@ is TunnelRegistered {
        let group = asked_group(cfg, req);
        match req.protocol {
            TunnelProtocol::Http | TunnelProtocol::Https => {
                lemma_http_granted(before, after, cfg, sid, req, draw, r);
            },
            TunnelProtocol::Tcp => {
                law_tcp_grant_leaves(before, sid, group, draw);
                let x = choose|x: Result<(u128, u16), ErrorModel>| #[trigger]
                    tcp_registered(before, after, sid, group, draw, x) && port_answer(
                        cfg,
                        req,
                        "tcp"@,
                        x,
                        r,
                    );
                assert(x is Ok);
            },
            TunnelProtocol::Udp => {
                law_udp_grant_leaves(before, sid, draw);
                let x = choose|x: Result<(u128, u16), ErrorModel>| #[trigger]
                    udp_registered(before, after, sid, draw, x) && port_answer(
                        cfg,
                        req,
                        "udp"@,
                        x,
                        r,
                    );
                assert(x is Ok);
            },
            TunnelProtocol::P2p => {
                law_p2p_registration(before, sid, req.p2p_name->0, req.p2p_secret_hash->0, draw);
                let x = choose|x: Result<(u128, Seq<char>), ErrorModel>| #[trigger]
                    p2p_registered(
                        before,
                        after,
                        sid,
                        req.p2p_name->0,
                        req.p2p_secret_hash->0,
                        draw,
                        x,
                    ) && p2p_answer(req, x, r);
                assert(x is Ok);
            },
        }
    }
}

/// Every request is answered, by a grant or by a refusal that names it; what is refused changes
/// nothing and is not logged.
pub proof fn law_every_request_is_answered(
    before: CoreModel,
    after: CoreModel,
    cfg: ConfigModel,
    sid: u128,
    req: RequestModel,
    draw: Draw,
    r: RegisterReply,
)
    requires
        tunnel_answered(before, after, cfg, sid, req, draw, r),
    ensures
        r.reply@ is TunnelRegistered || r.reply@ is TunnelError,
        r.reply@ is TunnelRegistered <==> r.log is Some,
        r.reply@ matches FrameModel::TunnelError { request_id, .. } ==> request_id
            == req.request_id && after == before,
{
}

/// Whether a group has a member of a protocol.
pub open spec fn has_member_of(g: GroupModel, protocol: TunnelProtocol) -> bool {
    exists|id: u128| #[trigger]
        g.members.contains_key(id) && g.members[id].info.protocol == protocol
}

/// When a request is granted. A pool is asked for with a name and a key, and only where the
/// server has pools at all; without, the tunnel is to stand alone.
pub proof fn law_granted_when(
    before: CoreModel,
    after: CoreModel,
    cfg: ConfigModel,
    sid: u128,
    req: RequestModel,
    draw: Draw,
    r: RegisterReply,
)
    requires
        consistent(before),
        tunnel_answered(before, after, cfg, sid, req, draw, r),
    ensures
        ({
            let pools = cfg.load_balancing && req.group is Some && req.group_key_hash is Some;
            let label = match req.subdomain {
                Some(s) => s,
                None => hex_label(draw.label_id),
            };
            let pool = (req.group->0, req.group_key_hash->0);
            r.reply@ is TunnelRegistered <==> has_room(before, sid) && match req.protocol {
                TunnelProtocol::Http | TunnelProtocol::Https => {
                    &&& req.subdomain is Some ==> is_subdomain(label)
                    &&& before.http.contains_key(label) ==> pools && before.http[label].key_hash
                        == Some(req.group_key_hash->0) && has_member_of(
                        before.http[label],
                        req.protocol,
                    )
                },
                TunnelProtocol::Tcp => (pools && before.tcp_groups.contains_key(pool))
                    || before.tcp_ports.len() > 0,
                TunnelProtocol::Udp => before.udp_ports.len() > 0,
                TunnelProtocol::P2p => cfg.p2p_enabled && req.p2p_name is Some
                    && req.p2p_secret_hash is Some && !before.p2p.contains_key(req.p2p_name->0),
            }
        }),
{
    let group = asked_group(cfg, req);
    match req.protocol {
        TunnelProtocol::Http | TunnelProtocol::Https => {
            let x = choose|x: Result<(u128, Seq<char>), ErrorModel>| #[trigger]
                http_registered(before, after, sid, req.subdomain, req.protocol, group, draw, x)
                    && http_answer(cfg, req, x, r);
            let label = match req.subdomain {
                Some(s) => s,
                None => hex_label(draw.label_id),
            };
            let existing = choose|existing: Option<TunnelProtocol>|
                (before.http.contains_key(label) ==> is_member_protocol(
                    before.http[label],
                    existing,
                )) && #[trigger] http_outcome(
                    before,
                    after,
                    sid,
                    req.subdomain,
                    req.protocol,
                    group,
                    draw,
                    existing,
                    x,
                );
            law_http_granted_when(before, sid, req.subdomain, req.protocol, group, draw, existing);
            assert(r.reply@ is TunnelRegistered <==> x is Ok);
            let granted = http_registration(
                before,
                sid,
                req.subdomain,
                req.protocol,
                group,
                draw,
                existing,
            ) is Ok;
            assert(x is Ok <==> granted);
            if before.http.contains_key(label) {
                assert(group_at(before, KeyModel::Http(label)) is Some);
                let g = before.http[label];
                assert(group_sound(g));
                let some = choose|id: u128| #[trigger] g.members.contains_key(id);
                assert(g.members.contains_key(some));
                assert(existing is Some) by {
                    if existing is None {
                        assert(g.members.dom() =~= Set::empty());
                        assert(!g.members.dom().contains(some));
                    }
                }
                assert forall|id: u128| #[trigger]
                    g.members.contains_key(id) implies g.members[id].info.protocol
                    == existing->0 by {}
                assert(existing == Some(req.protocol) <==> has_member_of(g, req.protocol));
            }
        },
        TunnelProtocol::Tcp => {
            law_tcp_granted_when(before, sid, group, draw);
        },
        TunnelProtocol::Udp => {
            law_udp_granted_when(before, sid, draw);
        },
        TunnelProtocol::P2p => {
            if p2p_refusal(cfg, req) is None {
                law_p2p_registration(before, sid, req.p2p_name->0, req.p2p_secret_hash->0, draw);
            }
        },
    }
}

/// What a client is told whose publisher the server does not take.
pub proof fn law_p2p_requests_need_everything(
    before: CoreModel,
    after: CoreModel,
    cfg: ConfigModel,
    sid: u128,
    req: RequestModel,
    draw: Draw,
    r: RegisterReply,
)
    requires
        req.protocol is P2p,
        tunnel_answered(before, after, cfg, sid, req, draw, r),
    ensures
        !cfg.p2p_enabled ==> r.reply@ == (FrameModel::TunnelError {
            request_id: req.request_id,
            message: "P2P tunnels are not enabled on this server"@,
        }),
        cfg.p2p_enabled && req.p2p_name is None ==> r.reply@ == (FrameModel::TunnelError {
            request_id: req.request_id,
            message: "P2P tunnel requires a name (p2p_name)"@,
        }),
        cfg.p2p_enabled && req.p2p_name is Some && req.p2p_secret_hash is None ==> r.reply@ == (
        FrameModel::TunnelError {
            request_id: req.request_id,
            message: "P2P tunnel requires a secret hash (p2p_secret_hash)"@,
        }),
{
}

/// How errors read.
pub proof fn law_error_messages(s: Seq<char>)
    ensures
        error_text(ErrorModel::Tunnel(s)) == "tunnel error: "@ + s,
        error_text(ErrorModel::NoPortsAvailable) == "no ports available"@,
        error_text(ErrorModel::SessionNotFound(s)) == "session not found: "@ + s,
        error_text(ErrorModel::LimitExceeded(s)) == "limit exceeded: "@ + s,
        error_text(ErrorModel::Auth(s)) == "auth error: "@ + s,
        error_text(ErrorModel::Protocol(s)) == "protocol error: "@ + s,
        error_text(ErrorModel::InvalidData(s)) == "I/O error: "@ + s,
{
}

} // verus!
