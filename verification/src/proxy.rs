//! Proxying a request: from its arrival to what the public gets back.
use crate::http::{
    err_response, extract_subdomain, gateway_error, gateway_reply, plain_reply, subdomain_of,
    HttpReply, ReplyModel,
};
use crate::ids::{is_random_uuid, new_uuid};
use crate::router::TunnelCore;
use crate::router_laws::{
    consistent, law_bytes_consistent, law_request_count_consistent,
    law_waiting_connections_consistent,
};
use crate::router_model::{bytes_added, request_counted, CoreModel, KeyModel};
use crate::router_ops::picked;
use crate::text::{number_in, opt_text, parse_number};
use crate::tunnel::TunnelInfo;
use vstd::prelude::*;
use vstd::string::*;

verus! {

/// How long a client has for opening a data stream, in seconds.
pub const STREAM_TIMEOUT_SECS: u64 = 30;

/// How long the local service has for its answer, in seconds.
pub const PROXY_TIMEOUT_SECS: u64 = 60;

/// What is known of a request.
#[derive(Debug)]
pub struct ProxyRequest {
    /// The `Host` field.
    pub host: Option<String>,
    /// The `Content-Length` field.
    pub content_length: Option<String>,
    /// Whether it asks to go over to WebSocket.
    pub websocket: bool,
    /// The domain under which subdomains are served.
    pub domain: String,
    /// The longest body that is let through.
    pub max_body: usize,
}

/// The view of a [`ProxyRequest`].
#[verifier::ext_equal]
pub struct ProxyRequestModel {
    pub host: Option<Seq<char>>,
    pub content_length: Option<Seq<char>>,
    pub websocket: bool,
    pub domain: Seq<char>,
    pub max_body: usize,
}

impl View for ProxyRequest {
    type V = ProxyRequestModel;

    open spec fn view(&self) -> ProxyRequestModel {
        ProxyRequestModel {
            host: opt_text(self.host),
            content_length: opt_text(self.content_length),
            websocket: self.websocket,
            domain: self.domain@,
            max_body: self.max_body,
        }
    }
}

/// How far a request has come: what it waits for.
#[derive(Debug, Clone, Copy, PartialEq, Eq, Structural)]
pub enum ProxyState {
    /// Whether its address may send another request.
    AwaitIp,
    /// Whether its tunnel may take another request.
    AwaitRate { session_id: u128, tunnel_id: u128, max_connections: usize },
    /// Whether its tunnel may take another connection at once.
    AwaitPermit { session_id: u128, tunnel_id: u128 },
    /// Whether the tunnel's session could be told.
    AwaitTold { tunnel_id: u128, conn_id: u128 },
    /// The data stream.
    AwaitStream { tunnel_id: u128, conn_id: u128 },
    /// The answer of the local service.
    AwaitUpstream,
    /// Nothing: it is settled.
    Settled,
}

/// How waiting for a data stream ended.
#[derive(Debug, Clone, Copy, PartialEq, Eq, Structural)]
pub enum StreamEnd {
    Arrived,
    /// It was given up on the other side.
    Dropped,
    TimedOut,
}

/// How forwarding a request ended.
#[derive(Debug, Clone, Copy, PartialEq, Eq, Structural)]
pub enum UpstreamEnd {
    Answered,
    Failed,
    TimedOut,
}

/// What a request waited for.
#[derive(Debug, Clone, Copy, PartialEq, Eq, Structural)]
pub enum ProxyEvent {
    Ip(bool),
    Rate(bool),
    Permit(bool),
    Told(bool),
    Stream(StreamEnd),
    Upstream(UpstreamEnd),
}

/// What to do next about a request.
#[derive(Debug)]
pub enum ProxyAction {
    /// Answer it.
    Answer(HttpReply),
    /// See whether the tunnel may take another request.
    CheckRate { tunnel_id: u128 },
    /// See whether the tunnel may take another connection at once.
    TakePermit { tunnel_id: u128, max_connections: usize },
    /// Tell the tunnel's session of the connection.
    TellSession { session_id: u128, conn_id: u128 },
    /// Wait for the data stream.
    AwaitStream { conn_id: u128 },
    /// Go over to WebSocket, and bridge.
    Upgrade { tunnel_id: u128 },
    /// Forward the request, whose body is this long as far as it says.
    Forward { tunnel_id: u128, request_bytes: u64 },
    /// Pass the answer of the local service on.
    PassOn,
    /// Nothing: the request did not wait for this.
    Ignore,
}

/// Whether `action` is to answer a request in this way.
pub open spec fn answers(action: ProxyAction, reply: ReplyModel) -> bool {
    action matches ProxyAction::Answer(r) && r@ == reply
}

/// A request that is settled by an answer of the edge's own.
pub open spec fn settled(state: ProxyState, action: ProxyAction, status: u16, message: Seq<char>) -> bool {
    state is Settled && answers(action, plain_reply(status, message))
}

/// Whether a request says that its body is too long.
pub open spec fn is_too_large(req: ProxyRequestModel) -> bool {
    match req.content_length {
        Some(text) => number_in(text, usize::MAX as nat) matches Some(n) && n > req.max_body,
        None => false,
    }
}

/// How long a request says its body is; 0 where it does not say.
pub open spec fn stated_bytes(req: ProxyRequestModel) -> nat {
    match req.content_length {
        Some(text) => match number_in(text, u64::MAX as nat) {
            Some(n) => n,
            None => 0,
        },
        None => 0,
    }
}

/// What becomes of a request whose address may send it: a member of the group that serves its
/// subdomain is picked for it, or it is answered.
pub open spec fn routed_request(
    c: CoreModel,
    req: ProxyRequestModel,
    state: ProxyState,
    action: ProxyAction,
) -> bool {
    match req.host {
        None => settled(state, action, 400, "Missing Host header"@),
        Some(host) => match subdomain_of(host, req.domain) {
            None => settled(state, action, 400, "Cannot parse subdomain"@),
            Some(label) => exists|r: Option<TunnelInfo>| #[trigger]
                picked(c, KeyModel::Http(label), r) && match r {
                    None => state is Settled && answers(action, gateway_reply(label)),
                    Some(info) => state == (ProxyState::AwaitRate {
                        session_id: info.session_id,
                        tunnel_id: info.tunnel_id,
                        max_connections: info.max_connections,
                    }) && action == (ProxyAction::CheckRate { tunnel_id: info.tunnel_id }),
                },
        },
    }
}

/// What happens to a request: `conn_id` is the id of the connection that it may open. A request
/// counts once every limit has let it through.
pub open spec fn proxy_stepped(
    before: CoreModel,
    after: CoreModel,
    req: ProxyRequestModel,
    state: ProxyState,
    event: ProxyEvent,
    conn_id: u128,
    next: ProxyState,
    action: ProxyAction,
) -> bool {
    match (state, event) {
        (ProxyState::AwaitIp, ProxyEvent::Ip(allowed)) => if allowed {
            after == before && routed_request(before, req, next, action)
        } else {
            after == before && settled(next, action, 429, "Rate limit exceeded"@)
        },
        (
            ProxyState::AwaitRate { session_id, tunnel_id, max_connections },
            ProxyEvent::Rate(allowed),
        ) => {
            &&& after == before
            &&& if !allowed {
                settled(next, action, 429, "Tunnel rate limit exceeded"@)
            } else if is_too_large(req) {
                settled(next, action, 413, "Request body too large"@)
            } else {
                next == (ProxyState::AwaitPermit { session_id, tunnel_id }) && action == (
                ProxyAction::TakePermit { tunnel_id, max_connections })
            }
        },
        (
            ProxyState::AwaitPermit { session_id, tunnel_id },
            ProxyEvent::Permit(taken),
        ) => if taken {
            after == (CoreModel {
                pending: before.pending.insert(conn_id),
                ..request_counted(before, tunnel_id)
            }) && next == (ProxyState::AwaitTold { tunnel_id, conn_id }) && action == (
            ProxyAction::TellSession { session_id, conn_id })
        } else {
            after == before && settled(next, action, 503, "Too many concurrent connections"@)
        },
        (ProxyState::AwaitTold { tunnel_id, conn_id: id }, ProxyEvent::Told(told)) => if told {
            after == before && next == (ProxyState::AwaitStream { tunnel_id, conn_id: id })
                && action == (ProxyAction::AwaitStream { conn_id: id })
        } else {
            after == (CoreModel { pending: before.pending.remove(id), ..before }) && settled(
                next,
                action,
                502,
                "Tunnel session unavailable"@,
            )
        },
        (
            ProxyState::AwaitStream { tunnel_id, conn_id: id },
            ProxyEvent::Stream(end),
        ) => match end {
            StreamEnd::Dropped => after == before && settled(
                next,
                action,
                502,
                "Tunnel did not open a data stream"@,
            ),
            StreamEnd::TimedOut => after == (CoreModel {
                pending: before.pending.remove(id),
                ..before
            }) && settled(next, action, 504, "Tunnel stream timeout"@),
            StreamEnd::Arrived => if req.websocket {
                after == before && next is Settled && action == (ProxyAction::Upgrade {
                    tunnel_id,
                })
            } else {
                after == bytes_added(before, tunnel_id, stated_bytes(req) as u64)
                    && next is AwaitUpstream && action == (ProxyAction::Forward {
                    tunnel_id,
                    request_bytes: stated_bytes(req) as u64,
                })
            },
        },
        (ProxyState::AwaitUpstream, ProxyEvent::Upstream(end)) => {
            &&& after == before
            &&& match end {
                UpstreamEnd::Answered => next is Settled && action is PassOn,
                UpstreamEnd::Failed => settled(next, action, 502, "Proxy error"@),
                UpstreamEnd::TimedOut => settled(next, action, 504, "Proxy timeout"@),
            }
        },
        _ => after == before && next == state && action is Ignore,
    }
}

/// Settles a request by an answer of the edge's own.
fn settle(status: u16, message: &str) -> (r: (ProxyState, ProxyAction))
    ensures
        settled(r.0, r.1, status, message@),
{
    (ProxyState::Settled, ProxyAction::Answer(err_response(status, message)))
}

/// Routes a request whose address may send it.
fn route_request(core: &TunnelCore, req: &ProxyRequest) -> (r: (ProxyState, ProxyAction))
    ensures
        routed_request(core@, req@, r.0, r.1),
{
    let host: &String = match &req.host {
        Some(h) => h,
        None => {
            return settle(400, "Missing Host header");
        },
    };
    let label: String = match extract_subdomain(host.as_str(), req.domain.as_str()) {
        Some(l) => l,
        None => {
            return settle(400, "Cannot parse subdomain");
        },
    };
    let found: Option<TunnelInfo> = core.pick_http(label.as_str());
    assert(req@.host == Some(host@));
    assert(Some(label@) == subdomain_of(host@, req@.domain));
    assert(picked(core@, KeyModel::Http(subdomain_of(req@.host->0, req@.domain)->0), found));
    match found {
        None => (ProxyState::Settled, ProxyAction::Answer(gateway_error(label.as_str()))),
        Some(info) => (
            ProxyState::AwaitRate {
                session_id: info.session_id,
                tunnel_id: info.tunnel_id,
                max_connections: info.max_connections,
            },
            ProxyAction::CheckRate { tunnel_id: info.tunnel_id },
        ),
    }
}

/// Whether a request says that its body is too long.
fn too_large(req: &ProxyRequest) -> (r: bool)
    ensures
        r == is_too_large(req@),
{
    match &req.content_length {
        Some(text) => match parse_number(text.as_str(), usize::MAX as u64) {
            Some(n) => n > req.max_body as u64,
            None => false,
        },
        None => false,
    }
}

/// How long a request says its body is.
fn body_bytes(req: &ProxyRequest) -> (r: u64)
    ensures
        r == stated_bytes(req@),
{
    match &req.content_length {
        Some(text) => match parse_number(text.as_str(), u64::MAX) {
            Some(n) => n,
            None => 0,
        },
        None => 0,
    }
}

/// One step of proxying a request, under an id for its connection that the caller supplies.
/// See [`proxy_step`].
pub fn proxy_step_with(
    core: &mut TunnelCore,
    req: &ProxyRequest,
    state: ProxyState,
    event: ProxyEvent,
    conn_id: u128,
) -> (r: (ProxyState, ProxyAction))
    ensures
        proxy_stepped(old(core)@, final(core)@, req@, state, event, conn_id, r.0, r.1),
{
    match (state, event) {
        (ProxyState::AwaitIp, ProxyEvent::Ip(allowed)) => {
            if allowed {
                route_request(core, req)
            } else {
                settle(429, "Rate limit exceeded")
            }
        },
        (
            ProxyState::AwaitRate { session_id, tunnel_id, max_connections },
            ProxyEvent::Rate(allowed),
        ) => {
            if !allowed {
                settle(429, "Tunnel rate limit exceeded")
            } else if too_large(req) {
                settle(413, "Request body too large")
            } else {
                (
                    ProxyState::AwaitPermit { session_id, tunnel_id },
                    ProxyAction::TakePermit { tunnel_id, max_connections },
                )
            }
        },
        (ProxyState::AwaitPermit { session_id, tunnel_id }, ProxyEvent::Permit(taken)) => {
            if taken {
                core.count_request(&tunnel_id);
                core.register_pending_conn(conn_id);
                (
                    ProxyState::AwaitTold { tunnel_id, conn_id },
                    ProxyAction::TellSession { session_id, conn_id },
                )
            } else {
                settle(503, "Too many concurrent connections")
            }
        },
        (ProxyState::AwaitTold { tunnel_id, conn_id: id }, ProxyEvent::Told(told)) => {
            if told {
                (
                    ProxyState::AwaitStream { tunnel_id, conn_id: id },
                    ProxyAction::AwaitStream { conn_id: id },
                )
            } else {
                core.cancel_pending_conn(&id);
                settle(502, "Tunnel session unavailable")
            }
        },
        (ProxyState::AwaitStream { tunnel_id, conn_id: id }, ProxyEvent::Stream(end)) => {
            match end {
                StreamEnd::Dropped => settle(502, "Tunnel did not open a data stream"),
                StreamEnd::TimedOut => {
                    core.cancel_pending_conn(&id);
                    settle(504, "Tunnel stream timeout")
                },
                StreamEnd::Arrived => {
                    if req.websocket {
                        (ProxyState::Settled, ProxyAction::Upgrade { tunnel_id })
                    } else {
                        let request_bytes: u64 = body_bytes(req);
                        core.add_bytes_proxied(&tunnel_id, request_bytes);
                        (
                            ProxyState::AwaitUpstream,
                            ProxyAction::Forward { tunnel_id, request_bytes },
                        )
                    }
                },
            }
        },
        (ProxyState::AwaitUpstream, ProxyEvent::Upstream(end)) => match end {
            UpstreamEnd::Answered => (ProxyState::Settled, ProxyAction::PassOn),
            UpstreamEnd::Failed => settle(502, "Proxy error"),
            UpstreamEnd::TimedOut => settle(504, "Proxy timeout"),
        },
        _ => (state, ProxyAction::Ignore),
    }
}

/// One step of proxying a request: from what it waited for to what to do next. A request is
/// limited by address, then by tunnel, then by the length of its body, then by how many are
/// under way; only then is it counted, and the tunnel's session told.
pub fn proxy_step(
    core: &mut TunnelCore,
    req: &ProxyRequest,
    state: ProxyState,
    event: ProxyEvent,
) -> (r: (ProxyState, ProxyAction))
    ensures
        exists|conn_id: u128|
            is_random_uuid(conn_id) && #[trigger] proxy_stepped(
                old(core)@,
                final(core)@,
                req@,
                state,
                event,
                conn_id,
                r.0,
                r.1,
            ),
{
    let conn_id: u128 = new_uuid();
    proxy_step_with(core, req, state, event, conn_id)
}

// ── laws ─────────────────────────────────────────────────────────────────────

/// No session hears of a request before every limit has let it through: only the step that
/// takes a permit tells one, and only a request that is not too long gets there.
pub proof fn law_limits_come_first(
    before: CoreModel,
    after: CoreModel,
    req: ProxyRequestModel,
    state: ProxyState,
    event: ProxyEvent,
    conn_id: u128,
    next: ProxyState,
    action: ProxyAction,
)
    requires
        proxy_stepped(before, after, req, state, event, conn_id, next, action),
    ensures
        action is TellSession ==> state is AwaitPermit && event == ProxyEvent::Permit(true),
        next is AwaitPermit && state !is AwaitPermit ==> state is AwaitRate && event
            == ProxyEvent::Rate(true) && !is_too_large(req),
        next is AwaitRate && state !is AwaitRate ==> state is AwaitIp && event
            == ProxyEvent::Ip(true),
{
}

/// A request that is refused leaves nothing behind, not even in the counts: until a permit is
/// taken nothing changes.
pub proof fn law_refused_request_changes_nothing(
    before: CoreModel,
    after: CoreModel,
    req: ProxyRequestModel,
    state: ProxyState,
    event: ProxyEvent,
    conn_id: u128,
    next: ProxyState,
    action: ProxyAction,
)
    requires
        proxy_stepped(before, after, req, state, event, conn_id, next, action),
        state is AwaitIp || state is AwaitRate || state is AwaitPermit,
    ensures
        after == before || (action is TellSession && state is AwaitPermit),
{
}

/// A request leaves no waiting connection behind when it is settled by a failure that the
/// edge finds itself.
pub proof fn law_failed_request_is_forgotten(
    before: CoreModel,
    after: CoreModel,
    req: ProxyRequestModel,
    tunnel_id: u128,
    id: u128,
    conn_id: u128,
    next: ProxyState,
    action: ProxyAction,
)
    requires
        proxy_stepped(
            before,
            after,
            req,
            ProxyState::AwaitTold { tunnel_id, conn_id: id },
            ProxyEvent::Told(false),
            conn_id,
            next,
            action,
        ) || proxy_stepped(
            before,
            after,
            req,
            ProxyState::AwaitStream { tunnel_id, conn_id: id },
            ProxyEvent::Stream(StreamEnd::TimedOut),
            conn_id,
            next,
            action,
        ),
    ensures
        !after.pending.contains(id),
{
}

/// A core that is consistent stays so at every step of a request.
pub proof fn law_proxying_keeps_the_core_consistent(
    before: CoreModel,
    after: CoreModel,
    req: ProxyRequestModel,
    state: ProxyState,
    event: ProxyEvent,
    conn_id: u128,
    next: ProxyState,
    action: ProxyAction,
)
    requires
        consistent(before),
        proxy_stepped(before, after, req, state, event, conn_id, next, action),
    ensures
        consistent(after),
{
    match (state, event) {
        (ProxyState::AwaitPermit { tunnel_id, .. }, ProxyEvent::Permit(true)) => {
            let counted = request_counted(before, tunnel_id);
            law_request_count_consistent(before, tunnel_id);
            assert(counted.pending == before.pending);
            law_waiting_connections_consistent(counted, before.pending.insert(conn_id));
        },
        (ProxyState::AwaitTold { conn_id: id, .. }, ProxyEvent::Told(false)) => {
            law_waiting_connections_consistent(before, before.pending.remove(id));
        },
        (ProxyState::AwaitStream { conn_id: id, tunnel_id }, ProxyEvent::Stream(_)) => {
            law_waiting_connections_consistent(before, before.pending.remove(id));
            law_bytes_consistent(before, tunnel_id, stated_bytes(req) as u64);
        },
        _ => {},
    }
}

} // verus!
