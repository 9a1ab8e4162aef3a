//! What each frame of a client does.
use crate::clock::unix_nanos;
use crate::group::{lists_alert_urls, GroupAlertPayload, ZeroHealthyAlert};
use crate::ids::{is_random_uuid, new_uuid};
use crate::peer::{classify_nat_pair, nat_model, nat_strategy, NatModel};
use crate::protocol::{ControlFrame, FrameModel, RegisterRequest, RequestModel};
use crate::router::{P2pPublisher, TunnelCore};
use crate::router_laws::{
    consistent, law_alert_consistent, law_bad_report_consistent, law_good_report_consistent, law_heartbeat_consistent,
    law_nat_report_consistent, law_p2p_dispatch_consistent, law_tunnel_removal_consistent,
    law_waiting_connections_consistent,
};
use crate::router_model::{
    alert_due_for, alert_payload, alert_sent, bytes_added, group_at, is_published, marked_healthy, marked_unhealthy,
    nat_updated, p2p_dispatched, session_heard, tunnel_at, tunnel_removed, CoreModel, PublisherModel,
};
use crate::session::{ConfigModel, ControlConfig};
use crate::session_info::SessionModel;
use crate::text::{join3, opt_text, text_eq, texts, texts_clone};
use vstd::prelude::*;
use vstd::string::*;

verus! {

/// How long two peers try to reach each other directly, in milliseconds.
pub const PUNCH_TIMEOUT_MS: u64 = 5000;

/// How long a relay waits for each of its streams, in seconds.
pub const RELAY_TIMEOUT_SECS: u64 = 30;

/// The address that clients are told of a peer-to-peer connection, which comes from none.
pub const P2P_CLIENT_ADDR: &'static str = "0.0.0.0:0";

/// A tunnel that is closed, with its counters.
#[derive(Debug, Clone, Copy, PartialEq, Eq, Structural)]
pub struct ClosedTunnel {
    pub tunnel_id: u128,
    pub request_count: u64,
    pub bytes_proxied: u64,
}

/// The counters of a tunnel; zeros for an unknown one.
pub open spec fn closed_tunnel(c: CoreModel, id: u128) -> ClosedTunnel {
    ClosedTunnel {
        tunnel_id: id,
        request_count: match tunnel_at(c, id) {
            Some(info) => info.request_count,
            None => 0,
        },
        bytes_proxied: match tunnel_at(c, id) {
            Some(info) => info.bytes_proxied,
            None => 0,
        },
    }
}

/// What an alert calls what happened: a group without a healthy member.
pub const ALERT_EVENT: &'static str = "group_zero_healthy";

/// An alert, and where to send it.
#[derive(Debug)]
pub struct AlertOrder {
    pub destinations: Vec<String>,
    pub payload: GroupAlertPayload,
}

/// What to do about a frame, beyond what it did to the core.
#[derive(Debug)]
pub enum FrameStep {
    /// Nothing.
    Ignore,
    /// Answer it.
    Reply(ControlFrame),
    /// The client answered a ping of this time.
    Heard(u64),
    /// A tunnel is asked for: see whether the client may have it.
    Gate(RegisterRequest),
    /// A tunnel was closed: log it.
    Closed(ClosedTunnel),
    /// A group went down: say so.
    Alert(AlertOrder),
    /// A publisher is to be told of a connection, after the subscriber has been sent the
    /// instructions for reaching it, if any.
    TellPublisher { publisher_session: u128, conn_id: u128, tunnel_id: u128, punch: Option<ControlFrame> },
}

/// Whether a session owns a tunnel.
pub open spec fn owns(c: CoreModel, session_id: u128, id: u128) -> bool {
    tunnel_at(c, id) matches Some(info) && info.session_id == session_id
}

/// An alert goes to the operator, if there is an address, and to every tenant that gave one.
pub open spec fn is_alert_order(c: CoreModel, cfg: ConfigModel, id: u128, order: AlertOrder) -> bool {
    let tenants = texts(order.destinations@).skip(
        if cfg.alert_webhook_url is Some {
            1
        } else {
            0
        },
    );
    &&& order.payload@ == alert_payload(c, id, cfg.region_id)
    &&& cfg.alert_webhook_url matches Some(url) ==> order.destinations@.len() > 0 && texts(
        order.destinations@,
    )[0] == url
    &&& lists_alert_urls(tenants, group_at(c, c.index[id])->0)
}

/// The strategy for reaching a publisher. A subscriber is taken to be easy to reach, once the
/// publisher has reported.
pub open spec fn p2p_strategy(p: PublisherModel) -> (Seq<char>, bool) {
    nat_strategy(
        nat_model(p.nat_type),
        if p.nat_type is Some {
            nat_model(Some("cone"@))
        } else {
            NatModel::Unknown
        },
    )
}

/// The instructions for reaching a publisher directly, where that is worth a try.
pub open spec fn punch_model(p: PublisherModel, conn_id: u128) -> Option<FrameModel> {
    if p2p_strategy(p).1 && p.mapped_addrs.len() > 0 {
        Some(
            FrameModel::P2pPunchInstructions {
                conn_id,
                peer_addrs: p.mapped_addrs,
                strategy: p2p_strategy(p).0,
                punch_timeout_ms: PUNCH_TIMEOUT_MS,
            },
        )
    } else {
        None
    }
}

/// The view of an optional frame.
pub open spec fn opt_frame(f: Option<ControlFrame>) -> Option<FrameModel> {
    match f {
        Some(frame) => Some(frame@),
        None => None,
    }
}

/// Whether `step` is to answer `frame`.
pub open spec fn is_reply(step: FrameStep, frame: FrameModel) -> bool {
    step matches FrameStep::Reply(f) && f@ == frame
}

/// Whether `step` is to see if a request may be granted.
pub open spec fn is_gate(step: FrameStep, req: RequestModel) -> bool {
    step matches FrameStep::Gate(r) && r@ == req
}

/// What a subscriber's request for a publisher does.
pub open spec fn p2p_asked(
    before: CoreModel,
    after: CoreModel,
    cfg: ConfigModel,
    request_id: Seq<char>,
    name: Seq<char>,
    secret_hash: Seq<char>,
    conn_id: u128,
    step: FrameStep,
) -> bool {
    if !cfg.p2p_enabled {
        after == before && is_reply(
            step,
            FrameModel::P2pError {
                request_id,
                message: "P2P tunnels are not enabled on this server"@,
            },
        )
    } else if !is_published(before, name) {
        after == before && is_reply(
            step,
            FrameModel::P2pError {
                request_id,
                message: "P2P tunnel '"@ + name + "' not found"@,
            },
        )
    } else if before.p2p[name].secret_hash != secret_hash {
        after == before && is_reply(
            step,
            FrameModel::P2pError { request_id, message: "invalid P2P secret"@ },
        )
    } else {
        let c1 = p2p_dispatched(before, name);
        &&& after == (CoreModel { pending: c1.pending.insert(conn_id), ..c1 })
        &&& step matches FrameStep::TellPublisher {
            publisher_session,
            conn_id: id,
            tunnel_id,
            punch,
        } && publisher_session == before.p2p[name].tunnel_info.session_id && id == conn_id
            && tunnel_id == before.p2p[name].tunnel_info.tunnel_id && opt_frame(punch)
            == punch_model(before.p2p[name], conn_id)
    }
}

/// What a client's frame does. `conn_id` is the id for a connection that it may open, `at`
/// the time of a report, and `now` what the router's monotonic clock reads. Every ping and
/// every answer to one is a sign of life.
pub open spec fn frame_handled(
    before: CoreModel,
    after: CoreModel,
    cfg: ConfigModel,
    session_id: u128,
    frame: FrameModel,
    conn_id: u128,
    at: u64,
    now: u64,
    step: FrameStep,
) -> bool {
    match frame {
        FrameModel::RegisterTunnel(req) => after == before && is_gate(step, req),
        FrameModel::UnregisterTunnel { tunnel_id } => after == tunnel_removed(before, tunnel_id)
            && step == FrameStep::Closed(closed_tunnel(before, tunnel_id)),
        FrameModel::P2pConnect { request_id, target_tunnel_name, secret_hash } => p2p_asked(
            before,
            after,
            cfg,
            request_id,
            target_tunnel_name,
            secret_hash,
            conn_id,
            step,
        ),
        FrameModel::Ping { timestamp } => after == session_heard(before, session_id, now)
            && is_reply(step, FrameModel::Pong { timestamp }),
        FrameModel::Pong { timestamp } => after == session_heard(before, session_id, now) && step
            == FrameStep::Heard(timestamp),
        FrameModel::P2pNatInfo { tunnel_id, nat_type, mapped_addrs, .. } => after == nat_updated(
            before,
            tunnel_id,
            nat_type,
            mapped_addrs,
        ) && step is Ignore,
        FrameModel::TunnelHealthy { tunnel_id } => step is Ignore && after == if owns(
            before,
            session_id,
            tunnel_id,
        ) {
            marked_healthy(before, tunnel_id, at)
        } else {
            before
        },
        FrameModel::TunnelUnhealthy { tunnel_id, reason } => if !owns(
            before,
            session_id,
            tunnel_id,
        ) {
            after == before && step is Ignore
        } else {
            let c1 = marked_unhealthy(before, tunnel_id, reason, at);
            if alert_due_for(c1, tunnel_id) {
                &&& after == alert_sent(c1, tunnel_id)
                &&& step matches FrameStep::Alert(order) && is_alert_order(
                    c1,
                    cfg,
                    tunnel_id,
                    order,
                )
            } else {
                after == c1 && step is Ignore
            }
        },
        _ => after == before && step is Ignore,
    }
}

/// Whether a session owns a tunnel.
fn owns_tunnel(core: &TunnelCore, session_id: &u128, tunnel_id: &u128) -> (r: bool)
    ensures
        r == owns(core@, *session_id, *tunnel_id),
{
    match core.tunnel_session(tunnel_id) {
        Some(owner) => owner == *session_id,
        None => false,
    }
}

/// Where an alert goes.
fn order_alert(cfg: &ControlConfig, alert: ZeroHealthyAlert) -> (r: AlertOrder)
    ensures
        r.payload@ == alert.payload@,
        texts(r.destinations@) == (match opt_text(cfg.alert_webhook_url) {
            Some(url) => seq![url],
            None => Seq::empty(),
        }) + texts(alert.tenant_webhook_urls@),
{
    let mut destinations: Vec<String> = Vec::new();
    match &cfg.alert_webhook_url {
        Some(url) => {
            destinations.push(url.clone());
        },
        None => {},
    }
    let ghost first = destinations@;
    let mut tenants: Vec<String> = alert.tenant_webhook_urls;
    destinations.append(&mut tenants);
    assert(texts(destinations@) =~= texts(first) + texts(alert.tenant_webhook_urls@));
    assert(texts(first) =~= (match opt_text(cfg.alert_webhook_url) {
        Some(url) => seq![url],
        None => Seq::empty(),
    }));
    AlertOrder { destinations, payload: alert.payload }
}

/// A refusal of a subscriber's request.
fn p2p_error(request_id: String, message: String) -> (r: FrameStep)
    ensures
        r matches FrameStep::Reply(f) && f@ == (FrameModel::P2pError {
            request_id: request_id@,
            message: message@,
        }),
{
    FrameStep::Reply(ControlFrame::P2pError { request_id, message })
}

/// A subscriber asks for a publisher.
fn ask_p2p(
    core: &mut TunnelCore,
    cfg: &ControlConfig,
    request_id: String,
    name: String,
    secret_hash: String,
    conn_id: u128,
) -> (r: FrameStep)
    ensures
        p2p_asked(
            old(core)@,
            final(core)@,
            cfg@,
            request_id@,
            name@,
            secret_hash@,
            conn_id,
            r,
        ),
{
    if !cfg.p2p_enabled {
        return p2p_error(request_id, "P2P tunnels are not enabled on this server".to_owned());
    }
    let ghost before = core@;
    match core.published_secret(name.as_str()) {
        Some(secret) => {
            if !text_eq(secret.as_str(), secret_hash.as_str()) {
                return p2p_error(request_id, "invalid P2P secret".to_owned());
            }
        },
        None => {
            return p2p_error(request_id, join3("P2P tunnel '", name.as_str(), "' not found"));
        },
    }
    let publisher: P2pPublisher = match core.resolve_p2p(name.as_str()) {
        Some(p) => p,
        None => {
            return p2p_error(request_id, join3("P2P tunnel '", name.as_str(), "' not found"));
        },
    };
    let ghost p0 = before.p2p[name@];
    assert(publisher@.nat_type == p0.nat_type);
    assert(publisher@.mapped_addrs == p0.mapped_addrs);
    let pub_nat: Option<&str> = match &publisher.nat_type {
        Some(s) => Some(s.as_str()),
        None => None,
    };
    let sub_nat: Option<&str> = if pub_nat.is_some() {
        Some("cone")
    } else {
        None
    };
    let (strategy, direct): (&'static str, bool) = classify_nat_pair(pub_nat, sub_nat);
    assert((strategy@, direct) == p2p_strategy(p0));
    let punch: Option<ControlFrame> = if direct && publisher.mapped_addrs.len() > 0 {
        Some(
            ControlFrame::P2pPunchInstructions {
                conn_id,
                peer_addrs: texts_clone(&publisher.mapped_addrs),
                strategy: strategy.to_owned(),
                punch_timeout_ms: PUNCH_TIMEOUT_MS,
            },
        )
    } else {
        None
    };
    assert(p0.mapped_addrs.len() == publisher.mapped_addrs@.len());
    core.register_pending_conn(conn_id);
    FrameStep::TellPublisher {
        publisher_session: publisher.tunnel_info.session_id,
        conn_id,
        tunnel_id: publisher.tunnel_info.tunnel_id,
        punch,
    }
}

/// Handles a client's frame, with the id for a connection that it may open, the time of a
/// report and the reading of the router's monotonic clock supplied by the caller. See
/// [`handle_client_message`].
pub fn handle_client_message_with(
    core: &mut TunnelCore,
    cfg: &ControlConfig,
    session_id: &u128,
    frame: ControlFrame,
    conn_id: u128,
    at: u64,
    now: u64,
) -> (r: FrameStep)
    ensures
        frame_handled(
            old(core)@,
            final(core)@,
            cfg@,
            *session_id,
            frame@,
            conn_id,
            at,
            now,
            r,
        ),
{
    match frame {
        ControlFrame::RegisterTunnel(request) => FrameStep::Gate(request),
        ControlFrame::UnregisterTunnel { tunnel_id } => {
            let closed = ClosedTunnel {
                tunnel_id,
                request_count: core.get_tunnel_request_count(&tunnel_id),
                bytes_proxied: core.get_tunnel_bytes_proxied(&tunnel_id),
            };
            core.remove_tunnel(&tunnel_id);
            FrameStep::Closed(closed)
        },
        ControlFrame::P2pConnect { request_id, target_tunnel_name, secret_hash } => ask_p2p(
            core,
            cfg,
            request_id,
            target_tunnel_name,
            secret_hash,
            conn_id,
        ),
        ControlFrame::Ping { timestamp } => {
            let _known: bool = core.note_heartbeat(session_id, now);
            FrameStep::Reply(ControlFrame::Pong { timestamp })
        },
        ControlFrame::Pong { timestamp } => {
            let _known: bool = core.note_heartbeat(session_id, now);
            FrameStep::Heard(timestamp)
        },
        ControlFrame::P2pNatInfo { tunnel_id, nat_type, mapped_addrs, local_addrs: _ } => {
            core.update_p2p_nat_info(&tunnel_id, nat_type, mapped_addrs);
            FrameStep::Ignore
        },
        ControlFrame::TunnelHealthy { tunnel_id } => {
            if owns_tunnel(core, session_id, &tunnel_id) {
                let _known: bool = core.set_tunnel_healthy_at(&tunnel_id, at);
            }
            FrameStep::Ignore
        },
        ControlFrame::TunnelUnhealthy { tunnel_id, reason } => {
            if !owns_tunnel(core, session_id, &tunnel_id) {
                return FrameStep::Ignore;
            }
            let _known: bool = core.set_tunnel_unhealthy_at(&tunnel_id, reason.as_str(), at);
            let ghost c1 = core@;
            match core.pop_zero_healthy_alert(&tunnel_id, cfg.region_id.as_str()) {
                Some(alert) => {
                    let ghost tenants = texts(alert.tenant_webhook_urls@);
                    let order: AlertOrder = order_alert(cfg, alert);
                    proof {
                        let n = if cfg@.alert_webhook_url is Some {
                            1int
                        } else {
                            0int
                        };
                        assert(texts(order.destinations@).skip(n) =~= tenants);
                        assert(is_alert_order(c1, cfg@, tunnel_id, order));
                    }
                    FrameStep::Alert(order)
                },
                None => FrameStep::Ignore,
            }
        },
        _ => FrameStep::Ignore,
    }
}

/// Handles a client's frame: what it asks of the core is done, and what is left to do is
/// returned. Only the session that owns a tunnel may report on its health.
pub fn handle_client_message(
    core: &mut TunnelCore,
    cfg: &ControlConfig,
    session_id: &u128,
    frame: ControlFrame,
) -> (r: FrameStep)
    ensures
        exists|conn_id: u128, at: u64, now: u64|
            is_random_uuid(conn_id) && #[trigger] frame_handled(
                old(core)@,
                final(core)@,
                cfg@,
                *session_id,
                frame@,
                conn_id,
                at,
                now,
                r,
            ),
{
    let conn_id: u128 = new_uuid();
    let at: u64 = unix_nanos();
    let now: u64 = core.clock_nanos();
    handle_client_message_with(core, cfg, session_id, frame, conn_id, at, now)
}

/// What to do once a publisher was told of a connection, or could not be.
#[derive(Debug)]
pub enum RelayStep {
    /// Refuse the subscriber.
    Refuse(ControlFrame),
    /// Answer the subscriber, tell its own session of the connection if that is still there,
    /// and relay between the two.
    Relay { reply: ControlFrame, sub_conn_id: u128, tell_self: bool },
}

/// What is done once a publisher was told of a connection, or could not be.
pub open spec fn relay_started(
    before: CoreModel,
    after: CoreModel,
    session_id: u128,
    request_id: Seq<char>,
    conn_id: u128,
    delivered: bool,
    sub_conn_id: u128,
    step: RelayStep,
) -> bool {
    if delivered {
        &&& after == (CoreModel { pending: before.pending.insert(sub_conn_id), ..before })
        &&& step matches RelayStep::Relay { reply, sub_conn_id: id, tell_self } && reply@ == (
        FrameModel::P2pConnected { request_id, conn_id: sub_conn_id }) && id == sub_conn_id
            && tell_self == before.sessions.contains_key(session_id)
    } else {
        &&& after == (CoreModel { pending: before.pending.remove(conn_id), ..before })
        &&& step matches RelayStep::Refuse(f) && f@ == (FrameModel::P2pError {
            request_id,
            message: "publisher session is disconnected"@,
        })
    }
}

/// Goes on with a connection, under an id for the subscriber's side that the caller supplies.
/// See [`start_relay`].
pub fn start_relay_with(
    core: &mut TunnelCore,
    session_id: &u128,
    request_id: String,
    conn_id: &u128,
    delivered: bool,
    sub_conn_id: u128,
) -> (r: RelayStep)
    ensures
        relay_started(
            old(core)@,
            final(core)@,
            *session_id,
            request_id@,
            *conn_id,
            delivered,
            sub_conn_id,
            r,
        ),
{
    if !delivered {
        core.cancel_pending_conn(conn_id);
        return RelayStep::Refuse(
            ControlFrame::P2pError {
                request_id,
                message: "publisher session is disconnected".to_owned(),
            },
        );
    }
    core.register_pending_conn(sub_conn_id);
    let tell_self: bool = core.session(session_id).is_some();
    RelayStep::Relay {
        reply: ControlFrame::P2pConnected { request_id, conn_id: sub_conn_id },
        sub_conn_id,
        tell_self,
    }
}

/// Goes on with a connection once its publisher was told of it, or could not be.
pub fn start_relay(
    core: &mut TunnelCore,
    session_id: &u128,
    request_id: String,
    conn_id: &u128,
    delivered: bool,
) -> (r: RelayStep)
    ensures
        exists|sub_conn_id: u128|
            is_random_uuid(sub_conn_id) && #[trigger] relay_started(
                old(core)@,
                final(core)@,
                *session_id,
                request_id@,
                *conn_id,
                delivered,
                sub_conn_id,
                r,
            ),
{
    let sub_conn_id: u128 = new_uuid();
    start_relay_with(core, session_id, request_id, conn_id, delivered, sub_conn_id)
}

/// How far a relay between a publisher and a subscriber has come.
#[derive(Debug, Clone, Copy, PartialEq, Eq, Structural)]
pub enum RelayState {
    /// It waits for the publisher's stream.
    AwaitPublisher,
    /// It waits for the subscriber's stream.
    AwaitSubscriber,
    /// It passes bytes on.
    Bridging,
    Ended,
}

/// What happened to a relay.
#[derive(Debug, Clone, Copy, PartialEq, Eq, Structural)]
pub enum RelayEvent {
    /// The publisher's stream arrived, or never will.
    Publisher(bool),
    /// The subscriber's stream arrived, or never will.
    Subscriber(bool),
    /// Both sides are done, after so many bytes each way.
    Done { up: u64, down: u64 },
    /// Bytes could not be passed on.
    Failed,
}

/// What happens to a relay: how far it has come.
pub open spec fn relay_next(state: RelayState, event: RelayEvent) -> RelayState {
    match (state, event) {
        (RelayState::AwaitPublisher, RelayEvent::Publisher(arrived)) => if arrived {
            RelayState::AwaitSubscriber
        } else {
            RelayState::Ended
        },
        (RelayState::AwaitSubscriber, RelayEvent::Subscriber(arrived)) => if arrived {
            RelayState::Bridging
        } else {
            RelayState::Ended
        },
        (RelayState::Bridging, RelayEvent::Done { .. }) => RelayState::Ended,
        (RelayState::Bridging, RelayEvent::Failed) => RelayState::Ended,
        _ => state,
    }
}

/// What happens to the core with it: without a publisher the subscriber's side is given up,
/// and what was relayed counts for the publisher's tunnel.
pub open spec fn relay_settled(
    c: CoreModel,
    state: RelayState,
    event: RelayEvent,
    sub_conn_id: u128,
    tunnel_id: u128,
) -> CoreModel {
    match (state, event) {
        (RelayState::AwaitPublisher, RelayEvent::Publisher(false)) => CoreModel {
            pending: c.pending.remove(sub_conn_id),
            ..c
        },
        (RelayState::Bridging, RelayEvent::Done { up, down }) => bytes_added(
            c,
            tunnel_id,
            up.wrapping_add(down),
        ),
        _ => c,
    }
}

/// One step of a relay between a publisher and a subscriber.
pub fn relay_step(
    core: &mut TunnelCore,
    state: RelayState,
    event: RelayEvent,
    sub_conn_id: &u128,
    tunnel_id: &u128,
) -> (r: RelayState)
    ensures
        r == relay_next(state, event),
        final(core)@ == relay_settled(old(core)@, state, event, *sub_conn_id, *tunnel_id),
{
    match (state, event) {
        (RelayState::AwaitPublisher, RelayEvent::Publisher(arrived)) => {
            if arrived {
                RelayState::AwaitSubscriber
            } else {
                core.cancel_pending_conn(sub_conn_id);
                RelayState::Ended
            }
        },
        (RelayState::AwaitSubscriber, RelayEvent::Subscriber(arrived)) => {
            if arrived {
                RelayState::Bridging
            } else {
                RelayState::Ended
            }
        },
        (RelayState::Bridging, RelayEvent::Done { up, down }) => {
            core.add_bytes_proxied(tunnel_id, up.wrapping_add(down));
            RelayState::Ended
        },
        (RelayState::Bridging, RelayEvent::Failed) => RelayState::Ended,
        _ => state,
    }
}

/// The tunnels that a session lists, with their counters, in order; none for an unknown
/// session.
pub open spec fn listed_tunnels(c: CoreModel, session_id: u128) -> Seq<ClosedTunnel> {
    if c.sessions.contains_key(session_id) {
        Seq::new(
            c.sessions[session_id].tunnels.len(),
            |i: int| closed_tunnel(c, c.sessions[session_id].tunnels[i]),
        )
    } else {
        Seq::empty()
    }
}

/// The tunnels that a session lists, with their counters, in order; none for an unknown
/// session.
pub fn remaining_tunnels(core: &TunnelCore, session_id: &u128) -> (r: Vec<ClosedTunnel>)
    ensures
        r@ == listed_tunnels(core@, *session_id),
{
    let ids: Vec<u128> = match core.session(session_id) {
        Some(s) => s.tunnels,
        None => Vec::new(),
    };
    let mut out: Vec<ClosedTunnel> = Vec::new();
    let mut i: usize = 0;
    let ghost want = ids@.map_values(|id: u128| closed_tunnel(core@, id));
    while i < ids.len()
        invariant
            i <= ids@.len(),
            want == ids@.map_values(|id: u128| closed_tunnel(core@, id)),
            out@ == want.take(i as int),
        decreases ids@.len() - i,
    {
        let id: u128 = ids[i];
        out.push(
            ClosedTunnel {
                tunnel_id: id,
                request_count: core.get_tunnel_request_count(&id),
                bytes_proxied: core.get_tunnel_bytes_proxied(&id),
            },
        );
        assert(want.take(i + 1) =~= want.take(i as int).push(closed_tunnel(core@, id)));
        i = i + 1;
    }
    assert(out@ =~= want);
    assert(out@ =~= listed_tunnels(core@, *session_id));
    out
}

// ── laws ─────────────────────────────────────────────────────────────────────

/// A frame of one session never touches the health of another session's tunnel: a report on
/// it changes nothing at all.
pub proof fn law_reports_need_ownership(
    before: CoreModel,
    after: CoreModel,
    cfg: ConfigModel,
    session_id: u128,
    tunnel_id: u128,
    reason: Seq<char>,
    conn_id: u128,
    at: u64,
    now: u64,
    step: FrameStep,
)
    requires
        !owns(before, session_id, tunnel_id),
        frame_handled(
            before,
            after,
            cfg,
            session_id,
            FrameModel::TunnelHealthy { tunnel_id },
            conn_id,
            at,
            now,
            step,
        ) || frame_handled(
            before,
            after,
            cfg,
            session_id,
            FrameModel::TunnelUnhealthy { tunnel_id, reason },
            conn_id,
            at,
            now,
            step,
        ),
    ensures
        after == before,
        step is Ignore,
{
}

/// No subscriber gets through to a publisher without its secret, and one that does not leaves
/// nothing behind.
pub proof fn law_secret_guards_publisher(
    before: CoreModel,
    after: CoreModel,
    cfg: ConfigModel,
    session_id: u128,
    request_id: Seq<char>,
    name: Seq<char>,
    secret_hash: Seq<char>,
    conn_id: u128,
    at: u64,
    now: u64,
    step: FrameStep,
)
    requires
        frame_handled(
            before,
            after,
            cfg,
            session_id,
            FrameModel::P2pConnect { request_id, target_tunnel_name: name, secret_hash },
            conn_id,
            at,
            now,
            step,
        ),
    ensures
        step is TellPublisher <==> cfg.p2p_enabled && is_published(before, name)
            && before.p2p[name].secret_hash == secret_hash,
        step !is TellPublisher ==> after == before,
{
}

/// A session that is there is heard of with every ping and every answer to one; nothing
/// else about it changes with that, nor about any other session.
pub proof fn law_pings_are_signs_of_life(
    before: CoreModel,
    after: CoreModel,
    cfg: ConfigModel,
    session_id: u128,
    timestamp: u64,
    conn_id: u128,
    at: u64,
    now: u64,
    step: FrameStep,
)
    requires
        before.sessions.contains_key(session_id),
        frame_handled(
            before,
            after,
            cfg,
            session_id,
            FrameModel::Ping { timestamp },
            conn_id,
            at,
            now,
            step,
        ) || frame_handled(
            before,
            after,
            cfg,
            session_id,
            FrameModel::Pong { timestamp },
            conn_id,
            at,
            now,
            step,
        ),
    ensures
        after == (CoreModel { sessions: after.sessions, ..before }),
        after.sessions.dom() == before.sessions.dom(),
        after.sessions[session_id] == (SessionModel {
            last_heartbeat: now,
            ..before.sessions[session_id]
        }),
        forall|other: u128| #[trigger]
            before.sessions.contains_key(other) && other != session_id ==> after.sessions[other]
                == before.sessions[other],
{
}

/// A core that is consistent stays so whatever frame a client sends.
pub proof fn law_frames_keep_the_core_consistent(
    before: CoreModel,
    after: CoreModel,
    cfg: ConfigModel,
    session_id: u128,
    frame: FrameModel,
    conn_id: u128,
    at: u64,
    now: u64,
    step: FrameStep,
)
    requires
        consistent(before),
        frame_handled(before, after, cfg, session_id, frame, conn_id, at, now, step),
    ensures
        consistent(after),
{
    match frame {
        FrameModel::UnregisterTunnel { tunnel_id } => {
            law_tunnel_removal_consistent(before, tunnel_id);
        },
        FrameModel::P2pConnect { request_id, target_tunnel_name, secret_hash } => {
            if step is TellPublisher {
                let c1 = p2p_dispatched(before, target_tunnel_name);
                law_p2p_dispatch_consistent(before, target_tunnel_name);
                law_waiting_connections_consistent(c1, c1.pending.insert(conn_id));
            }
        },
        FrameModel::Ping { .. } => {
            law_heartbeat_consistent(before, session_id, now);
        },
        FrameModel::Pong { .. } => {
            law_heartbeat_consistent(before, session_id, now);
        },
        FrameModel::P2pNatInfo { tunnel_id, nat_type, mapped_addrs, .. } => {
            law_nat_report_consistent(before, tunnel_id, nat_type, mapped_addrs);
        },
        FrameModel::TunnelHealthy { tunnel_id } => {
            law_good_report_consistent(before, tunnel_id, at);
        },
        FrameModel::TunnelUnhealthy { tunnel_id, reason } => {
            law_bad_report_consistent(before, tunnel_id, reason, at);
            let c1 = marked_unhealthy(before, tunnel_id, reason, at);
            if alert_due_for(c1, tunnel_id) {
                law_alert_consistent(c1, tunnel_id);
            }
        },
        _ => {},
    }
}

} // verus!
