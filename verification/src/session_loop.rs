//! The loops of a session: its control connection, its stream driver, its heartbeat and its
//! data connection. Each is a step from what happened to what to do next.
use crate::protocol::{ControlFrame, FrameModel, TunnelProtocol};
use crate::router::TunnelCore;
use crate::router_model::CoreModel;
use crate::session_info::SessionModel;
use crate::tunnel::ControlMessage;
use vstd::prelude::*;

verus! {

/// How long a client has for its first frame, in nanoseconds.
pub const AUTH_TIMEOUT: u64 = 5_000_000_000;

/// How often a client is pinged, in nanoseconds.
pub const PING_INTERVAL: u64 = 30_000_000_000;

/// How long a ping may stay unanswered, in nanoseconds.
pub const PONG_DEADLINE: u64 = 10_000_000_000;

/// How often a data connection is pinged, in nanoseconds.
pub const DATA_PING_INTERVAL: u64 = 20_000_000_000;

/// How long a ping on a data connection may stay unanswered, in nanoseconds.
pub const DATA_PONG_DEADLINE: u64 = 10_000_000_000;

/// How often a data connection looks for its pipe before it gives up.
pub const PIPE_TRIES: u32 = 40;

// ── the control connection ───────────────────────────────────────────────────

/// What happened on a session's control connection.
#[derive(Debug)]
pub enum LoopEvent {
    /// The heartbeat wants a ping of this time sent; `None`: the heartbeat has ended.
    Ping(Option<u64>),
    /// The client closed the connection.
    Closed,
    /// The connection failed.
    Failed,
    /// The client sent a frame; `None`: what it sent was none.
    Frame(Option<ControlFrame>),
    /// The router sent a message; `None`: it never will again.
    Control(Option<ControlMessage>),
    /// The driver was asked to open a stream, or could not be.
    StreamAsked { conn_id: u128, client_addr: String, protocol: TunnelProtocol, asked: bool },
    /// The driver has ended.
    DriverEnded,
}

/// What to do about it.
#[derive(Debug)]
pub enum LoopStep {
    /// Go on.
    Wait,
    /// Send a frame to the client.
    Send(ControlFrame),
    /// Handle the client's frame.
    Handle(ControlFrame),
    /// Ask the driver to open a stream.
    AskStream { conn_id: u128, client_addr: String, protocol: TunnelProtocol },
    /// Set a new pipe and a new driver up, so that the client can come back with its data.
    RebuildDataPlane,
    /// Close the connection, and end in order.
    CloseAndEnd,
    /// End in order.
    End,
    /// End with an error.
    Fail,
}

/// What happens on a control connection, and what is to be done about it.
pub open spec fn loop_stepped(
    before: CoreModel,
    after: CoreModel,
    event: LoopEvent,
    step: LoopStep,
) -> bool {
    &&& after == match event {
        LoopEvent::StreamAsked { conn_id, asked: false, .. } => CoreModel {
            pending: before.pending.remove(conn_id),
            ..before
        },
        _ => before,
    }
    &&& match event {
        LoopEvent::Ping(None) => step is End,
        LoopEvent::Ping(Some(timestamp)) => step matches LoopStep::Send(f) && f@ == (
        FrameModel::Ping { timestamp }),
        LoopEvent::Closed => step is End,
        LoopEvent::Failed => step is Fail,
        LoopEvent::Frame(None) => step is Wait,
        LoopEvent::Frame(Some(frame)) => step == LoopStep::Handle(frame),
        LoopEvent::Control(None) => step is CloseAndEnd,
        LoopEvent::Control(Some(ControlMessage::Shutdown)) => step is CloseAndEnd,
        LoopEvent::Control(
            Some(ControlMessage::NewConnection { conn_id, client_addr, protocol }),
        ) => step == (LoopStep::AskStream { conn_id, client_addr, protocol }),
        LoopEvent::StreamAsked { conn_id, client_addr, protocol, asked } => if asked {
            step matches LoopStep::Send(f) && f@ == (FrameModel::NewConnection {
                conn_id,
                client_addr: client_addr@,
                protocol,
            })
        } else {
            step is Wait
        },
        LoopEvent::DriverEnded => step is RebuildDataPlane,
    }
}

/// One step of a session's main loop. A connection for which no stream can be asked is given
/// up at once; a driver that ends is replaced while the session lives on.
pub fn main_loop_step(core: &mut TunnelCore, event: LoopEvent) -> (r: LoopStep)
    ensures
        loop_stepped(old(core)@, final(core)@, event, r),
{
    match event {
        LoopEvent::Ping(None) => LoopStep::End,
        LoopEvent::Ping(Some(timestamp)) => LoopStep::Send(ControlFrame::Ping { timestamp }),
        LoopEvent::Closed => LoopStep::End,
        LoopEvent::Failed => LoopStep::Fail,
        LoopEvent::Frame(None) => LoopStep::Wait,
        LoopEvent::Frame(Some(frame)) => LoopStep::Handle(frame),
        LoopEvent::Control(None) => LoopStep::CloseAndEnd,
        LoopEvent::Control(Some(ControlMessage::Shutdown)) => LoopStep::CloseAndEnd,
        LoopEvent::Control(
            Some(ControlMessage::NewConnection { conn_id, client_addr, protocol }),
        ) => LoopStep::AskStream { conn_id, client_addr, protocol },
        LoopEvent::StreamAsked { conn_id, client_addr, protocol, asked } => {
            if asked {
                LoopStep::Send(ControlFrame::NewConnection { conn_id, client_addr, protocol })
            } else {
                core.cancel_pending_conn(&conn_id);
                LoopStep::Wait
            }
        },
        LoopEvent::DriverEnded => LoopStep::RebuildDataPlane,
    }
}

// ── the stream driver ────────────────────────────────────────────────────────

/// `256` to the power of `n`.
pub open spec fn pow256(n: nat) -> nat
    decreases n,
{
    if n == 0 {
        1
    } else {
        256 * pow256((n - 1) as nat)
    }
}

/// The 16 bytes of an id, the most significant first.
pub open spec fn id_bytes(id: u128) -> Seq<u8> {
    Seq::new(16, |i: int| ((id as int / pow256((15 - i) as nat) as int) % 256) as u8)
}

/// Powers of 256 are positive.
proof fn lemma_pow256_positive(n: nat)
    ensures
        pow256(n) > 0,
    decreases n,
{
    if n > 0 {
        lemma_pow256_positive((n - 1) as nat);
    }
}

/// The 16 bytes of an id, the most significant first: what a stream starts with.
pub fn stream_header(id: u128) -> (r: Vec<u8>)
    ensures
        r@ == id_bytes(id),
{
    let mut out: Vec<u8> = Vec::new();
    let mut i: u32 = 0;
    let mut scale: u128 = 0x0100_0000_0000_0000_0000_0000_0000_0000;
    proof {
        reveal_with_fuel(pow256, 17);
        assert(pow256(15) == 0x0100_0000_0000_0000_0000_0000_0000_0000);
    }
    while i < 16
        invariant
            i <= 16,
            i < 16 ==> scale == pow256((15 - i) as nat),
            out@ == id_bytes(id).take(i as int),
        decreases 16 - i,
    {
        proof {
            lemma_pow256_positive((15 - i) as nat);
        }
        let b: u8 = ((id / scale) % 256) as u8;
        out.push(b);
        proof {
            if i < 15 {
                assert(pow256((15 - i) as nat) == 256 * pow256((14 - i) as nat));
            }
            assert(id_bytes(id).take(i + 1) =~= id_bytes(id).take(i as int).push(
                id_bytes(id)[i as int],
            ));
        }
        scale = scale / 256;
        i = i + 1;
    }
    assert(id_bytes(id).take(16) =~= id_bytes(id));
    out
}

/// What happened to a session's stream driver.
#[derive(Debug)]
pub enum DriverEvent {
    /// A stream is asked for; `None`: none ever will be.
    Asked(Option<u128>),
    /// A stream was opened.
    Opened(u128),
    /// A stream could not be opened.
    OpenFailed(u128),
    /// A stream was not opened in time.
    OpenTimedOut(u128),
    /// The head of a new stream was written, or could not be.
    HeaderWritten { conn_id: u128, written: bool },
    /// The client opened a stream.
    Inbound,
    /// The connection under the streams failed or was closed.
    Ended,
    /// A stream was asked for when the driver had already ended.
    Leftover(u128),
}

/// What to do about it.
#[derive(Debug)]
pub enum DriverStep {
    /// Go on.
    Wait,
    /// Open a stream.
    Open(u128),
    /// Write this head to the new stream.
    WriteHeader { conn_id: u128, header: Vec<u8> },
    /// Hand the stream to the connection that waits for it.
    HandOver(u128),
    /// End.
    End,
}

/// What happens to a stream driver, and what is to be done about it.
pub open spec fn driver_stepped(
    before: CoreModel,
    after: CoreModel,
    event: DriverEvent,
    step: DriverStep,
) -> bool {
    match event {
        DriverEvent::Asked(None) => after == before && step is End,
        DriverEvent::Asked(Some(id)) => after == before && step == DriverStep::Open(id),
        DriverEvent::Opened(id) => {
            &&& after == before
            &&& step matches DriverStep::WriteHeader { conn_id, header } && conn_id == id
                && header@ == id_bytes(id)
        },
        DriverEvent::OpenFailed(_) => after == before && step is Wait,
        DriverEvent::OpenTimedOut(id) => after == (CoreModel {
            pending: before.pending.remove(id),
            ..before
        }) && step is Wait,
        DriverEvent::HeaderWritten { conn_id, written } => if written {
            &&& after == (CoreModel { pending: before.pending.remove(conn_id), ..before })
            &&& step == if before.pending.contains(conn_id) {
                DriverStep::HandOver(conn_id)
            } else {
                DriverStep::Wait
            }
        } else {
            after == before && step is Wait
        },
        DriverEvent::Inbound => after == before && step is Wait,
        DriverEvent::Ended => after == before && step is End,
        DriverEvent::Leftover(id) => after == (CoreModel {
            pending: before.pending.remove(id),
            ..before
        }) && step is Wait,
    }
}

/// One step of a session's stream driver. A stream goes to its connection once its head is
/// written, and only while that connection waits; requests that cannot be served any more are
/// given up at once.
pub fn driver_step(core: &mut TunnelCore, event: DriverEvent) -> (r: DriverStep)
    ensures
        driver_stepped(old(core)@, final(core)@, event, r),
{
    match event {
        DriverEvent::Asked(None) => DriverStep::End,
        DriverEvent::Asked(Some(id)) => DriverStep::Open(id),
        DriverEvent::Opened(id) => DriverStep::WriteHeader {
            conn_id: id,
            header: stream_header(id),
        },
        DriverEvent::OpenFailed(_) => DriverStep::Wait,
        DriverEvent::OpenTimedOut(id) => {
            core.cancel_pending_conn(&id);
            DriverStep::Wait
        },
        DriverEvent::HeaderWritten { conn_id, written } => {
            if written && core.resolve_pending_conn(&conn_id) {
                DriverStep::HandOver(conn_id)
            } else {
                DriverStep::Wait
            }
        },
        DriverEvent::Inbound => DriverStep::Wait,
        DriverEvent::Ended => DriverStep::End,
        DriverEvent::Leftover(id) => {
            core.cancel_pending_conn(&id);
            DriverStep::Wait
        },
    }
}

// ── the heartbeat ────────────────────────────────────────────────────────────

/// The heartbeat of a session: when the oldest ping that is still unanswered was sent, if one
/// is.
#[derive(Debug, Clone, Copy, PartialEq, Eq, Structural)]
pub struct Heartbeat {
    pub pending: Option<u64>,
}

/// What happened to a heartbeat. Times are in nanoseconds on one clock.
#[derive(Debug, Clone, Copy, PartialEq, Eq, Structural)]
pub enum BeatEvent {
    /// The session has ended.
    Stopped,
    /// It is time for a ping.
    Tick(u64),
    /// A ping was handed to the connection, or could not be.
    Sent { at: u64, sent: bool },
    /// The client answered.
    Pong(u64),
    /// The time to look whether a ping has stayed unanswered.
    Deadline(u64),
    /// No answer will ever come.
    PongsEnded,
}

/// What to do about it.
#[derive(Debug, Clone, Copy, PartialEq, Eq, Structural)]
pub enum BeatStep {
    Wait,
    /// Send a ping.
    Ping,
    /// End, and the session with it.
    End,
}

/// Whether a ping has stayed unanswered for longer than `limit`.
pub open spec fn is_overdue(pending: Option<u64>, limit: u64, now: u64) -> bool {
    pending matches Some(sent_at) && now - sent_at > limit
}

/// Whether a ping has stayed unanswered for longer than `limit`.
fn overdue(pending: Option<u64>, limit: u64, now: u64) -> (r: bool)
    ensures
        r == is_overdue(pending, limit, now),
{
    match pending {
        Some(sent_at) => now > sent_at && now - sent_at > limit,
        None => false,
    }
}

/// The first time at which a ping that is unanswered now will have stayed so for longer than
/// `limit`. There is none without such a ping, nor where the clock cannot show that time.
pub open spec fn overdue_from(pending: Option<u64>, limit: u64) -> Option<u64> {
    match pending {
        Some(sent_at) => if sent_at + limit + 1 <= u64::MAX {
            Some((sent_at + limit + 1) as u64)
        } else {
            None
        },
        None => None,
    }
}

/// The first time at which an unanswered ping is overdue.
fn first_overdue(pending: Option<u64>, limit: u64) -> (r: Option<u64>)
    ensures
        r == overdue_from(pending, limit),
{
    match pending {
        Some(sent_at) => {
            if sent_at < u64::MAX - limit {
                Some(sent_at + limit + 1)
            } else {
                None
            }
        },
        None => None,
    }
}

/// What happens to a heartbeat: the heartbeat afterwards, and what is to be done. An answer
/// that comes too late does not save the session; one in time answers every ping before it.
pub open spec fn beat(h: Heartbeat, event: BeatEvent) -> (Heartbeat, BeatStep) {
    match event {
        BeatEvent::Stopped => (h, BeatStep::End),
        BeatEvent::Tick(now) => (
            h,
            if is_overdue(h.pending, PONG_DEADLINE, now) {
                BeatStep::End
            } else {
                BeatStep::Ping
            },
        ),
        BeatEvent::Sent { at, sent } => if sent {
            (
                Heartbeat {
                    pending: if h.pending is Some {
                        h.pending
                    } else {
                        Some(at)
                    },
                },
                BeatStep::Wait,
            )
        } else {
            (h, BeatStep::End)
        },
        BeatEvent::Pong(now) => if is_overdue(h.pending, PONG_DEADLINE, now) {
            (h, BeatStep::End)
        } else {
            (Heartbeat { pending: None }, BeatStep::Wait)
        },
        BeatEvent::Deadline(now) => (
            h,
            if is_overdue(h.pending, PONG_DEADLINE, now) {
                BeatStep::End
            } else {
                BeatStep::Wait
            },
        ),
        BeatEvent::PongsEnded => (h, BeatStep::End),
    }
}

impl Heartbeat {
    /// A heartbeat that has sent no ping yet.
    pub fn new() -> (r: Self)
        ensures
            r.pending is None,
    {
        Heartbeat { pending: None }
    }

    /// When to look whether the ping that is unanswered now has stayed so; `None` if none is.
    pub fn deadline(&self) -> (r: Option<u64>)
        ensures
            r == overdue_from(self.pending, PONG_DEADLINE),
    {
        first_overdue(self.pending, PONG_DEADLINE)
    }

    /// One step of a session's heartbeat.
    pub fn step(&mut self, event: BeatEvent) -> (r: BeatStep)
        ensures
            (*final(self), r) == beat(*old(self), event),
    {
        match event {
            BeatEvent::Stopped => BeatStep::End,
            BeatEvent::Tick(now) => {
                if overdue(self.pending, PONG_DEADLINE, now) {
                    BeatStep::End
                } else {
                    BeatStep::Ping
                }
            },
            BeatEvent::Sent { at, sent } => {
                if sent {
                    if self.pending.is_none() {
                        self.pending = Some(at);
                    }
                    BeatStep::Wait
                } else {
                    BeatStep::End
                }
            },
            BeatEvent::Pong(now) => {
                if overdue(self.pending, PONG_DEADLINE, now) {
                    BeatStep::End
                } else {
                    self.pending = None;
                    BeatStep::Wait
                }
            },
            BeatEvent::Deadline(now) => {
                if overdue(self.pending, PONG_DEADLINE, now) {
                    BeatStep::End
                } else {
                    BeatStep::Wait
                }
            },
            BeatEvent::PongsEnded => BeatStep::End,
        }
    }
}

// ── the data connection ──────────────────────────────────────────────────────

/// What a data connection does for its pipe.
#[derive(Debug, Clone, Copy, PartialEq, Eq, Structural)]
pub enum PipeStep {
    /// The pipe is there: bridge.
    Bridge,
    /// Look again in a moment.
    Retry,
    /// Give up.
    GiveUp,
}

/// What looking for a session's pipe does, after `tries` looks that found none.
pub open spec fn pipe_looked_for(
    before: CoreModel,
    after: CoreModel,
    session_id: u128,
    tries: u32,
    r: PipeStep,
) -> bool {
    let waiting = before.sessions.contains_key(session_id)
        && before.sessions[session_id].data_pipe;
    &&& r == if tries >= PIPE_TRIES {
        PipeStep::GiveUp
    } else if waiting {
        PipeStep::Bridge
    } else {
        PipeStep::Retry
    }
    &&& after == if r is Bridge {
        CoreModel {
            sessions: before.sessions.insert(
                session_id,
                SessionModel { data_pipe: false, ..before.sessions[session_id] },
            ),
            ..before
        }
    } else {
        before
    }
}

/// Looks for a session's pipe, after `tries` looks that found none. The pipe is taken when it
/// is found.
pub fn find_pipe(core: &mut TunnelCore, session_id: &u128, tries: u32) -> (r: PipeStep)
    ensures
        pipe_looked_for(old(core)@, final(core)@, *session_id, tries, r),
{
    if tries >= PIPE_TRIES {
        PipeStep::GiveUp
    } else if core.take_data_pipe(session_id) {
        PipeStep::Bridge
    } else {
        PipeStep::Retry
    }
}

/// The keepalive of a data connection: when the oldest ping that is still unanswered was sent,
/// if one is.
#[derive(Debug, Clone, Copy, PartialEq, Eq, Structural)]
pub struct Keepalive {
    pub pending: Option<u64>,
}

/// What happened on a data connection. Times are in nanoseconds on one clock.
#[derive(Debug, Clone, Copy, PartialEq, Eq, Structural)]
pub enum BridgeEvent {
    /// The client closed the connection, or it failed.
    WsEnded,
    /// The client sent bytes.
    WsBytes,
    /// The client answered a ping.
    WsPong(u64),
    /// The client sent something else.
    WsOther,
    /// The pipe was closed, or failed.
    PipeEnded,
    /// The pipe gave bytes.
    PipeBytes,
    /// It is time for a ping.
    Tick(u64),
    /// Bytes were passed on, or could not be.
    Passed(bool),
    /// A ping was sent, or could not be.
    PingSent { at: u64, sent: bool },
    /// The time to look whether a ping has stayed unanswered.
    Deadline(u64),
}

/// What to do about it.
#[derive(Debug, Clone, Copy, PartialEq, Eq, Structural)]
pub enum BridgeStep {
    Wait,
    /// Pass the bytes on to the pipe.
    ToPipe,
    /// Pass the bytes on to the client.
    ToClient,
    /// Ping the client.
    Ping,
    /// End the bridge.
    End,
}

/// What happens on a data connection: its keepalive afterwards, and what is to be done. An
/// answer that comes too late does not save the connection.
pub open spec fn bridged(k: Keepalive, event: BridgeEvent) -> (Keepalive, BridgeStep) {
    match event {
        BridgeEvent::WsEnded => (k, BridgeStep::End),
        BridgeEvent::WsBytes => (k, BridgeStep::ToPipe),
        BridgeEvent::WsPong(now) => if is_overdue(k.pending, DATA_PONG_DEADLINE, now) {
            (k, BridgeStep::End)
        } else {
            (Keepalive { pending: None }, BridgeStep::Wait)
        },
        BridgeEvent::WsOther => (k, BridgeStep::Wait),
        BridgeEvent::PipeEnded => (k, BridgeStep::End),
        BridgeEvent::PipeBytes => (k, BridgeStep::ToClient),
        BridgeEvent::Tick(now) => (
            k,
            if is_overdue(k.pending, DATA_PONG_DEADLINE, now) {
                BridgeStep::End
            } else {
                BridgeStep::Ping
            },
        ),
        BridgeEvent::Passed(ok) => (
            k,
            if ok {
                BridgeStep::Wait
            } else {
                BridgeStep::End
            },
        ),
        BridgeEvent::PingSent { at, sent } => if sent {
            (
                Keepalive {
                    pending: if k.pending is Some {
                        k.pending
                    } else {
                        Some(at)
                    },
                },
                BridgeStep::Wait,
            )
        } else {
            (k, BridgeStep::End)
        },
        BridgeEvent::Deadline(now) => (
            k,
            if is_overdue(k.pending, DATA_PONG_DEADLINE, now) {
                BridgeStep::End
            } else {
                BridgeStep::Wait
            },
        ),
    }
}

impl Keepalive {
    /// The keepalive of a connection that starts.
    pub fn new() -> (r: Self)
        ensures
            r.pending is None,
    {
        Keepalive { pending: None }
    }

    /// When to look whether the ping that is unanswered now has stayed so; `None` if none is.
    pub fn deadline(&self) -> (r: Option<u64>)
        ensures
            r == overdue_from(self.pending, DATA_PONG_DEADLINE),
    {
        first_overdue(self.pending, DATA_PONG_DEADLINE)
    }

    /// One step of a data connection.
    pub fn step(&mut self, event: BridgeEvent) -> (r: BridgeStep)
        ensures
            (*final(self), r) == bridged(*old(self), event),
    {
        match event {
            BridgeEvent::WsEnded => BridgeStep::End,
            BridgeEvent::WsBytes => BridgeStep::ToPipe,
            BridgeEvent::WsPong(now) => {
                if overdue(self.pending, DATA_PONG_DEADLINE, now) {
                    BridgeStep::End
                } else {
                    self.pending = None;
                    BridgeStep::Wait
                }
            },
            BridgeEvent::WsOther => BridgeStep::Wait,
            BridgeEvent::PipeEnded => BridgeStep::End,
            BridgeEvent::PipeBytes => BridgeStep::ToClient,
            BridgeEvent::Tick(now) => {
                if overdue(self.pending, DATA_PONG_DEADLINE, now) {
                    BridgeStep::End
                } else {
                    BridgeStep::Ping
                }
            },
            BridgeEvent::Passed(ok) => {
                if ok {
                    BridgeStep::Wait
                } else {
                    BridgeStep::End
                }
            },
            BridgeEvent::PingSent { at, sent } => {
                if sent {
                    if self.pending.is_none() {
                        self.pending = Some(at);
                    }
                    BridgeStep::Wait
                } else {
                    BridgeStep::End
                }
            },
            BridgeEvent::Deadline(now) => {
                if overdue(self.pending, DATA_PONG_DEADLINE, now) {
                    BridgeStep::End
                } else {
                    BridgeStep::Wait
                }
            },
        }
    }
}

// ── laws ─────────────────────────────────────────────────────────────────────

/// A heartbeat after a history of events, the oldest first.
pub open spec fn beats(h: Heartbeat, events: Seq<BeatEvent>) -> Heartbeat
    decreases events.len(),
{
    if events.len() == 0 {
        h
    } else {
        beat(beats(h, events.drop_last()), events.last()).0
    }
}

/// A ping that was sent at `t` and not answered in time ends the session: whatever else
/// happens in between, without an answer up to the deadline, the next look, the next tick and
/// even an answer end it once the deadline has passed.
pub proof fn law_silence_ends_session(t: u64, between: Seq<BeatEvent>, now: u64)
    requires
        forall|i: int|
            0 <= i < between.len() ==> ((#[trigger] between[i]) matches BeatEvent::Pong(at) ==> at
                > t + PONG_DEADLINE),
        now > t + PONG_DEADLINE,
    ensures
        ({
            let sent = beat(Heartbeat { pending: None }, BeatEvent::Sent { at: t, sent: true }).0;
            let h = beats(sent, between);
            &&& beat(h, BeatEvent::Deadline(now)).1 == BeatStep::End
            &&& beat(h, BeatEvent::Tick(now)).1 == BeatStep::End
            &&& beat(h, BeatEvent::Pong(now)).1 == BeatStep::End
        }),
{
    lemma_ping_stays_open(t, between);
}

/// A ping stays unanswered as long as no answer comes in time.
proof fn lemma_ping_stays_open(t: u64, between: Seq<BeatEvent>)
    requires
        forall|i: int|
            0 <= i < between.len() ==> ((#[trigger] between[i]) matches BeatEvent::Pong(at) ==> at
                > t + PONG_DEADLINE),
    ensures
        beats(Heartbeat { pending: Some(t) }, between).pending == Some(t),
    decreases between.len(),
{
    if between.len() > 0 {
        let before = between.drop_last();
        assert forall|i: int| 0 <= i < before.len() implies ((#[trigger] before[i]) matches
            BeatEvent::Pong(at) ==> at > t + PONG_DEADLINE) by {
            assert(before[i] == between[i]);
        }
        lemma_ping_stays_open(t, before);
        assert(between[between.len() - 1] == between.last());
    }
}

/// A client that answers in time stays: the answer leaves no ping open, so that neither a look
/// nor a tick ends the session, however long afterwards, until a ping is sent again.
pub proof fn law_answer_keeps_session(h: Heartbeat, at: u64, now: u64)
    requires
        h.pending matches Some(sent_at) ==> at <= sent_at + PONG_DEADLINE,
    ensures
        ({
            let (answered, step) = beat(h, BeatEvent::Pong(at));
            &&& step == BeatStep::Wait
            &&& beat(answered, BeatEvent::Deadline(now)).1 == BeatStep::Wait
            &&& beat(answered, BeatEvent::Tick(now)).1 == BeatStep::Ping
        }),
{
}

/// The time that a heartbeat asks to be looked at is the first at which a look ends the
/// session.
pub proof fn law_deadline_is_when_silence_ends_session(h: Heartbeat, now: u64)
    ensures
        beat(h, BeatEvent::Deadline(now)).1 == BeatStep::End <==> (overdue_from(
            h.pending,
            PONG_DEADLINE,
        ) matches Some(first) && now >= first),
{
}

/// A data connection after a history of events, the oldest first.
pub open spec fn bridges(k: Keepalive, events: Seq<BridgeEvent>) -> Keepalive
    decreases events.len(),
{
    if events.len() == 0 {
        k
    } else {
        bridged(bridges(k, events.drop_last()), events.last()).0
    }
}

/// A data connection whose client does not answer a ping in time is given up: whatever else
/// happens in between, without an answer up to the deadline, the next look, the next tick and
/// even an answer end it once the deadline has passed.
pub proof fn law_silence_ends_bridge(t: u64, between: Seq<BridgeEvent>, now: u64)
    requires
        forall|i: int|
            0 <= i < between.len() ==> ((#[trigger] between[i]) matches BridgeEvent::WsPong(at)
                ==> at > t + DATA_PONG_DEADLINE),
        now > t + DATA_PONG_DEADLINE,
    ensures
        ({
            let sent = bridged(
                Keepalive { pending: None },
                BridgeEvent::PingSent { at: t, sent: true },
            ).0;
            let k = bridges(sent, between);
            &&& bridged(k, BridgeEvent::Deadline(now)).1 == BridgeStep::End
            &&& bridged(k, BridgeEvent::Tick(now)).1 == BridgeStep::End
            &&& bridged(k, BridgeEvent::WsPong(now)).1 == BridgeStep::End
        }),
{
    lemma_data_ping_stays_open(t, between);
}

/// A ping on a data connection stays unanswered as long as no answer comes in time.
proof fn lemma_data_ping_stays_open(t: u64, between: Seq<BridgeEvent>)
    requires
        forall|i: int|
            0 <= i < between.len() ==> ((#[trigger] between[i]) matches BridgeEvent::WsPong(at)
                ==> at > t + DATA_PONG_DEADLINE),
    ensures
        bridges(Keepalive { pending: Some(t) }, between).pending == Some(t),
    decreases between.len(),
{
    if between.len() > 0 {
        let before = between.drop_last();
        assert forall|i: int| 0 <= i < before.len() implies ((#[trigger] before[i]) matches
            BridgeEvent::WsPong(at) ==> at > t + DATA_PONG_DEADLINE) by {
            assert(before[i] == between[i]);
        }
        lemma_data_ping_stays_open(t, before);
        assert(between[between.len() - 1] == between.last());
    }
}

/// A data connection whose client answers in time stays, until a ping is sent again.
pub proof fn law_answer_keeps_bridge(k: Keepalive, at: u64, now: u64)
    requires
        k.pending matches Some(sent_at) ==> at <= sent_at + DATA_PONG_DEADLINE,
    ensures
        ({
            let (answered, step) = bridged(k, BridgeEvent::WsPong(at));
            &&& step == BridgeStep::Wait
            &&& bridged(answered, BridgeEvent::Deadline(now)).1 == BridgeStep::Wait
            &&& bridged(answered, BridgeEvent::Tick(now)).1 == BridgeStep::Ping
        }),
{
}

} // verus!
