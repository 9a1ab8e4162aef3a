//! What a client is owed while its session lasts: that it hears of each connection as it came,
//! that each stream goes to the connection it is for, and that silence, and nothing else, ends
//! a session or a data connection.
use crate::protocol::FrameModel;
use crate::router_model::CoreModel;
use crate::session_loop::{
    beat, bridged, driver_stepped, id_bytes, loop_stepped, overdue_from, pipe_looked_for, pow256,
    BeatEvent, BridgeEvent, DriverEvent, DriverStep, Heartbeat, Keepalive, LoopEvent, LoopStep,
    PipeStep, AUTH_TIMEOUT, DATA_PING_INTERVAL, DATA_PONG_DEADLINE, PING_INTERVAL, PONG_DEADLINE,
};
use crate::tunnel::ControlMessage;
use vstd::prelude::*;

verus! {

// ── the control connection ───────────────────────────────────────────────────

/// What a client is told of a connection is what the router said of it. The router's message
/// leads to a request for a stream of that connection; once that is made, the client is told
/// the connection, where it comes from and its protocol, all as the router had it.
pub proof fn law_connections_are_announced_as_they_came(
    c1: CoreModel,
    c2: CoreModel,
    c3: CoreModel,
    c4: CoreModel,
    message: ControlMessage,
    asked: LoopStep,
    told: LoopStep,
)
    requires
        loop_stepped(c1, c2, LoopEvent::Control(Some(message)), asked),
        asked is AskStream,
        loop_stepped(
            c3,
            c4,
            LoopEvent::StreamAsked {
                conn_id: asked->AskStream_conn_id,
                client_addr: asked->AskStream_client_addr,
                protocol: asked->AskStream_protocol,
                asked: true,
            },
            told,
        ),
    ensures
        message matches ControlMessage::NewConnection { conn_id, client_addr, protocol } && told
            matches LoopStep::Send(f) && f@ == (FrameModel::NewConnection {
            conn_id,
            client_addr: client_addr@,
            protocol,
        }),
        asked->AskStream_conn_id == message->conn_id,
        c2 == c1,
        c4 == c3,
{
}

/// A stream is asked for exactly where the router has a new connection.
pub proof fn law_streams_are_asked_for_connections(
    before: CoreModel,
    after: CoreModel,
    event: LoopEvent,
    step: LoopStep,
)
    requires
        loop_stepped(before, after, event, step),
    ensures
        step is AskStream <==> (event matches LoopEvent::Control(Some(m)) && m is NewConnection),
{
}

/// What a control connection does to the core: nothing, but that a connection for which no
/// stream can be asked waits no longer. The client hears nothing of that one.
pub proof fn law_loop_leaves_the_core_alone(
    before: CoreModel,
    after: CoreModel,
    event: LoopEvent,
    step: LoopStep,
)
    requires
        loop_stepped(before, after, event, step),
    ensures
        after == (CoreModel { pending: after.pending, ..before }),
        forall|id: u128| #[trigger]
            after.pending.contains(id) <==> before.pending.contains(id) && !(event matches
                LoopEvent::StreamAsked { conn_id, asked, .. } && !asked && conn_id == id),
        event matches LoopEvent::StreamAsked { asked, .. } ==> (!asked ==> step is Wait),
{
}

/// When a session ends, and how: in order when the client leaves or the heartbeat ends, after
/// closing the connection when the router lets go of it or shuts down, and with an error when
/// the connection fails. Nothing else ends it; above all not the loss of its data connection,
/// for which another is set up.
pub proof fn law_what_ends_a_session(
    before: CoreModel,
    after: CoreModel,
    event: LoopEvent,
    step: LoopStep,
)
    requires
        loop_stepped(before, after, event, step),
    ensures
        step is End <==> event is Closed || (event matches LoopEvent::Ping(p) && p is None),
        step is CloseAndEnd <==> (event matches LoopEvent::Control(m) && (m is None
            || m->0 is Shutdown)),
        step is Fail <==> event is Failed,
        step is RebuildDataPlane <==> event is DriverEnded,
{
}

/// A client is pinged with the time that the heartbeat gives, and what it sends is handled as it
/// sent it; noise is passed over.
pub proof fn law_pings_and_frames_pass(
    before: CoreModel,
    after: CoreModel,
    event: LoopEvent,
    step: LoopStep,
)
    requires
        loop_stepped(before, after, event, step),
    ensures
        event matches LoopEvent::Ping(Some(t)) ==> (step matches LoopStep::Send(f) && f@ == (
        FrameModel::Ping { timestamp: t })),
        step is Handle <==> (event matches LoopEvent::Frame(f) && f is Some),
        step matches LoopStep::Handle(f) ==> event == LoopEvent::Frame(Some(f)),
        event matches LoopEvent::Frame(f) ==> (f is None ==> step is Wait),
        step is Send ==> event is Ping || event is StreamAsked,
{
}

// ── the stream driver ────────────────────────────────────────────────────────

/// The number that bytes stand for, the most significant first.
pub open spec fn number_of(bytes: Seq<u8>) -> nat
    decreases bytes.len(),
{
    if bytes.len() == 0 {
        0
    } else {
        number_of(bytes.drop_last()) * 256 + bytes.last() as nat
    }
}

/// The first `n` of an id's bytes stand for what is left of the id without the others.
proof fn lemma_bytes_so_far(id: u128, n: nat)
    requires
        n <= 16,
    ensures
        number_of(id_bytes(id).take(n as int)) == id as nat / pow256((16 - n) as nat),
    decreases n,
{
    reveal_with_fuel(pow256, 18);
    let all = id_bytes(id);
    if n == 0 {
        assert(all.take(0).len() == 0);
        assert(pow256(16) == 0x1_0000_0000_0000_0000_0000_0000_0000_0000nat);
        assert(id as nat / pow256(16) == 0);
    } else {
        let m = (n - 1) as nat;
        lemma_bytes_so_far(id, m);
        assert(all.take(n as int).drop_last() =~= all.take(m as int));
        assert(all.take(n as int).last() == all[m as int]);
        let p = pow256((16 - n) as nat);
        lemma_pow_positive((16 - n) as nat);
        assert(pow256((16 - m) as nat) == 256 * p);
        let x = id as nat / p;
        assert(id as nat / (256 * p) == x / 256) by {
            vstd::arithmetic::div_mod::lemma_div_denominator(id as int, p as int, 256);
            assert(p * 256 == 256 * p) by (nonlinear_arith);
        }
        assert(all[m as int] == ((id as int / p as int) % 256) as u8);
        assert(x == 256 * (x / 256) + x % 256);
    }
}

/// Powers of 256 are positive.
proof fn lemma_pow_positive(n: nat)
    ensures
        pow256(n) > 0,
    decreases n,
{
    if n > 0 {
        lemma_pow_positive((n - 1) as nat);
    }
}

/// What a stream starts with tells which connection it is for: 16 bytes that stand for its id.
pub proof fn law_header_tells_the_connection(id: u128)
    ensures
        id_bytes(id).len() == 16,
        number_of(id_bytes(id)) == id,
{
    lemma_bytes_so_far(id, 16);
    assert(id_bytes(id).take(16) =~= id_bytes(id));
    assert(pow256(0) == 1);
    assert(id as nat / 1 == id);
}

/// A stream that is asked for is opened for that connection, starts with a head that tells it,
/// and goes to that connection: exactly if it still waits when the head is written, and once.
pub proof fn law_stream_goes_to_its_connection(
    before: CoreModel,
    after: CoreModel,
    event: DriverEvent,
    step: DriverStep,
)
    requires
        driver_stepped(before, after, event, step),
    ensures
        step is Open <==> (event matches DriverEvent::Asked(a) && a is Some),
        step matches DriverStep::Open(id) ==> event == DriverEvent::Asked(Some(id)),
        step is WriteHeader <==> event is Opened,
        step matches DriverStep::WriteHeader { conn_id, header } ==> event == DriverEvent::Opened(
            conn_id,
        ) && header@.len() == 16 && number_of(header@) == conn_id,
        step matches DriverStep::HandOver(id) ==> event == (DriverEvent::HeaderWritten {
            conn_id: id,
            written: true,
        }) && before.pending.contains(id) && !after.pending.contains(id),
        event matches DriverEvent::HeaderWritten { conn_id, written } ==> (written
            && before.pending.contains(conn_id) ==> step is HandOver),
        step is End <==> event is Ended || (event matches DriverEvent::Asked(a) && a is None),
{
    if let DriverEvent::Opened(id) = event {
        law_header_tells_the_connection(id);
    }
}

/// What a driver does to the core: only who waits changes. A connection waits no longer once it
/// has its stream, or once a stream did not come in time or was asked for too late.
pub proof fn law_driver_settles_who_waits(
    before: CoreModel,
    after: CoreModel,
    event: DriverEvent,
    step: DriverStep,
)
    requires
        driver_stepped(before, after, event, step),
    ensures
        after == (CoreModel { pending: after.pending, ..before }),
        forall|id: u128| #[trigger]
            after.pending.contains(id) <==> before.pending.contains(id) && !(event == (
            DriverEvent::HeaderWritten { conn_id: id, written: true }) || event
                == DriverEvent::OpenTimedOut(id) || event == DriverEvent::Leftover(id)),
{
}

// ── the heartbeat ────────────────────────────────────────────────────────────

/// How long things last: five seconds for the first frame; a ping every half minute on the
/// control connection, and every twenty seconds on the data connection.
pub proof fn law_how_long_things_last()
    ensures
        AUTH_TIMEOUT == 5 * 1_000_000_000,
        PING_INTERVAL == 30 * 1_000_000_000,
        DATA_PING_INTERVAL == 20 * 1_000_000_000,
{
}

/// A heartbeat ends the session exactly where it is stopped, cannot send, can get no answer, or
/// has waited for an answer for more than ten seconds; and it pings at every tick before that.
pub proof fn law_what_a_heartbeat_does(h: Heartbeat, event: BeatEvent)
    ensures
        ({
            let (after, step) = beat(h, event);
            let late = |now: u64| h.pending is Some && now > h.pending->0 + 10_000_000_000;
            &&& step is End <==> match event {
                BeatEvent::Stopped => true,
                BeatEvent::PongsEnded => true,
                BeatEvent::Sent { sent, .. } => !sent,
                BeatEvent::Tick(now) => late(now),
                BeatEvent::Pong(now) => late(now),
                BeatEvent::Deadline(now) => late(now),
            }
            &&& step is Ping <==> (event matches BeatEvent::Tick(now) && !late(now))
            &&& event matches BeatEvent::Sent { at, sent } ==> (sent && h.pending is None ==> (
            after.pending == Some(at)))
            &&& event matches BeatEvent::Pong(now) ==> (!late(now) ==> after.pending is None)
            &&& !(event is Sent && h.pending is None) && !(event is Pong && !(step is End))
                ==> after == h
        }),
{
}

/// The deadline of a ping is the first time at which its answer is late: ten seconds and a
/// nanosecond after it was sent. Without a ping out there is none.
pub proof fn law_deadlines(pending: Option<u64>, now: u64)
    ensures
        pending is None ==> overdue_from(pending, 10_000_000_000) is None,
        overdue_from(pending, 10_000_000_000) matches Some(d) ==> (now >= d <==> now > pending->0
            + 10 * 1_000_000_000),
        pending matches Some(at) ==> (at <= u64::MAX - 10_000_000_001 ==> overdue_from(
            pending,
            10_000_000_000,
        ) is Some),
        PONG_DEADLINE == 10 * 1_000_000_000,
        DATA_PONG_DEADLINE == 10 * 1_000_000_000,
{
}

// ── the data connection ──────────────────────────────────────────────────────

/// A data connection finds its pipe exactly if one waits, within forty looks; and what one takes
/// is there for nobody else.
pub proof fn law_pipe_is_taken_once(
    before: CoreModel,
    after: CoreModel,
    later: CoreModel,
    session_id: u128,
    tries: u32,
    again: u32,
    r: PipeStep,
    s: PipeStep,
)
    requires
        pipe_looked_for(before, after, session_id, tries, r),
        pipe_looked_for(after, later, session_id, again, s),
    ensures
        r is GiveUp <==> tries >= 40,
        r is Bridge <==> tries < 40 && before.sessions.contains_key(session_id)
            && before.sessions[session_id].data_pipe,
        r is Bridge ==> !(s is Bridge) && !after.sessions[session_id].data_pipe,
        !(r is Bridge) ==> after == before,
        after == (CoreModel { sessions: after.sessions, ..before }),
        after.sessions.dom() =~= before.sessions.dom(),
        forall|other: u128|
            other != session_id && #[trigger] before.sessions.contains_key(other)
                ==> after.sessions[other] == before.sessions[other],
{
}

/// What a bridge does: bytes of the client go to the pipe and bytes of the pipe to the client;
/// it ends when either side ends, when something cannot be passed on or sent, and when an answer
/// is out for more than ten seconds; and it pings at every tick before that.
pub proof fn law_what_a_bridge_does(k: Keepalive, event: BridgeEvent)
    ensures
        ({
            let (after, step) = bridged(k, event);
            let late = |now: u64| k.pending is Some && now > k.pending->0 + 10_000_000_000;
            &&& step is ToPipe <==> event is WsBytes
            &&& step is ToClient <==> event is PipeBytes
            &&& step is Ping <==> (event matches BridgeEvent::Tick(now) && !late(now))
            &&& step is End <==> match event {
                BridgeEvent::WsEnded => true,
                BridgeEvent::PipeEnded => true,
                BridgeEvent::Passed(ok) => !ok,
                BridgeEvent::PingSent { sent, .. } => !sent,
                BridgeEvent::Tick(now) => late(now),
                BridgeEvent::WsPong(now) => late(now),
                BridgeEvent::Deadline(now) => late(now),
                _ => false,
            }
            &&& event matches BridgeEvent::PingSent { at, sent } ==> (sent && k.pending is None
                ==> (after.pending == Some(at)))
            &&& event matches BridgeEvent::WsPong(now) ==> (!late(now) ==> after.pending is None)
            &&& !(event is PingSent && k.pending is None) && !(event is WsPong && !(step is End))
                ==> after == k
        }),
{
}

} // verus!
