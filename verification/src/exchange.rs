//! An exchange with a local service: what is sent there, what comes back, and what is kept
//! of it.
use crate::clock::Clock;
use crate::headers::{
    forwarded, has_room, header_table, is_hop_by_hop, remove_hop_by_hop, room_for,
    set_forwarded_headers, ForwardScheme,
};
use crate::router::TunnelCore;
use crate::router_model::{bytes_added, CoreModel};
use crate::text::opt_text;
use hyper::HeaderMap;
use vstd::prelude::*;
use vstd::string::*;

verus! {

// ── header fields ────────────────────────────────────────────────────────────

/// `table` without the fields that are for one hop only.
pub open spec fn end_to_end(table: Map<Seq<char>, Seq<Seq<u8>>>) -> Map<Seq<char>, Seq<Seq<u8>>> {
    table.remove_keys(Set::new(|name: Seq<char>| is_hop_by_hop(name)))
}

/// Makes the header fields of a request ready for the local service: what is for one hop only
/// goes, and who sent it, by which scheme and for which host, is added.
pub fn request_headers(
    headers: &mut HeaderMap,
    peer_ip: &str,
    scheme: ForwardScheme,
    original_host: &str,
)
    requires
        has_room(header_table(*old(headers)), 3),
    ensures
        header_table(*final(headers)) == forwarded(
            end_to_end(header_table(*old(headers))),
            peer_ip@,
            scheme,
            original_host@,
        ),
{
    remove_hop_by_hop(headers);
    proof {
        let before = header_table(*old(headers));
        assert(end_to_end(before).dom().subset_of(before.dom()));
        vstd::set_lib::lemma_len_subset(end_to_end(before).dom(), before.dom());
    }
    set_forwarded_headers(headers, peer_ip, scheme, original_host);
}

/// Makes the header fields of a request ready for the local service, as [`request_headers`]
/// does, if the map has room for what is added. Returns whether it has; without, nothing
/// changes.
pub fn try_request_headers(
    headers: &mut HeaderMap,
    peer_ip: &str,
    scheme: ForwardScheme,
    original_host: &str,
) -> (r: bool)
    ensures
        r == has_room(header_table(*old(headers)), 3),
        header_table(*final(headers)) == if r {
            forwarded(
                end_to_end(header_table(*old(headers))),
                peer_ip@,
                scheme,
                original_host@,
            )
        } else {
            header_table(*old(headers))
        },
{
    if !room_for(headers, 3) {
        return false;
    }
    request_headers(headers, peer_ip, scheme, original_host);
    true
}

/// What a request asks for; `/` where it does not say.
pub open spec fn path_asked(path_and_query: Option<Seq<char>>) -> Seq<char> {
    match path_and_query {
        Some(p) => p,
        None => "/"@,
    }
}

/// What a request asks for; `/` where it does not say.
pub fn request_path(path_and_query: Option<String>) -> (r: String)
    ensures
        r@ == path_asked(opt_text(path_and_query)),
{
    match path_and_query {
        Some(p) => p,
        None => "/".to_owned(),
    }
}

// ── what is kept of an exchange ──────────────────────────────────────────────

/// What is kept of an exchange.
#[derive(Debug)]
pub struct CaptureEvent {
    pub conn_id: u128,
    pub tunnel_id: u128,
    pub tunnel_label: String,
    pub method: String,
    pub path: String,
    pub status: u16,
    pub request_bytes: u64,
    pub response_bytes: u64,
    pub duration_ms: u64,
    /// Nanoseconds since the Unix epoch.
    pub captured_at: u64,
}

/// The view of a [`CaptureEvent`].
#[verifier::ext_equal]
pub struct CaptureModel {
    pub conn_id: u128,
    pub tunnel_id: u128,
    pub tunnel_label: Seq<char>,
    pub method: Seq<char>,
    pub path: Seq<char>,
    pub status: u16,
    pub request_bytes: u64,
    pub response_bytes: u64,
    pub duration_ms: u64,
    pub captured_at: u64,
}

impl View for CaptureEvent {
    type V = CaptureModel;

    open spec fn view(&self) -> CaptureModel {
        CaptureModel {
            conn_id: self.conn_id,
            tunnel_id: self.tunnel_id,
            tunnel_label: self.tunnel_label@,
            method: self.method@,
            path: self.path@,
            status: self.status,
            request_bytes: self.request_bytes,
            response_bytes: self.response_bytes,
            duration_ms: self.duration_ms,
            captured_at: self.captured_at,
        }
    }
}

/// How many milliseconds have passed since the monotonic clock showed `started`.
pub open spec fn elapsed_ms(started: u64, now: Clock) -> u64 {
    if now.mono >= started {
        ((now.mono - started) / 1_000_000) as u64
    } else {
        0
    }
}

/// How many milliseconds have passed since the monotonic clock showed `started`.
fn millis_since(started: u64, now: Clock) -> (r: u64)
    ensures
        r == elapsed_ms(started, now),
{
    if now.mono >= started {
        (now.mono - started) / 1_000_000
    } else {
        0
    }
}

/// An answer on its way from the local service to the public.
#[derive(Debug)]
pub struct Exchange {
    pub conn_id: u128,
    pub tunnel_id: u128,
    pub tunnel_label: String,
    pub method: String,
    pub path: String,
    pub status: u16,
    pub request_bytes: u64,
    /// How much of the answer has gone through, modulo two to the power of 64.
    pub response_bytes: u64,
    /// When the request came, on the router's monotonic clock.
    pub started: u64,
}

/// The view of an [`Exchange`].
#[verifier::ext_equal]
pub struct ExchangeModel {
    pub conn_id: u128,
    pub tunnel_id: u128,
    pub tunnel_label: Seq<char>,
    pub method: Seq<char>,
    pub path: Seq<char>,
    pub status: u16,
    pub request_bytes: u64,
    pub response_bytes: u64,
    pub started: u64,
}

impl View for Exchange {
    type V = ExchangeModel;

    open spec fn view(&self) -> ExchangeModel {
        ExchangeModel {
            conn_id: self.conn_id,
            tunnel_id: self.tunnel_id,
            tunnel_label: self.tunnel_label@,
            method: self.method@,
            path: self.path@,
            status: self.status,
            request_bytes: self.request_bytes,
            response_bytes: self.response_bytes,
            started: self.started,
        }
    }
}

/// `x` after `n` more bytes of the answer.
pub open spec fn frame_passed(x: ExchangeModel, n: u64) -> ExchangeModel {
    ExchangeModel { response_bytes: x.response_bytes.wrapping_add(n), ..x }
}

/// What is kept of `x`.
pub open spec fn capture_of(x: ExchangeModel, now: Clock) -> CaptureModel {
    CaptureModel {
        conn_id: x.conn_id,
        tunnel_id: x.tunnel_id,
        tunnel_label: x.tunnel_label,
        method: x.method,
        path: x.path,
        status: x.status,
        request_bytes: x.request_bytes,
        response_bytes: x.response_bytes,
        duration_ms: elapsed_ms(x.started, now),
        captured_at: now.unix,
    }
}

impl Exchange {
    /// A piece of the answer, of `n` bytes, goes through. It counts for the tunnel at once.
    pub fn frame(&mut self, core: &mut TunnelCore, n: u64)
        ensures
            final(self)@ == frame_passed(old(self)@, n),
            final(core)@ == bytes_added(old(core)@, old(self)@.tunnel_id, n),
    {
        self.response_bytes = self.response_bytes.wrapping_add(n);
        core.add_bytes_proxied(&self.tunnel_id, n);
    }

    /// What is kept of the exchange, however it ended.
    pub fn capture(self, now: Clock) -> (r: CaptureEvent)
        ensures
            r@ == capture_of(self@, now),
    {
        let duration_ms: u64 = millis_since(self.started, now);
        CaptureEvent {
            conn_id: self.conn_id,
            tunnel_id: self.tunnel_id,
            tunnel_label: self.tunnel_label,
            method: self.method,
            path: self.path,
            status: self.status,
            request_bytes: self.request_bytes,
            response_bytes: self.response_bytes,
            duration_ms,
            captured_at: now.unix,
        }
    }
}

// ── going over to WebSocket ──────────────────────────────────────────────────

/// What is kept of a change to WebSocket: that it happened, and when.
pub open spec fn upgrade_capture(conn_id: u128, started: u64, now: Clock) -> CaptureModel {
    CaptureModel {
        conn_id,
        tunnel_id: 0,
        tunnel_label: ""@,
        method: "WS-UPGRADE"@,
        path: ""@,
        status: 101,
        request_bytes: 0,
        response_bytes: 0,
        duration_ms: elapsed_ms(started, now),
        captured_at: now.unix,
    }
}

/// What is kept of a change to WebSocket.
pub fn captured_upgrade(conn_id: u128, started: u64, now: Clock) -> (r: CaptureEvent)
    ensures
        r@ == upgrade_capture(conn_id, started, now),
{
    CaptureEvent {
        conn_id,
        tunnel_id: 0,
        tunnel_label: "".to_owned(),
        method: "WS-UPGRADE".to_owned(),
        path: "".to_owned(),
        status: 101,
        request_bytes: 0,
        response_bytes: 0,
        duration_ms: millis_since(started, now),
        captured_at: now.unix,
    }
}

/// What a WebSocket leaves when it is over.
pub open spec fn upgrade_settled(c: CoreModel, tunnel_id: u128, up: u64, down: u64) -> CoreModel {
    bytes_added(c, tunnel_id, up.wrapping_add(down))
}

/// A WebSocket is over: what went up and what came down both count for the tunnel.
pub fn upgrade_ended(core: &mut TunnelCore, tunnel_id: &u128, up: u64, down: u64)
    ensures
        final(core)@ == upgrade_settled(old(core)@, *tunnel_id, up, down),
{
    core.add_bytes_proxied(tunnel_id, up.wrapping_add(down));
}

// ── laws ─────────────────────────────────────────────────────────────────────

/// `x` after the pieces `frames` of the answer.
pub open spec fn frames_passed(x: ExchangeModel, frames: Seq<u64>) -> ExchangeModel
    decreases frames.len(),
{
    if frames.len() == 0 {
        x
    } else {
        frame_passed(frames_passed(x, frames.drop_last()), frames.last())
    }
}

/// The sum of some lengths.
pub open spec fn sum_of(frames: Seq<u64>) -> nat
    decreases frames.len(),
{
    if frames.len() == 0 {
        0
    } else {
        sum_of(frames.drop_last()) + frames.last() as nat
    }
}

/// What is kept of an exchange says how much of the answer went through until it ended,
/// whenever that was.
pub proof fn law_capture_counts_the_answer(x: ExchangeModel, frames: Seq<u64>, now: Clock)
    requires
        x.response_bytes == 0,
        sum_of(frames) <= u64::MAX,
    ensures
        capture_of(frames_passed(x, frames), now).response_bytes == sum_of(frames),
        capture_of(frames_passed(x, frames), now).tunnel_id == x.tunnel_id,
        capture_of(frames_passed(x, frames), now).status == x.status,
    decreases frames.len(),
{
    if frames.len() > 0 {
        law_capture_counts_the_answer(x, frames.drop_last(), now);
    }
}

} // verus!
