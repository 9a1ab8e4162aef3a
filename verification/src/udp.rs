//! The UDP edge: listeners, sessions of remote peers, and datagrams on a byte stream.
use crate::ids::{is_random_uuid, new_uuid};
use crate::router::TunnelCore;
use crate::router_laws::{
    consistent, law_bytes_consistent, law_picks_can_serve, law_request_count_consistent,
    law_waiting_connections_consistent,
};
use crate::router_model::{
    bytes_added, can_serve, is_served, request_counted, CoreModel, KeyModel,
};
use crate::router_ops::picked;
use crate::table::{table_insert, table_keys, table_remove, table_retain, table_view, Contents};
use crate::proxy::StreamEnd;
use crate::tunnel::{TunnelInfo, UdpTunnelEvent};
use dashmap::DashMap;
use vstd::prelude::*;

verus! {

/// The largest datagram that is taken.
pub const MAX_DATAGRAM_SIZE: usize = 65535;

/// How many datagrams wait while a session's stream is being opened.
pub const MAX_BUFFERED_PACKETS: usize = 64;

/// How long a session may be idle, in seconds.
pub const SESSION_IDLE_TIMEOUT_SECS: u64 = 60;

/// How often sessions that have ended are looked for, in seconds.
pub const REAPER_INTERVAL_SECS: u64 = 10;

// ── datagrams on a byte stream ───────────────────────────────────────────────

/// The four bytes of a number, the most significant first.
pub open spec fn be_bytes(n: nat) -> Seq<u8> {
    seq![
        ((n / 0x100_0000) % 256) as u8,
        ((n / 0x1_0000) % 256) as u8,
        ((n / 0x100) % 256) as u8,
        (n % 256) as u8,
    ]
}

/// The number that four bytes stand for, the most significant first.
pub open spec fn be_value(b: Seq<u8>) -> nat {
    (b[0] as nat) * 0x100_0000 + (b[1] as nat) * 0x1_0000 + (b[2] as nat) * 0x100 + (b[3] as nat)
}

/// A datagram on a byte stream: its length in four bytes, then its bytes.
pub open spec fn framed(data: Seq<u8>) -> Seq<u8> {
    be_bytes(data.len()) + data
}

/// The head of a datagram on a byte stream: its length.
pub fn frame_header(len: u32) -> (r: Vec<u8>)
    ensures
        r@ == be_bytes(len as nat),
{
    let mut out: Vec<u8> = Vec::new();
    out.push(((len / 0x100_0000) % 256) as u8);
    out.push(((len / 0x1_0000) % 256) as u8);
    out.push(((len / 0x100) % 256) as u8);
    out.push((len % 256) as u8);
    assert(out@ =~= be_bytes(len as nat));
    out
}

/// A datagram as it goes on a byte stream.
pub fn frame_datagram(data: &Vec<u8>) -> (r: Vec<u8>)
    requires
        data@.len() <= u32::MAX,
    ensures
        r@ == framed(data@),
{
    let mut out: Vec<u8> = frame_header(data.len() as u32);
    let mut i: usize = 0;
    while i < data.len()
        invariant
            i <= data@.len(),
            out@ == be_bytes(data@.len()) + data@.take(i as int),
        decreases data@.len() - i,
    {
        out.push(data[i]);
        assert(data@.take(i + 1) =~= data@.take(i as int).push(data@[i as int]));
        assert(out@ =~= be_bytes(data@.len()) + data@.take(i + 1));
        i = i + 1;
    }
    assert(data@.take(i as int) =~= data@);
    out
}

/// How long the datagram behind a head is; `None` where it is above the largest.
pub fn frame_length(head: [u8; 4]) -> (r: Option<usize>)
    ensures
        r is Some <==> be_value(head@) <= MAX_DATAGRAM_SIZE,
        r matches Some(n) ==> n == be_value(head@),
{
    let n: u64 = (head[0] as u64) * 0x100_0000 + (head[1] as u64) * 0x1_0000 + (head[2] as u64)
        * 0x100 + (head[3] as u64);
    if n > MAX_DATAGRAM_SIZE as u64 {
        None
    } else {
        Some(n as usize)
    }
}

/// Four bytes stand for the number that they were made of.
proof fn lemma_be_round_trip(n: nat)
    requires
        n <= u32::MAX,
    ensures
        be_value(be_bytes(n)) == n,
{
    let x = n as int;
    let q1 = x / 0x100;
    let q2 = x / 0x1_0000;
    let q3 = x / 0x100_0000;
    assert(q2 == q1 / 0x100) by {
        vstd::arithmetic::div_mod::lemma_div_denominator(x, 0x100, 0x100);
    }
    assert(q3 == q2 / 0x100) by {
        vstd::arithmetic::div_mod::lemma_div_denominator(x, 0x1_0000, 0x100);
    }
    vstd::arithmetic::div_mod::lemma_fundamental_div_mod(x, 0x100);
    vstd::arithmetic::div_mod::lemma_fundamental_div_mod(q1, 0x100);
    vstd::arithmetic::div_mod::lemma_fundamental_div_mod(q2, 0x100);
    assert(q3 < 256);
    assert(q3 % 256 == q3);
    let bytes = be_bytes(n);
    assert(bytes[0] as int == q3);
    assert(bytes[1] as int == q2 % 256);
    assert(bytes[2] as int == q1 % 256);
    assert(bytes[3] as int == x % 256);
}

/// The head of a datagram says how long it is.
pub proof fn law_datagram_head(n: nat)
    requires
        n <= u32::MAX,
    ensures
        be_bytes(n).len() == 4,
        be_value(be_bytes(n)) == n,
{
    lemma_be_round_trip(n);
}

/// What goes on a byte stream as a datagram comes off it as that datagram: its head says how
/// long it is, that many bytes follow that are the datagram, and the rest of the stream is
/// untouched.
pub proof fn law_datagram_round_trip(data: Seq<u8>, rest: Seq<u8>)
    requires
        data.len() <= MAX_DATAGRAM_SIZE,
    ensures
        be_value((framed(data) + rest).take(4)) == data.len(),
        (framed(data) + rest).subrange(4, 4 + data.len() as int) == data,
        (framed(data) + rest).skip(4 + data.len() as int) == rest,
{
    let stream = framed(data) + rest;
    lemma_be_round_trip(data.len());
    assert(stream.take(4) =~= be_bytes(data.len()));
    assert(stream.subrange(4, 4 + data.len() as int) =~= data);
    assert(stream.skip(4 + data.len() as int) =~= rest);
}

// ── listeners ────────────────────────────────────────────────────────────────

/// The ports that have a listener, each once.
#[derive(Debug)]
pub struct Listeners {
    pub ports: Vec<u16>,
}

impl View for Listeners {
    type V = Set<u16>;

    open spec fn view(&self) -> Set<u16> {
        self.ports@.to_set()
    }
}

/// What happened to the tunnels, as the edge hears of it.
#[derive(Debug, Clone, Copy, PartialEq, Eq, Structural)]
pub enum EdgeEvent {
    Tunnel(UdpTunnelEvent),
    /// Some news were missed.
    Lagged,
    /// No news will ever come.
    Closed,
}

/// What the edge does about it.
#[derive(Debug)]
pub enum EdgeStep {
    /// Start a listener, in place of the one that is there if there is one.
    Start { port: u16, replace: bool },
    /// Stop a listener.
    Stop { port: u16 },
    /// Nothing.
    Wait,
    /// See which listeners should be there.
    Resync,
    /// End.
    End,
}

/// What happens to the listeners, and what is to be done.
pub open spec fn edge_stepped(
    before: Set<u16>,
    after: Set<u16>,
    event: EdgeEvent,
    step: EdgeStep,
) -> bool {
    match event {
        EdgeEvent::Tunnel(UdpTunnelEvent::Registered { port, .. }) => after == before.insert(port)
            && step == (EdgeStep::Start { port, replace: before.contains(port) }),
        EdgeEvent::Tunnel(UdpTunnelEvent::Unregistered { port }) => after == before.remove(port)
            && step == if before.contains(port) {
            EdgeStep::Stop { port }
        } else {
            EdgeStep::Wait
        },
        EdgeEvent::Lagged => after == before && step is Resync,
        EdgeEvent::Closed => after == before && step is End,
    }
}

/// The listeners were brought in line with the ports in use: those on `stop` were there and
/// are not in use, those on `start` are in use and were not there.
pub open spec fn caught_up(
    before: Set<u16>,
    in_use: Set<u16>,
    after: Set<u16>,
    stop: Seq<u16>,
    start: Seq<u16>,
) -> bool {
    &&& after == in_use
    &&& stop.no_duplicates()
    &&& start.no_duplicates()
    &&& stop.to_set() == before.difference(in_use)
    &&& start.to_set() == in_use.difference(before)
}

/// Whether `list` holds `port`.
fn ports_contain(list: &Vec<u16>, port: u16) -> (r: bool)
    ensures
        r == list@.contains(port),
{
    let mut i: usize = 0;
    while i < list.len()
        invariant
            i <= list@.len(),
            forall|j: int| 0 <= j < i ==> list@[j] != port,
        decreases list@.len() - i,
    {
        if list[i] == port {
            return true;
        }
        i = i + 1;
    }
    false
}

/// The ports of `list` that `other` does not hold, in order.
fn ports_without(list: &Vec<u16>, other: &Vec<u16>) -> (r: Vec<u16>)
    requires
        list@.no_duplicates(),
    ensures
        r@.no_duplicates(),
        r@.to_set() == list@.to_set().difference(other@.to_set()),
{
    let mut out: Vec<u16> = Vec::new();
    let mut i: usize = 0;
    while i < list.len()
        invariant
            i <= list@.len(),
            list@.no_duplicates(),
            out@.no_duplicates(),
            forall|p: u16| #[trigger]
                out@.contains(p) <==> list@.take(i as int).contains(p) && !other@.contains(p),
        decreases list@.len() - i,
    {
        let port: u16 = list[i];
        let ghost before = out@;
        assert(list@.take(i + 1) =~= list@.take(i as int).push(port));
        assert(!list@.take(i as int).contains(port));
        if !ports_contain(other, port) {
            out.push(port);
            proof {
                lemma_push(before, port);
            }
        }
        proof {
            lemma_push(list@.take(i as int), port);
        }
        i = i + 1;
    }
    proof {
        assert(list@.take(i as int) =~= list@);
        assert(out@.to_set() =~= list@.to_set().difference(other@.to_set())) by {
            assert forall|p: u16|
                out@.to_set().contains(p) == list@.to_set().difference(
                    other@.to_set(),
                ).contains(p) by {
                assert(out@.contains(p) <==> list@.contains(p) && !other@.contains(p));
            }
        }
    }
    out
}

/// One more element at the end.
proof fn lemma_push(list: Seq<u16>, port: u16)
    ensures
        forall|p: u16| #[trigger] list.push(port).contains(p) <==> p == port || list.contains(p),
        list.no_duplicates() && !list.contains(port) ==> list.push(port).no_duplicates(),
        list.push(port).to_set() == list.to_set().insert(port),
{
    assert forall|p: u16| #[trigger]
        list.push(port).contains(p) <==> p == port || list.contains(p) by {
        if list.contains(p) {
            let i = choose|i: int| 0 <= i < list.len() && list[i] == p;
            assert(list.push(port)[i] == p);
        }
        assert(list.push(port)[list.len() as int] == port);
    }
    assert(list.push(port).to_set() =~= list.to_set().insert(port)) by {
        assert forall|p: u16|
            list.push(port).to_set().contains(p) == list.to_set().insert(port).contains(p) by {
            assert(list.push(port).contains(p) <==> p == port || list.contains(p));
        }
    }
    if list.no_duplicates() && !list.contains(port) {
        assert forall|i: int, j: int|
            0 <= i < list.len() + 1 && 0 <= j < list.len() + 1 && i != j implies list.push(
            port,
        )[i] != list.push(port)[j] by {
            if i == list.len() {
                assert(list.contains(list[j]));
            }
            if j == list.len() {
                assert(list.contains(list[i]));
            }
        }
    }
}

impl Listeners {
    /// Every port is there once.
    pub open spec fn wf(&self) -> bool {
        self.ports@.no_duplicates()
    }

    /// The listeners for the ports in use when the edge starts.
    pub fn start(core: &TunnelCore) -> (r: Self)
        ensures
            r.wf(),
            r@ == core@.udp.dom(),
    {
        Listeners { ports: core.udp_ports_in_use() }
    }

    /// One step of the edge.
    pub fn step(&mut self, event: EdgeEvent) -> (r: EdgeStep)
        requires
            old(self).wf(),
        ensures
            final(self).wf(),
            edge_stepped(old(self)@, final(self)@, event, r),
    {
        match event {
            EdgeEvent::Tunnel(UdpTunnelEvent::Registered { tunnel_id: _, port }) => {
                let replace: bool = ports_contain(&self.ports, port);
                if replace {
                    assert(self@.insert(port) =~= self@);
                } else {
                    proof {
                        lemma_push(self.ports@, port);
                    }
                    self.ports.push(port);
                }
                EdgeStep::Start { port, replace }
            },
            EdgeEvent::Tunnel(UdpTunnelEvent::Unregistered { port }) => {
                if !ports_contain(&self.ports, port) {
                    assert(self@.remove(port) =~= self@);
                    return EdgeStep::Wait;
                }
                let mut gone: Vec<u16> = Vec::new();
                gone.push(port);
                let rest: Vec<u16> = ports_without(&self.ports, &gone);
                proof {
                    lemma_push(Seq::empty(), port);
                    assert(gone@ =~= Seq::<u16>::empty().push(port));
                    assert(rest@.to_set() =~= self@.remove(port));
                }
                self.ports = rest;
                EdgeStep::Stop { port }
            },
            EdgeEvent::Lagged => EdgeStep::Resync,
            EdgeEvent::Closed => EdgeStep::End,
        }
    }

    /// Brings the listeners in line with the ports in use. Returns those to stop and those to
    /// start.
    pub fn resync(&mut self, core: &TunnelCore) -> (r: (Vec<u16>, Vec<u16>))
        requires
            old(self).wf(),
        ensures
            final(self).wf(),
            caught_up(old(self)@, core@.udp.dom(), final(self)@, r.0@, r.1@),
    {
        let active: Vec<u16> = core.udp_ports_in_use();
        let stop: Vec<u16> = ports_without(&self.ports, &active);
        let start: Vec<u16> = ports_without(&active, &self.ports);
        self.ports = active;
        (stop, start)
    }
}

impl TunnelCore {
    /// The UDP ports in use, in no fixed order.
    pub fn udp_ports_in_use(&self) -> (r: Vec<u16>)
        ensures
            r@.no_duplicates(),
            r@.to_set() == self@.udp.dom(),
    {
        let keys: Vec<u16> = table_keys(&self.udp_routes);
        proof {
            assert(keys@.no_duplicates()) by {
                assert forall|i: int, j: int|
                    0 <= i < keys@.len() && 0 <= j < keys@.len() && i != j implies keys@[i]
                    != keys@[j] by {
                    if i < j {
                        assert(keys@[i]@ != keys@[j]@);
                    } else {
                        assert(keys@[j]@ != keys@[i]@);
                    }
                }
            }
            assert(keys@.to_set() =~= self@.udp.dom()) by {
                assert forall|p: u16| keys@.to_set().contains(p) == self@.udp.dom().contains(p) by {
                    if keys@.contains(p) {
                        let i = choose|i: int| 0 <= i < keys@.len() && keys@[i] == p;
                        assert(self@.udp.contains_key(keys@[i]@));
                    }
                    if self@.udp.contains_key(p) {
                        let i = choose|i: int| 0 <= i < keys@.len() && (#[trigger] keys@[i])@ == p;
                        assert(keys@.contains(p));
                    }
                }
            }
        }
        keys
    }
}

// ── sessions of remote peers ─────────────────────────────────────────────────

/// A remote peer: the family and the bits of its address, and its port.
#[derive(Debug, Clone, Copy, PartialEq, Eq, Structural)]
pub struct Peer {
    pub family: u8,
    pub bits: u128,
    pub port: u16,
}

/// What the sessions of a port are filed under.
pub open spec fn peer_key(p: Peer) -> (u8, u128, u16) {
    (p.family, p.bits, p.port)
}

/// What a table of sessions holds: the connection of each peer.
pub uninterp spec fn peer_table(m: DashMap<(u8, u128, u16), u128>) -> Map<(u8, u128, u16), u128>;

impl Contents<(u8, u128, u16), u128> for DashMap<(u8, u128, u16), u128> {
    open spec fn contents(&self) -> Map<(u8, u128, u16), u128> {
        peer_table(*self)
    }
}

/// `DashMap::new`: a table without sessions.
#[verifier::external_body]
fn new_peer_table() -> (r: DashMap<(u8, u128, u16), u128>)
    ensures
        peer_table(r) =~= Map::empty(),
{
    DashMap::new()
}

/// The sessions on a port: the connection of each remote peer.
pub struct UdpSessions {
    pub connections: DashMap<(u8, u128, u16), u128>,
}

impl View for UdpSessions {
    type V = Map<(u8, u128, u16), u128>;

    open spec fn view(&self) -> Map<(u8, u128, u16), u128> {
        peer_table(self.connections)
    }
}

/// What to do about a datagram.
#[derive(Debug)]
pub enum DatagramStep {
    Drop,
    /// Pass it on to this connection.
    PassOn(u128),
    /// See whether the tunnel may take another connection at once.
    TakePermit(TunnelInfo),
}

/// What becomes of a datagram from a peer. A peer with a session is not looked up again.
pub open spec fn datagram_handled(
    c: CoreModel,
    sessions: Map<(u8, u128, u16), u128>,
    port: u16,
    peer: Peer,
    allowed: bool,
    step: DatagramStep,
) -> bool {
    if !allowed {
        step is Drop
    } else if sessions.contains_key(peer_key(peer)) {
        step == DatagramStep::PassOn(sessions[peer_key(peer)])
    } else {
        exists|r: Option<TunnelInfo>| #[trigger]
            picked(c, KeyModel::Udp(port), r) && step == match r {
                Some(info) => DatagramStep::TakePermit(info),
                None => DatagramStep::Drop,
            }
    }
}

/// The sessions that are left once those whose connection is among `closed` are forgotten.
pub open spec fn reaped(sessions: Map<(u8, u128, u16), u128>, closed: Seq<u128>) -> Map<
    (u8, u128, u16),
    u128,
> {
    Map::new(
        |k: (u8, u128, u16)| sessions.contains_key(k) && !closed.contains(sessions[k]),
        |k: (u8, u128, u16)| sessions[k],
    )
}

impl UdpSessions {
    /// No sessions.
    pub fn new() -> (r: Self)
        ensures
            r@ == Map::<(u8, u128, u16), u128>::empty(),
    {
        UdpSessions { connections: new_peer_table() }
    }

    /// A datagram has come on a port. `allowed`: its address may send another.
    pub fn datagram(&self, core: &TunnelCore, port: u16, peer: Peer, allowed: bool) -> (r:
        DatagramStep)
        ensures
            datagram_handled(core@, self@, port, peer, allowed, r),
    {
        if !allowed {
            return DatagramStep::Drop;
        }
        let key: (u8, u128, u16) = (peer.family, peer.bits, peer.port);
        let known: Option<u128> = table_view(
            &self.connections,
            &key,
            |c: &u128| -> (x: u128) ensures x == c@ { *c },
        );
        if let Some(conn_id) = known {
            return DatagramStep::PassOn(conn_id);
        }
        let found: Option<TunnelInfo> = core.pick_udp(port);
        assert(picked(core@, KeyModel::Udp(port), found));
        match found {
            Some(info) => DatagramStep::TakePermit(info),
            None => DatagramStep::Drop,
        }
    }

    /// Opens a session for a peer on a tunnel that may take it, and counts it there. The session
    /// gets a new connection, whose id is returned.
    pub fn open(&mut self, core: &mut TunnelCore, tunnel_id: &u128, peer: Peer) -> (r: u128)
        ensures
            is_random_uuid(r),
            final(self)@ == old(self)@.insert(peer_key(peer), r),
            final(core)@ == request_counted(old(core)@, *tunnel_id),
    {
        let conn_id: u128 = new_uuid();
        self.open_with(core, tunnel_id, peer, conn_id);
        conn_id
    }

    /// Opens a session under an id for its connection that the caller supplies. See
    /// [`UdpSessions::open`].
    pub fn open_with(&mut self, core: &mut TunnelCore, tunnel_id: &u128, peer: Peer, conn_id: u128)
        ensures
            final(self)@ == old(self)@.insert(peer_key(peer), conn_id),
            final(core)@ == request_counted(old(core)@, *tunnel_id),
    {
        core.count_request(tunnel_id);
        table_insert(&mut self.connections, (peer.family, peer.bits, peer.port), conn_id);
    }

    /// Forgets the session of a peer.
    pub fn end(&mut self, peer: Peer)
        ensures
            final(self)@ == old(self)@.remove(peer_key(peer)),
    {
        let key: (u8, u128, u16) = (peer.family, peer.bits, peer.port);
        let _gone = table_remove(&mut self.connections, &key);
    }

    /// Forgets the sessions whose connection is among `closed`.
    pub fn reap(&mut self, closed: &Vec<u128>)
        ensures
            final(self)@ == reaped(old(self)@, closed@),
    {
        let keep = |c: &u128| -> (k: bool)
            ensures
                k == !closed@.contains(*c),
            { !ids_contain(closed, *c) };
        table_retain(&mut self.connections, keep);
        assert(self@ =~= reaped(old(self)@, closed@));
    }
}

/// Whether `list` holds `id`.
fn ids_contain(list: &Vec<u128>, id: u128) -> (r: bool)
    ensures
        r == list@.contains(id),
{
    let mut i: usize = 0;
    while i < list.len()
        invariant
            i <= list@.len(),
            forall|j: int| 0 <= j < i ==> list@[j] != id,
        decreases list@.len() - i,
    {
        if list[i] == id {
            return true;
        }
        i = i + 1;
    }
    false
}

// ── bridging a session ───────────────────────────────────────────────────────

/// How far a session has come.
#[derive(Debug, Clone, Copy, PartialEq, Eq, Structural)]
pub enum UdpState {
    /// It waits for whether the tunnel's session could be told.
    AwaitTold,
    /// It waits for the data stream.
    AwaitStream,
    /// It passes datagrams on, so many bytes until now.
    Bridging { total: u64 },
    Ended,
}

/// What happened to a session.
#[derive(Debug, Clone, Copy, PartialEq, Eq, Structural)]
pub enum UdpEvent {
    Told(bool),
    Stream(StreamEnd),
    /// A datagram of the peer is there.
    FromPeer,
    /// The peer's datagrams have ended.
    PeerEnded,
    /// A datagram came off the stream.
    FromStream,
    /// The stream failed, or what came off it was no datagram.
    StreamFailed,
    /// A datagram of so many bytes was passed on, or could not be.
    Passed { bytes: u64, ok: bool },
    /// Nothing happened for too long.
    Idle,
}

/// What to do about it.
#[derive(Debug, Clone, Copy, PartialEq, Eq, Structural)]
pub enum UdpStep {
    Wait,
    /// Wait for the data stream.
    AwaitStream,
    /// Start passing datagrams on.
    Bridge,
    /// Put the peer's datagram on the stream.
    ToStream,
    /// Send the datagram to the peer.
    ToPeer,
    End,
}

/// What happens to a session of the connection `conn_id`: how far it has come, and what is to
/// be done. What it carried is counted once, when it ends.
pub open spec fn udp_stepped(state: UdpState, event: UdpEvent) -> (UdpState, UdpStep) {
    match (state, event) {
        (UdpState::AwaitTold, UdpEvent::Told(told)) => if told {
            (UdpState::AwaitStream, UdpStep::AwaitStream)
        } else {
            (UdpState::Ended, UdpStep::End)
        },
        (UdpState::AwaitStream, UdpEvent::Stream(end)) => if end is Arrived {
            (UdpState::Bridging { total: 0 }, UdpStep::Bridge)
        } else {
            (UdpState::Ended, UdpStep::End)
        },
        (UdpState::Bridging { total }, UdpEvent::FromPeer) => (state, UdpStep::ToStream),
        (UdpState::Bridging { total }, UdpEvent::FromStream) => (state, UdpStep::ToPeer),
        (UdpState::Bridging { total }, UdpEvent::Passed { bytes, ok }) => if ok {
            (UdpState::Bridging { total: total.wrapping_add(bytes) }, UdpStep::Wait)
        } else {
            (UdpState::Ended, UdpStep::End)
        },
        (UdpState::Bridging { total }, UdpEvent::PeerEnded) => (UdpState::Ended, UdpStep::End),
        (UdpState::Bridging { total }, UdpEvent::StreamFailed) => (UdpState::Ended, UdpStep::End),
        (UdpState::Bridging { total }, UdpEvent::Idle) => (UdpState::Ended, UdpStep::End),
        _ => (state, UdpStep::Wait),
    }
}

/// What happens to the core with it: a connection that did not come about is given up, and
/// what a session carried is counted for its tunnel.
pub open spec fn udp_settled(
    c: CoreModel,
    state: UdpState,
    event: UdpEvent,
    conn_id: u128,
    tunnel_id: u128,
) -> CoreModel {
    match (state, event) {
        (UdpState::AwaitTold, UdpEvent::Told(false)) => CoreModel {
            pending: c.pending.remove(conn_id),
            ..c
        },
        (UdpState::AwaitStream, UdpEvent::Stream(StreamEnd::TimedOut)) => CoreModel {
            pending: c.pending.remove(conn_id),
            ..c
        },
        (UdpState::Bridging { total }, _) => if udp_stepped(state, event).0 is Ended {
            bytes_added(c, tunnel_id, total)
        } else {
            c
        },
        _ => c,
    }
}

/// One step of a session.
pub fn udp_session_step(
    core: &mut TunnelCore,
    state: UdpState,
    event: UdpEvent,
    conn_id: &u128,
    tunnel_id: &u128,
) -> (r: (UdpState, UdpStep))
    ensures
        r == udp_stepped(state, event),
        final(core)@ == udp_settled(old(core)@, state, event, *conn_id, *tunnel_id),
{
    match (state, event) {
        (UdpState::AwaitTold, UdpEvent::Told(told)) => {
            if told {
                (UdpState::AwaitStream, UdpStep::AwaitStream)
            } else {
                core.cancel_pending_conn(conn_id);
                (UdpState::Ended, UdpStep::End)
            }
        },
        (UdpState::AwaitStream, UdpEvent::Stream(end)) => {
            match end {
                StreamEnd::Arrived => (UdpState::Bridging { total: 0 }, UdpStep::Bridge),
                StreamEnd::Dropped => (UdpState::Ended, UdpStep::End),
                StreamEnd::TimedOut => {
                    core.cancel_pending_conn(conn_id);
                    (UdpState::Ended, UdpStep::End)
                },
            }
        },
        (UdpState::Bridging { total }, UdpEvent::FromPeer) => (state, UdpStep::ToStream),
        (UdpState::Bridging { total }, UdpEvent::FromStream) => (state, UdpStep::ToPeer),
        (UdpState::Bridging { total }, UdpEvent::Passed { bytes, ok }) => {
            if ok {
                (UdpState::Bridging { total: total.wrapping_add(bytes) }, UdpStep::Wait)
            } else {
                core.add_bytes_proxied(tunnel_id, total);
                (UdpState::Ended, UdpStep::End)
            }
        },
        (UdpState::Bridging { total }, UdpEvent::PeerEnded) => {
            core.add_bytes_proxied(tunnel_id, total);
            (UdpState::Ended, UdpStep::End)
        },
        (UdpState::Bridging { total }, UdpEvent::StreamFailed) => {
            core.add_bytes_proxied(tunnel_id, total);
            (UdpState::Ended, UdpStep::End)
        },
        (UdpState::Bridging { total }, UdpEvent::Idle) => {
            core.add_bytes_proxied(tunnel_id, total);
            (UdpState::Ended, UdpStep::End)
        },
        _ => (state, UdpStep::Wait),
    }
}

// ── laws ─────────────────────────────────────────────────────────────────────

/// After the edge has caught up, the listeners are those of the ports in use, whatever was
/// missed: stopping and starting what is returned leads from the one to the other.
pub proof fn law_resync_reaches_ports_in_use(
    listening: Set<u16>,
    in_use: Set<u16>,
)
    ensures
        listening.difference(listening.difference(in_use)).union(in_use.difference(listening))
            == in_use,
{
    assert(listening.difference(listening.difference(in_use)).union(in_use.difference(listening))
        =~= in_use);
}

/// A core that is consistent stays so when a session is opened, and at every step of it.
pub proof fn law_udp_sessions_keep_the_core_consistent(
    c: CoreModel,
    state: UdpState,
    event: UdpEvent,
    conn_id: u128,
    tunnel_id: u128,
)
    requires
        consistent(c),
    ensures
        consistent(request_counted(c, tunnel_id)),
        consistent(udp_settled(c, state, event, conn_id, tunnel_id)),
{
    law_request_count_consistent(c, tunnel_id);
    law_waiting_connections_consistent(c, c.pending.remove(conn_id));
    if let UdpState::Bridging { total } = state {
        law_bytes_consistent(c, tunnel_id, total);
    }
}

/// A datagram of a new peer gets a permit asked for exactly if its address may send it and
/// some member can serve the port; and the tunnel that is asked is such a member.
pub proof fn law_datagrams_reach_a_member(
    c: CoreModel,
    sessions: Map<(u8, u128, u16), u128>,
    port: u16,
    peer: Peer,
    allowed: bool,
    step: DatagramStep,
)
    requires
        consistent(c),
        !sessions.contains_key(peer_key(peer)),
        datagram_handled(c, sessions, port, peer, allowed, step),
    ensures
        step is TakePermit <==> allowed && is_served(c, KeyModel::Udp(port)),
        step matches DatagramStep::TakePermit(info) ==> can_serve(
            c,
            KeyModel::Udp(port),
            info@.tunnel_id,
        ),
{
    if allowed {
        let key = KeyModel::Udp(port);
        let r = choose|r: Option<TunnelInfo>| #[trigger]
            picked(c, key, r) && step == match r {
                Some(info) => DatagramStep::TakePermit(info),
                None => DatagramStep::Drop,
            };
        law_picks_can_serve(c, key, r);
    }
}

/// What a session carried counts once, when it ends, and only then.
pub proof fn law_udp_bytes_count_once(
    c: CoreModel,
    total: u64,
    event: UdpEvent,
    conn_id: u128,
    tunnel_id: u128,
)
    ensures
        ({
            let state = UdpState::Bridging { total };
            let after = udp_settled(c, state, event, conn_id, tunnel_id);
            let next = udp_stepped(state, event).0;
            &&& next is Ended ==> after == bytes_added(c, tunnel_id, total) && forall|later: UdpEvent|
                #[trigger] udp_settled(after, next, later, conn_id, tunnel_id) == after
            &&& next !is Ended ==> after == c
        }),
{
}

} // verus!
