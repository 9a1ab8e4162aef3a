//! Tunnels, the groups that share a route, and the sessions that own them.
use crate::protocol::{opt_health, HealthCheckSpec, HealthSpecModel, TunnelProtocol};
use crate::text::{opt_text, opt_text_clone};
use std::collections::VecDeque;
use vstd::prelude::*;
use vstd::string::*;

verus! {

/// How many recent health transitions a member keeps.
pub const HEALTH_EVENT_RING_SIZE: usize = 50;

/// One health transition of a member.
#[derive(Debug)]
pub struct HealthEvent {
    /// When the bit flipped: nanoseconds since the Unix epoch.
    pub at: u64,
    pub healthy: bool,
    pub reason: String,
}

/// The view of a [`HealthEvent`].
#[verifier::ext_equal]
pub struct HealthEventModel {
    pub at: u64,
    pub healthy: bool,
    pub reason: Seq<char>,
}

impl View for HealthEvent {
    type V = HealthEventModel;

    open spec fn view(&self) -> HealthEventModel {
        HealthEventModel { at: self.at, healthy: self.healthy, reason: self.reason@ }
    }
}

impl Clone for HealthEvent {
    fn clone(&self) -> (r: Self)
        ensures
            r@ == self@,
    {
        HealthEvent { at: self.at, healthy: self.healthy, reason: self.reason.clone() }
    }
}

/// The views of a list of transitions, in order.
pub open spec fn health_events(list: Seq<HealthEvent>) -> Seq<HealthEventModel> {
    list.map_values(|e: HealthEvent| e@)
}

/// Tells the TCP edge that a port came into use or went out of it.
#[derive(Debug, Clone, Copy, PartialEq, Eq, Structural)]
pub enum TcpTunnelEvent {
    Registered { tunnel_id: u128, port: u16 },
    Unregistered { port: u16 },
}

/// Tells the UDP edge that a port came into use or went out of it.
#[derive(Debug, Clone, Copy, PartialEq, Eq, Structural)]
pub enum UdpTunnelEvent {
    Registered { tunnel_id: u128, port: u16 },
    Unregistered { port: u16 },
}

/// What the router asks of a session's handler.
#[derive(Debug)]
pub enum ControlMessage {
    /// A public connection has arrived and waits to be proxied.
    NewConnection { conn_id: u128, client_addr: String, protocol: TunnelProtocol },
    /// Close the session.
    Shutdown,
}

/// A registered tunnel.
#[derive(Debug)]
pub struct TunnelInfo {
    pub session_id: u128,
    pub tunnel_id: u128,
    pub protocol: TunnelProtocol,
    /// Present for HTTP and HTTPS tunnels.
    pub subdomain: Option<String>,
    /// Present for TCP and UDP tunnels.
    pub assigned_port: Option<u16>,
    /// Nanoseconds on the router's monotonic clock.
    pub created_at: u64,
    /// How many requests or connections were proxied.
    pub request_count: u64,
    /// How many bytes were proxied, both ways together.
    pub bytes_proxied: u64,
    /// How many connections may be proxied at once.
    pub max_connections: usize,
}

/// The view of a [`TunnelInfo`].
#[verifier::ext_equal]
pub struct TunnelModel {
    pub session_id: u128,
    pub tunnel_id: u128,
    pub protocol: TunnelProtocol,
    pub subdomain: Option<Seq<char>>,
    pub assigned_port: Option<u16>,
    pub created_at: u64,
    pub request_count: u64,
    pub bytes_proxied: u64,
    pub max_connections: usize,
}

impl View for TunnelInfo {
    type V = TunnelModel;

    open spec fn view(&self) -> TunnelModel {
        TunnelModel {
            session_id: self.session_id,
            tunnel_id: self.tunnel_id,
            protocol: self.protocol,
            subdomain: opt_text(self.subdomain),
            assigned_port: self.assigned_port,
            created_at: self.created_at,
            request_count: self.request_count,
            bytes_proxied: self.bytes_proxied,
            max_connections: self.max_connections,
        }
    }
}

impl Clone for TunnelInfo {
    fn clone(&self) -> (r: Self)
        ensures
            r@ == self@,
    {
        TunnelInfo {
            session_id: self.session_id,
            tunnel_id: self.tunnel_id,
            protocol: self.protocol,
            subdomain: opt_text_clone(&self.subdomain),
            assigned_port: self.assigned_port,
            created_at: self.created_at,
            request_count: self.request_count,
            bytes_proxied: self.bytes_proxied,
            max_connections: self.max_connections,
        }
    }
}

/// `info` after one more dispatched request.
pub open spec fn info_dispatched(info: TunnelModel) -> TunnelModel {
    TunnelModel { request_count: info.request_count.wrapping_add(1), ..info }
}

/// `info` after `n` more proxied bytes.
pub open spec fn info_proxied(info: TunnelModel, n: u64) -> TunnelModel {
    TunnelModel { bytes_proxied: info.bytes_proxied.wrapping_add(n), ..info }
}

// ── group members ────────────────────────────────────────────────────────────

/// One backend of a group.
///
/// A member without a health check is healthy from the start; one with a check becomes
/// healthy with its first good report.
#[derive(Debug)]
pub struct GroupMember {
    pub info: TunnelInfo,
    pub healthy: bool,
    pub health_spec: Option<HealthCheckSpec>,
    /// How many bad reports came in a row.
    pub consecutive_failures: u32,
    /// How many bad reports came since the member registered.
    pub total_health_failures: u64,
    /// The latest transitions, oldest first.
    pub health_events: VecDeque<HealthEvent>,
}

/// The view of a [`GroupMember`].
#[verifier::ext_equal]
pub struct MemberModel {
    pub info: TunnelModel,
    pub healthy: bool,
    pub health_spec: Option<HealthSpecModel>,
    pub consecutive_failures: u32,
    pub total_health_failures: u64,
    pub health_events: Seq<HealthEventModel>,
}

impl View for GroupMember {
    type V = MemberModel;

    open spec fn view(&self) -> MemberModel {
        MemberModel {
            info: self.info@,
            healthy: self.healthy,
            health_spec: opt_health(self.health_spec),
            consecutive_failures: self.consecutive_failures,
            total_health_failures: self.total_health_failures,
            health_events: health_events(self.health_events@),
        }
    }
}

/// A member that is trusted from the start.
pub open spec fn trusted_member(info: TunnelModel) -> MemberModel {
    MemberModel {
        info,
        healthy: true,
        health_spec: None,
        consecutive_failures: 0,
        total_health_failures: 0,
        health_events: Seq::empty(),
    }
}

/// A member that registered at `at` with this health check, or with none.
pub open spec fn checked_member(
    info: TunnelModel,
    spec_: Option<HealthSpecModel>,
    at: u64,
) -> MemberModel {
    MemberModel {
        info,
        healthy: spec_ is None,
        health_spec: spec_,
        consecutive_failures: 0,
        total_health_failures: 0,
        health_events: seq![
            HealthEventModel {
                at,
                healthy: spec_ is None,
                reason: "registered"@,
            },
        ],
    }
}

/// `events` after one more transition: the oldest gives way once the ring is full.
pub open spec fn ring_push(
    events: Seq<HealthEventModel>,
    e: HealthEventModel,
) -> Seq<HealthEventModel> {
    if events.len() >= HEALTH_EVENT_RING_SIZE {
        events.drop_first().push(e)
    } else {
        events.push(e)
    }
}

/// `m` after a good report at `at`.
pub open spec fn member_recovered(m: MemberModel, at: u64) -> MemberModel {
    MemberModel {
        healthy: true,
        consecutive_failures: 0,
        health_events: if m.healthy {
            m.health_events
        } else {
            ring_push(
                m.health_events,
                HealthEventModel { at, healthy: true, reason: "recovered"@ },
            )
        },
        ..m
    }
}

/// `m` after a bad report at `at`.
pub open spec fn member_failed(m: MemberModel, reason: Seq<char>, at: u64) -> MemberModel {
    MemberModel {
        healthy: false,
        consecutive_failures: m.consecutive_failures.wrapping_add(1),
        total_health_failures: m.total_health_failures.wrapping_add(1),
        health_events: if m.healthy {
            ring_push(m.health_events, HealthEventModel { at, healthy: false, reason })
        } else {
            m.health_events
        },
        ..m
    }
}

impl GroupMember {
    /// A member without a health check and without a history.
    pub fn healthy_with(info: TunnelInfo) -> (r: Self)
        ensures
            r@ == trusted_member(info@),
    {
        let r = GroupMember {
            info,
            healthy: true,
            health_spec: None,
            consecutive_failures: 0,
            total_health_failures: 0,
            health_events: VecDeque::new(),
        };
        assert(r@ =~= trusted_member(info@));
        r
    }

    /// A member that registers at `at`, with a health check or without. With a check it
    /// starts unhealthy, and its history starts with that.
    pub fn with_health_spec(info: TunnelInfo, health_spec: Option<HealthCheckSpec>, at: u64) -> (r:
        Self)
        ensures
            r@ == checked_member(info@, opt_health(health_spec), at),
    {
        let trusted: bool = health_spec.is_none();
        let mut events: VecDeque<HealthEvent> = VecDeque::new();
        events.push_back(HealthEvent { at, healthy: trusted, reason: "registered".to_owned() });
        let r = GroupMember {
            info,
            healthy: trusted,
            health_spec,
            consecutive_failures: 0,
            total_health_failures: 0,
            health_events: events,
        };
        assert(r@ =~= checked_member(info@, opt_health(health_spec), at));
        r
    }

    /// Appends a transition to the history; the oldest one goes when the ring is full.
    pub fn record_health_event(&mut self, healthy: bool, reason: &str, at: u64)
        ensures
            final(self)@ == (MemberModel {
                health_events: ring_push(
                    old(self)@.health_events,
                    HealthEventModel { at, healthy, reason: reason@ },
                ),
                ..old(self)@
            }),
    {
        if self.health_events.len() >= HEALTH_EVENT_RING_SIZE {
            let _oldest = self.health_events.pop_front();
        }
        self.health_events.push_back(HealthEvent { at, healthy, reason: reason.to_owned() });
        assert(self@.health_events =~= ring_push(
            old(self)@.health_events,
            HealthEventModel { at, healthy, reason: reason@ },
        ));
    }

    /// The history, oldest transition first.
    pub fn health_events_snapshot(&self) -> (r: Vec<HealthEvent>)
        ensures
            health_events(r@) == self@.health_events,
    {
        let mut out: Vec<HealthEvent> = Vec::new();
        let mut i: usize = 0;
        while i < self.health_events.len()
            invariant
                i <= self.health_events@.len(),
                health_events(out@) == self@.health_events.take(i as int),
            decreases self.health_events@.len() - i,
        {
            let e: HealthEvent = self.health_events[i].clone();
            assert(self@.health_events.take(i + 1) =~= self@.health_events.take(i as int).push(e@));
            out.push(e);
            assert(health_events(out@) =~= self@.health_events.take(i + 1));
            i = i + 1;
        }
        assert(self@.health_events.take(i as int) =~= self@.health_events);
        out
    }

    /// A good report: marks the member healthy. Returns whether it was not before.
    pub fn mark_healthy(&mut self, at: u64) -> (flipped: bool)
        ensures
            final(self)@ == member_recovered(old(self)@, at),
            flipped == !old(self)@.healthy,
    {
        let was_healthy: bool = self.healthy;
        self.healthy = true;
        self.consecutive_failures = 0;
        if !was_healthy {
            self.record_health_event(true, "recovered", at);
        }
        assert(self@ =~= member_recovered(old(self)@, at));
        !was_healthy
    }

    /// A bad report: marks the member unhealthy. Returns whether it was healthy before.
    pub fn mark_unhealthy(&mut self, reason: &str, at: u64) -> (flipped: bool)
        ensures
            final(self)@ == member_failed(old(self)@, reason@, at),
            flipped == old(self)@.healthy,
    {
        let was_healthy: bool = self.healthy;
        self.healthy = false;
        self.consecutive_failures = self.consecutive_failures.wrapping_add(1);
        self.total_health_failures = self.total_health_failures.wrapping_add(1);
        if was_healthy {
            self.record_health_event(false, reason, at);
        }
        assert(self@ =~= member_failed(old(self)@, reason@, at));
        was_healthy
    }
}

} // verus!
