//! The words of the control protocol that the server's logic reads.
use crate::text::{opt_text, opt_text_clone, texts};
use vstd::prelude::*;

verus! {

/// What a tunnel carries.
#[derive(Debug, Clone, Copy, PartialEq, Eq, Structural)]
pub enum TunnelProtocol {
    Http,
    Https,
    Tcp,
    Udp,
    P2p,
}

/// How a client probes its local service.
#[derive(Debug, Clone, Copy, PartialEq, Eq, Structural)]
pub enum HealthCheckKind {
    Tcp,
    Http,
}

/// The health check that a client asked for when it registered a tunnel.
#[derive(Debug)]
pub struct HealthCheckSpec {
    pub kind: HealthCheckKind,
    pub interval_secs: u32,
    pub timeout_secs: u32,
    pub max_failed: u32,
    pub http_path: Option<String>,
    pub http_expect_2xx: bool,
    /// Where the tenant wants to hear that a group has no healthy member left.
    pub alert_webhook_url: Option<String>,
}

/// The view of a [`HealthCheckSpec`].
#[verifier::ext_equal]
pub struct HealthSpecModel {
    pub kind: HealthCheckKind,
    pub interval_secs: u32,
    pub timeout_secs: u32,
    pub max_failed: u32,
    pub http_path: Option<Seq<char>>,
    pub http_expect_2xx: bool,
    pub alert_webhook_url: Option<Seq<char>>,
}

impl View for HealthCheckSpec {
    type V = HealthSpecModel;

    open spec fn view(&self) -> HealthSpecModel {
        HealthSpecModel {
            kind: self.kind,
            interval_secs: self.interval_secs,
            timeout_secs: self.timeout_secs,
            max_failed: self.max_failed,
            http_path: opt_text(self.http_path),
            http_expect_2xx: self.http_expect_2xx,
            alert_webhook_url: opt_text(self.alert_webhook_url),
        }
    }
}

impl Clone for HealthCheckSpec {
    fn clone(&self) -> (r: Self)
        ensures
            r@ == self@,
    {
        HealthCheckSpec {
            kind: self.kind,
            interval_secs: self.interval_secs,
            timeout_secs: self.timeout_secs,
            max_failed: self.max_failed,
            http_path: opt_text_clone(&self.http_path),
            http_expect_2xx: self.http_expect_2xx,
            alert_webhook_url: opt_text_clone(&self.alert_webhook_url),
        }
    }
}

/// The view of an optional health check.
pub open spec fn opt_health(h: Option<HealthCheckSpec>) -> Option<HealthSpecModel> {
    match h {
        Some(s) => Some(s@),
        None => None,
    }
}

/// A frame of the control connection.
#[derive(Debug)]
pub enum ControlFrame {
    Auth { token: String, client_version: String },
    AuthOk { session_id: u128, server_version: String },
    AuthError { message: String },
    RegisterTunnel(RegisterRequest),
    TunnelRegistered {
        request_id: String,
        tunnel_id: u128,
        public_url: String,
        assigned_port: Option<u16>,
        p2p_tunnel_name: Option<String>,
    },
    TunnelError { request_id: String, message: String },
    UnregisterTunnel { tunnel_id: u128 },
    NewConnection { conn_id: u128, client_addr: String, protocol: TunnelProtocol },
    Ping { timestamp: u64 },
    Pong { timestamp: u64 },
    P2pConnect { request_id: String, target_tunnel_name: String, secret_hash: String },
    P2pConnected { request_id: String, conn_id: u128 },
    P2pError { request_id: String, message: String },
    P2pPunchInstructions {
        conn_id: u128,
        peer_addrs: Vec<String>,
        strategy: String,
        punch_timeout_ms: u64,
    },
    P2pNatInfo {
        tunnel_id: u128,
        nat_type: String,
        mapped_addrs: Vec<String>,
        local_addrs: Vec<String>,
    },
    P2pPunchResult { conn_id: u128, success: bool, direct_addr: Option<String> },
    P2pMetrics { tunnel_id: u128, bytes_sent: u64, bytes_received: u64 },
    TunnelHealthy { tunnel_id: u128 },
    TunnelUnhealthy { tunnel_id: u128, reason: String },
}

/// A client's request for a tunnel.
#[derive(Debug)]
pub struct RegisterRequest {
    pub request_id: String,
    pub protocol: TunnelProtocol,
    pub subdomain: Option<String>,
    /// The client's local service; the server has no use for it.
    pub local_addr: String,
    pub p2p_secret_hash: Option<String>,
    pub p2p_name: Option<String>,
    /// The name of the pool that the client wants its tunnel in.
    pub group: Option<String>,
    /// The hash of the pool's key.
    pub group_key_hash: Option<String>,
    pub health_check: Option<HealthCheckSpec>,
}

/// The view of a [`RegisterRequest`].
#[verifier::ext_equal]
pub struct RequestModel {
    pub request_id: Seq<char>,
    pub protocol: TunnelProtocol,
    pub subdomain: Option<Seq<char>>,
    pub local_addr: Seq<char>,
    pub p2p_secret_hash: Option<Seq<char>>,
    pub p2p_name: Option<Seq<char>>,
    pub group: Option<Seq<char>>,
    pub group_key_hash: Option<Seq<char>>,
    pub health_check: Option<HealthSpecModel>,
}

impl View for RegisterRequest {
    type V = RequestModel;

    open spec fn view(&self) -> RequestModel {
        RequestModel {
            request_id: self.request_id@,
            protocol: self.protocol,
            subdomain: opt_text(self.subdomain),
            local_addr: self.local_addr@,
            p2p_secret_hash: opt_text(self.p2p_secret_hash),
            p2p_name: opt_text(self.p2p_name),
            group: opt_text(self.group),
            group_key_hash: opt_text(self.group_key_hash),
            health_check: opt_health(self.health_check),
        }
    }
}

/// The view of a [`ControlFrame`].
#[verifier::ext_equal]
pub enum FrameModel {
    Auth { token: Seq<char>, client_version: Seq<char> },
    AuthOk { session_id: u128, server_version: Seq<char> },
    AuthError { message: Seq<char> },
    RegisterTunnel(RequestModel),
    TunnelRegistered {
        request_id: Seq<char>,
        tunnel_id: u128,
        public_url: Seq<char>,
        assigned_port: Option<u16>,
        p2p_tunnel_name: Option<Seq<char>>,
    },
    TunnelError { request_id: Seq<char>, message: Seq<char> },
    UnregisterTunnel { tunnel_id: u128 },
    NewConnection { conn_id: u128, client_addr: Seq<char>, protocol: TunnelProtocol },
    Ping { timestamp: u64 },
    Pong { timestamp: u64 },
    P2pConnect { request_id: Seq<char>, target_tunnel_name: Seq<char>, secret_hash: Seq<char> },
    P2pConnected { request_id: Seq<char>, conn_id: u128 },
    P2pError { request_id: Seq<char>, message: Seq<char> },
    P2pPunchInstructions {
        conn_id: u128,
        peer_addrs: Seq<Seq<char>>,
        strategy: Seq<char>,
        punch_timeout_ms: u64,
    },
    P2pNatInfo {
        tunnel_id: u128,
        nat_type: Seq<char>,
        mapped_addrs: Seq<Seq<char>>,
        local_addrs: Seq<Seq<char>>,
    },
    P2pPunchResult { conn_id: u128, success: bool, direct_addr: Option<Seq<char>> },
    P2pMetrics { tunnel_id: u128, bytes_sent: u64, bytes_received: u64 },
    TunnelHealthy { tunnel_id: u128 },
    TunnelUnhealthy { tunnel_id: u128, reason: Seq<char> },
}

impl View for ControlFrame {
    type V = FrameModel;

    open spec fn view(&self) -> FrameModel {
        match self {
            ControlFrame::Auth { token, client_version } => FrameModel::Auth {
                token: token@,
                client_version: client_version@,
            },
            ControlFrame::AuthOk { session_id, server_version } => FrameModel::AuthOk {
                session_id: *session_id,
                server_version: server_version@,
            },
            ControlFrame::AuthError { message } => FrameModel::AuthError { message: message@ },
            ControlFrame::RegisterTunnel(request) => FrameModel::RegisterTunnel(request@),
            ControlFrame::TunnelRegistered {
                request_id,
                tunnel_id,
                public_url,
                assigned_port,
                p2p_tunnel_name,
            } => FrameModel::TunnelRegistered {
                request_id: request_id@,
                tunnel_id: *tunnel_id,
                public_url: public_url@,
                assigned_port: *assigned_port,
                p2p_tunnel_name: opt_text(*p2p_tunnel_name),
            },
            ControlFrame::TunnelError { request_id, message } => FrameModel::TunnelError {
                request_id: request_id@,
                message: message@,
            },
            ControlFrame::UnregisterTunnel { tunnel_id } => FrameModel::UnregisterTunnel {
                tunnel_id: *tunnel_id,
            },
            ControlFrame::NewConnection {
                conn_id,
                client_addr,
                protocol,
            } => FrameModel::NewConnection {
                conn_id: *conn_id,
                client_addr: client_addr@,
                protocol: *protocol,
            },
            ControlFrame::Ping { timestamp } => FrameModel::Ping { timestamp: *timestamp },
            ControlFrame::Pong { timestamp } => FrameModel::Pong { timestamp: *timestamp },
            ControlFrame::P2pConnect {
                request_id,
                target_tunnel_name,
                secret_hash,
            } => FrameModel::P2pConnect {
                request_id: request_id@,
                target_tunnel_name: target_tunnel_name@,
                secret_hash: secret_hash@,
            },
            ControlFrame::P2pConnected { request_id, conn_id } => FrameModel::P2pConnected {
                request_id: request_id@,
                conn_id: *conn_id,
            },
            ControlFrame::P2pError { request_id, message } => FrameModel::P2pError {
                request_id: request_id@,
                message: message@,
            },
            ControlFrame::P2pPunchInstructions {
                conn_id,
                peer_addrs,
                strategy,
                punch_timeout_ms,
            } => FrameModel::P2pPunchInstructions {
                conn_id: *conn_id,
                peer_addrs: texts(peer_addrs@),
                strategy: strategy@,
                punch_timeout_ms: *punch_timeout_ms,
            },
            ControlFrame::P2pNatInfo {
                tunnel_id,
                nat_type,
                mapped_addrs,
                local_addrs,
            } => FrameModel::P2pNatInfo {
                tunnel_id: *tunnel_id,
                nat_type: nat_type@,
                mapped_addrs: texts(mapped_addrs@),
                local_addrs: texts(local_addrs@),
            },
            ControlFrame::P2pPunchResult {
                conn_id,
                success,
                direct_addr,
            } => FrameModel::P2pPunchResult {
                conn_id: *conn_id,
                success: *success,
                direct_addr: opt_text(*direct_addr),
            },
            ControlFrame::P2pMetrics {
                tunnel_id,
                bytes_sent,
                bytes_received,
            } => FrameModel::P2pMetrics {
                tunnel_id: *tunnel_id,
                bytes_sent: *bytes_sent,
                bytes_received: *bytes_received,
            },
            ControlFrame::TunnelHealthy { tunnel_id } => FrameModel::TunnelHealthy {
                tunnel_id: *tunnel_id,
            },
            ControlFrame::TunnelUnhealthy { tunnel_id, reason } => FrameModel::TunnelUnhealthy {
                tunnel_id: *tunnel_id,
                reason: reason@,
            },
        }
    }
}

} // verus!
