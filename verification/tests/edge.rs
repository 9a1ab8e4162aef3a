use hyper::header::HeaderValue;
use hyper::HeaderMap;
use rustunnel_server::clock::Clock;
use rustunnel_server::exchange::{
    captured_upgrade, request_headers, request_path, try_request_headers, upgrade_ended, Exchange,
};
use rustunnel_server::headers::{
    content_length_header, host_header, room_for, ForwardScheme, MAX_FIELD_NAMES,
};
use rustunnel_server::http::{
    err_response, gateway_error, plain_http_request, redirect_to_https, sanitize_host,
    PlainHttpMode, PlainStep,
};
use rustunnel_server::protocol::{ControlFrame, TunnelProtocol};
use rustunnel_server::proxy::{
    proxy_step, proxy_step_with, ProxyAction, ProxyEvent, ProxyRequest, ProxyState, StreamEnd,
    UpstreamEnd,
};
use rustunnel_server::router::TunnelCore;
use rustunnel_server::session_loop::{
    driver_step, find_pipe, main_loop_step, stream_header, BeatEvent, BeatStep, BridgeEvent,
    BridgeStep, DriverEvent, DriverStep, Heartbeat, Keepalive, LoopEvent, LoopStep, PipeStep,
    DATA_PING_INTERVAL, DATA_PONG_DEADLINE, PING_INTERVAL, PIPE_TRIES, PONG_DEADLINE,
};
use rustunnel_server::tunnel::{ControlMessage, UdpTunnelEvent};
use rustunnel_server::udp::{
    frame_datagram, frame_length, udp_session_step, DatagramStep, EdgeEvent, EdgeStep, Listeners,
    Peer, UdpEvent, UdpSessions, UdpState, UdpStep, MAX_DATAGRAM_SIZE,
};

fn make_core() -> TunnelCore {
    TunnelCore::new([20000, 20009], [21000, 21003], 5, 7, 1000)
}

fn with_tunnel(core: &mut TunnelCore, label: &str) -> (u128, u128) {
    let sid = core.register_session("1.1.1.1:1".to_string(), "t".to_string(), None, None);
    let (tid, _) = core
        .register_http_tunnel(&sid, Some(label.to_string()), TunnelProtocol::Http, None)
        .unwrap();
    (sid, tid)
}

fn request(host: Option<&str>, length: Option<&str>, websocket: bool) -> ProxyRequest {
    ProxyRequest {
        host: host.map(|h| h.to_string()),
        content_length: length.map(|l| l.to_string()),
        websocket,
        domain: "tunnel.test".to_string(),
        max_body: 1000,
    }
}

fn answer(action: ProxyAction) -> (u16, String) {
    match action {
        ProxyAction::Answer(r) => (r.status, r.body),
        other => panic!("{other:?}"),
    }
}

// ── proxying ─────────────────────────────────────────────────────────────────

#[test]
fn a_request_goes_through_every_limit_to_the_service() {
    let mut core = make_core();
    let (sid, tid) = with_tunnel(&mut core, "app");
    let req = request(Some("app.tunnel.test:443"), Some("120"), false);
    let (state, action) = proxy_step(&mut core, &req, ProxyState::AwaitIp, ProxyEvent::Ip(true));
    assert!(matches!(action, ProxyAction::CheckRate { tunnel_id } if tunnel_id == tid));
    let (state, action) = proxy_step(&mut core, &req, state, ProxyEvent::Rate(true));
    assert!(matches!(action, ProxyAction::TakePermit { max_connections: 7, .. }));
    assert_eq!(core.get_tunnel_request_count(&tid), 0, "nothing is let through yet");
    let (state, action) = proxy_step_with(&mut core, &req, state, ProxyEvent::Permit(true), 55);
    assert_eq!(core.get_tunnel_request_count(&tid), 1);
    assert!(matches!(action, ProxyAction::TellSession { session_id, conn_id: 55 } if session_id == sid));
    assert!(core.pending_conns.contains_key(&55));
    let (state, action) = proxy_step(&mut core, &req, state, ProxyEvent::Told(true));
    assert!(matches!(action, ProxyAction::AwaitStream { conn_id: 55 }));
    let (state, action) = proxy_step(&mut core, &req, state, ProxyEvent::Stream(StreamEnd::Arrived));
    assert!(matches!(action, ProxyAction::Forward { request_bytes: 120, .. }));
    assert_eq!(core.get_tunnel_bytes_proxied(&tid), 120);
    assert_eq!(core.get_tunnel_request_count(&tid), 1);
    let (state, action) = proxy_step(&mut core, &req, state, ProxyEvent::Upstream(UpstreamEnd::Answered));
    assert_eq!(state, ProxyState::Settled);
    assert!(matches!(action, ProxyAction::PassOn));
    let (_, action) = proxy_step(&mut core, &req, state, ProxyEvent::Ip(true));
    assert!(matches!(action, ProxyAction::Ignore));
}

#[test]
fn requests_are_turned_away_with_a_reason() {
    let mut core = make_core();
    let (_, tid) = with_tunnel(&mut core, "app");
    let good = request(Some("app.tunnel.test"), None, false);
    let first = |core: &mut TunnelCore, req: &ProxyRequest, ok| {
        answer(proxy_step(core, req, ProxyState::AwaitIp, ProxyEvent::Ip(ok)).1)
    };
    assert_eq!(first(&mut core, &good, false), (429, "Rate limit exceeded".to_string()));
    assert_eq!(
        first(&mut core, &request(None, None, false), true),
        (400, "Missing Host header".to_string())
    );
    assert_eq!(
        first(&mut core, &request(Some("elsewhere.com"), None, false), true),
        (400, "Cannot parse subdomain".to_string())
    );
    let (status, body) = first(&mut core, &request(Some("none.tunnel.test"), None, false), true);
    assert_eq!(status, 502);
    assert!(body.contains("<strong>none</strong>"));
    let rate = ProxyState::AwaitRate { session_id: 1, tunnel_id: tid, max_connections: 7 };
    assert_eq!(
        answer(proxy_step(&mut core, &good, rate, ProxyEvent::Rate(false)).1),
        (429, "Tunnel rate limit exceeded".to_string())
    );
    let large = request(Some("app.tunnel.test"), Some("1001"), false);
    assert_eq!(
        answer(proxy_step(&mut core, &large, rate, ProxyEvent::Rate(true)).1),
        (413, "Request body too large".to_string())
    );
    for fits in ["1000", "many", "99999999999999999999999"] {
        let req = request(Some("app.tunnel.test"), Some(fits), false);
        let (_, action) = proxy_step(&mut core, &req, rate, ProxyEvent::Rate(true));
        assert!(matches!(action, ProxyAction::TakePermit { .. }), "{fits}");
    }
    let permit = ProxyState::AwaitPermit { session_id: 1, tunnel_id: tid };
    assert_eq!(
        answer(proxy_step(&mut core, &good, permit, ProxyEvent::Permit(false)).1),
        (503, "Too many concurrent connections".to_string())
    );
    core.register_pending_conn(5);
    let told = ProxyState::AwaitTold { tunnel_id: tid, conn_id: 5 };
    assert_eq!(
        answer(proxy_step(&mut core, &good, told, ProxyEvent::Told(false)).1),
        (502, "Tunnel session unavailable".to_string())
    );
    assert!(core.pending_conns.is_empty());
    core.register_pending_conn(6);
    let stream = ProxyState::AwaitStream { tunnel_id: tid, conn_id: 6 };
    assert_eq!(
        answer(proxy_step(&mut core, &good, stream, ProxyEvent::Stream(StreamEnd::Dropped)).1),
        (502, "Tunnel did not open a data stream".to_string())
    );
    assert_eq!(
        answer(proxy_step(&mut core, &good, stream, ProxyEvent::Stream(StreamEnd::TimedOut)).1),
        (504, "Tunnel stream timeout".to_string())
    );
    assert!(core.pending_conns.is_empty());
    assert_eq!(
        answer(proxy_step(&mut core, &good, ProxyState::AwaitUpstream, ProxyEvent::Upstream(UpstreamEnd::Failed)).1),
        (502, "Proxy error".to_string())
    );
    assert_eq!(
        answer(proxy_step(&mut core, &good, ProxyState::AwaitUpstream, ProxyEvent::Upstream(UpstreamEnd::TimedOut)).1),
        (504, "Proxy timeout".to_string())
    );
    assert_eq!(core.get_tunnel_request_count(&tid), 0, "what is turned away counts nowhere");
}

#[test]
fn websockets_are_upgraded_and_counted_at_their_end() {
    let mut core = make_core();
    let (_, tid) = with_tunnel(&mut core, "app");
    let req = request(Some("app.tunnel.test"), Some("9"), true);
    let stream = ProxyState::AwaitStream { tunnel_id: tid, conn_id: 6 };
    let (_, action) = proxy_step(&mut core, &req, stream, ProxyEvent::Stream(StreamEnd::Arrived));
    assert!(matches!(action, ProxyAction::Upgrade { tunnel_id } if tunnel_id == tid));
    assert_eq!(core.get_tunnel_bytes_proxied(&tid), 0);
    upgrade_ended(&mut core, &tid, 30, 12);
    assert_eq!(core.get_tunnel_bytes_proxied(&tid), 42);
    let e = captured_upgrade(6, 1_000_000, Clock { mono: 4_000_000, unix: 77 });
    assert_eq!((e.method.as_str(), e.status, e.duration_ms, e.captured_at), ("WS-UPGRADE", 101, 3, 77));
    assert_eq!((e.tunnel_id, e.path.as_str(), e.conn_id), (0, "", 6));
}

#[test]
fn an_answer_is_counted_as_it_goes_through() {
    let mut core = make_core();
    let (_, tid) = with_tunnel(&mut core, "app");
    let mut x = Exchange {
        conn_id: 3,
        tunnel_id: tid,
        tunnel_label: "app".to_string(),
        method: "GET".to_string(),
        path: request_path(None),
        status: 200,
        request_bytes: 5,
        response_bytes: 0,
        started: 2_000_000,
    };
    x.frame(&mut core, 10);
    x.frame(&mut core, 32);
    assert_eq!(core.get_tunnel_bytes_proxied(&tid), 42);
    let e = x.capture(Clock { mono: 9_999_999, unix: 1 });
    assert_eq!((e.response_bytes, e.request_bytes, e.status, e.duration_ms), (42, 5, 200, 7));
    assert_eq!((e.path.as_str(), e.tunnel_label.as_str(), e.tunnel_id), ("/", "app", tid));
    assert_eq!(request_path(Some("/a?b=c".to_string())), "/a?b=c");
}

#[test]
fn request_headers_are_made_ready_for_the_service() {
    let mut h = HeaderMap::new();
    h.insert("host", HeaderValue::from_static("app.tunnel.test"));
    h.insert("content-length", HeaderValue::from_static("12"));
    h.insert("upgrade", HeaderValue::from_static("websocket"));
    h.insert("x-signature", HeaderValue::from_static("sig"));
    assert_eq!(host_header(&h).as_deref(), Some("app.tunnel.test"));
    assert_eq!(content_length_header(&h).as_deref(), Some("12"));
    request_headers(&mut h, "9.9.9.9", ForwardScheme::Http, "app.tunnel.test");
    assert!(!h.contains_key("upgrade"));
    assert_eq!(h.get("x-signature").unwrap(), "sig");
    assert_eq!(h.get("host").unwrap(), "app.tunnel.test");
    assert_eq!(h.get("x-forwarded-for").unwrap(), "9.9.9.9");
    assert_eq!(h.get("x-forwarded-proto").unwrap(), "http");
    // A host that no field can hold is left out.
    let mut h = HeaderMap::new();
    request_headers(&mut h, "9.9.9.9", ForwardScheme::Https, "bad\nhost");
    assert!(!h.contains_key("x-forwarded-host"));
    // Text that is not all visible is not read as text.
    h.insert("host", HeaderValue::from_bytes(b"caf\xe9").unwrap());
    assert_eq!(host_header(&h), None);
}

// ── plain HTTP ───────────────────────────────────────────────────────────────

#[test]
fn plain_http_fallback_redirects_with_308() {
    let mut core = make_core();
    let (sid, tid) = with_tunnel(&mut core, "app");
    let host = Some("app.tunnel.test");
    assert_eq!(PlainHttpMode::default(), PlainHttpMode::Redirect);
    assert_eq!(plain_http_request(&core, PlainHttpMode::Redirect, host, "tunnel.test"), PlainStep::Redirect);
    assert_eq!(plain_http_request(&core, PlainHttpMode::Proxy, host, "tunnel.test"), PlainStep::Proxy);
    for other in [None, Some("none.tunnel.test"), Some("elsewhere.com")] {
        assert_eq!(plain_http_request(&core, PlainHttpMode::Proxy, other, "tunnel.test"), PlainStep::Redirect);
    }
    // To look counts nothing; to proxy counts once.
    assert_eq!(core.get_tunnel_request_count(&tid), 0);
    core.resolve_http("app").unwrap();
    assert_eq!(core.get_tunnel_request_count(&tid), 1);
    // Nobody healthy, or nobody there: redirect.
    core.set_tunnel_unhealthy(&tid, "down");
    assert_eq!(plain_http_request(&core, PlainHttpMode::Proxy, host, "tunnel.test"), PlainStep::Redirect);
    core.set_tunnel_healthy(&tid);
    assert_eq!(plain_http_request(&core, PlainHttpMode::Proxy, host, "tunnel.test"), PlainStep::Proxy);
    core.sessions.remove(&sid);
    assert_eq!(plain_http_request(&core, PlainHttpMode::Proxy, host, "tunnel.test"), PlainStep::Redirect);
    let r = redirect_to_https(Some("none.tunnel.test"), Some("/x"), "tunnel.test", 443);
    assert_eq!((r.status, r.location.as_str()), (308, "https://none.tunnel.test/x"));
}

#[test]
fn redirects_never_lead_to_what_is_no_host() {
    for bad in ["evil.com/@app", "a b", "", "host:port", "host:", "a:1:2", "ä.com", "user@host"] {
        assert_eq!(sanitize_host(bad), None, "{bad}");
        let r = redirect_to_https(Some(bad), None, "tunnel.test", 8443);
        assert_eq!(r.location, "https://tunnel.test:8443/");
    }
    assert_eq!(sanitize_host("a-b.c:80").as_deref(), Some("a-b.c:80"));
    assert_eq!(redirect_to_https(None, Some("/p?q"), "d.test", 443).location, "https://d.test/p?q");
}

#[test]
fn answers_of_the_edge_say_what_they_are() {
    let r = err_response(400, "no");
    assert_eq!((r.status, r.content_type.as_str(), r.body.as_str()), (400, "text/plain; charset=utf-8", "no"));
    let r = gateway_error("app");
    assert_eq!((r.status, r.content_type.as_str()), (502, "text/html; charset=utf-8"));
    assert!(r.body.starts_with("<!DOCTYPE html>") && r.body.contains("<strong>app</strong>"));
}

// ── UDP ──────────────────────────────────────────────────────────────────────

fn head(bytes: &[u8]) -> [u8; 4] {
    [bytes[0], bytes[1], bytes[2], bytes[3]]
}

#[test]
fn datagrams_come_off_a_stream_as_they_went_on() {
    let framed = frame_datagram(&vec![1, 2, 3]);
    assert_eq!(framed, vec![0, 0, 0, 3, 1, 2, 3]);
    assert_eq!(frame_length(head(&framed)), Some(3));
    let framed = frame_datagram(&vec![7; MAX_DATAGRAM_SIZE]);
    assert_eq!(&framed[..4], &[0, 0, 0xff, 0xff]);
    assert_eq!(frame_length(head(&framed)), Some(65535));
    assert_eq!(frame_length([0, 1, 0, 0]), None);
    assert_eq!(frame_length([0, 0, 0, 0]), Some(0));
}

#[test]
fn listeners_follow_the_tunnels() {
    let mut core = make_core();
    let sid = core.register_session("a".to_string(), "t".to_string(), None, None);
    let (t1, p1) = core.register_udp_tunnel(&sid).unwrap();
    let mut l = Listeners::start(&core);
    assert_eq!(l.ports, vec![p1]);
    core.take_udp_events();
    let (_, p2) = core.register_udp_tunnel(&sid).unwrap();
    for e in core.take_udp_events() {
        assert!(matches!(l.step(EdgeEvent::Tunnel(e)), EdgeStep::Start { port, replace: false } if port == p2));
    }
    let again = UdpTunnelEvent::Registered { tunnel_id: 9, port: p2 };
    assert!(matches!(l.step(EdgeEvent::Tunnel(again)), EdgeStep::Start { replace: true, .. }));
    core.remove_tunnel(&t1);
    assert!(matches!(l.step(EdgeEvent::Lagged), EdgeStep::Resync));
    let (stop, start) = l.resync(&core);
    assert_eq!((stop, start), (vec![p1], vec![]));
    let gone = UdpTunnelEvent::Unregistered { port: p2 };
    assert!(matches!(l.step(EdgeEvent::Tunnel(gone)), EdgeStep::Stop { port } if port == p2));
    assert!(matches!(l.step(EdgeEvent::Tunnel(gone)), EdgeStep::Wait));
    assert!(matches!(l.step(EdgeEvent::Closed), EdgeStep::End));
    let (stop, start) = l.resync(&core);
    assert_eq!((stop, start), (vec![], vec![p2]));
}

#[test]
fn a_peer_keeps_its_session() {
    let mut core = make_core();
    let sid = core.register_session("a".to_string(), "t".to_string(), None, None);
    let (tid, port) = core.register_udp_tunnel(&sid).unwrap();
    let mut s = UdpSessions::new();
    let peer = Peer { family: 4, bits: 0x0a00_0001, port: 999 };
    assert!(matches!(s.datagram(&core, port, peer, false), DatagramStep::Drop));
    assert!(matches!(s.datagram(&core, 1, peer, true), DatagramStep::Drop));
    match s.datagram(&core, port, peer, true) {
        DatagramStep::TakePermit(info) => {
            assert_eq!((info.tunnel_id, info.max_connections), (tid, 7))
        }
        other => panic!("{other:?}"),
    }
    assert_eq!(core.get_tunnel_request_count(&tid), 0, "nothing is let through yet");
    s.open_with(&mut core, &tid, peer, 44);
    assert!(matches!(s.datagram(&core, port, peer, true), DatagramStep::PassOn(44)));
    assert_eq!(core.get_tunnel_request_count(&tid), 1);
    let other = Peer { port: 1000, ..peer };
    s.open_with(&mut core, &tid, other, 45);
    s.reap(&vec![44]);
    assert_eq!(s.connections.len(), 1);
    assert!(matches!(s.datagram(&core, port, other, true), DatagramStep::PassOn(45)));
    s.end(other);
    assert!(s.connections.is_empty());
    // Connections get ids of their own.
    let (first, second) = (s.open(&mut core, &tid, peer), s.open(&mut core, &tid, other));
    assert_ne!(first, second);
    assert!(matches!(s.datagram(&core, port, peer, true), DatagramStep::PassOn(id) if id == first));
    assert_eq!(core.get_tunnel_request_count(&tid), 4);
}

#[test]
fn udp_tunnel_echoes_datagram() {
    let mut core = make_core();
    let sid = core.register_session("a".to_string(), "t".to_string(), None, None);
    let (tid, _) = core.register_udp_tunnel(&sid).unwrap();
    core.register_pending_conn(8);
    let mut state = UdpState::AwaitTold;
    let mut step = |core: &mut TunnelCore, event| {
        let (next, step) = udp_session_step(core, state, event, &8, &tid);
        state = next;
        step
    };
    assert_eq!(step(&mut core, UdpEvent::Told(true)), UdpStep::AwaitStream);
    assert_eq!(step(&mut core, UdpEvent::Stream(StreamEnd::Arrived)), UdpStep::Bridge);
    assert_eq!(step(&mut core, UdpEvent::FromPeer), UdpStep::ToStream);
    assert_eq!(step(&mut core, UdpEvent::Passed { bytes: 9, ok: true }), UdpStep::Wait);
    assert_eq!(step(&mut core, UdpEvent::FromStream), UdpStep::ToPeer);
    assert_eq!(step(&mut core, UdpEvent::Passed { bytes: 9, ok: true }), UdpStep::Wait);
    assert_eq!(core.get_tunnel_bytes_proxied(&tid), 0);
    assert_eq!(step(&mut core, UdpEvent::Idle), UdpStep::End);
    assert_eq!(core.get_tunnel_bytes_proxied(&tid), 18);
    assert_eq!(step(&mut core, UdpEvent::Idle), UdpStep::Wait);
    assert_eq!(core.get_tunnel_bytes_proxied(&tid), 18);
}

#[test]
fn udp_sessions_that_do_not_start_leave_nothing_waiting() {
    let mut core = make_core();
    core.register_pending_conn(8);
    assert_eq!(udp_session_step(&mut core, UdpState::AwaitTold, UdpEvent::Told(false), &8, &1).1, UdpStep::End);
    assert!(core.pending_conns.is_empty());
    core.register_pending_conn(8);
    let timed_out = UdpEvent::Stream(StreamEnd::TimedOut);
    assert_eq!(udp_session_step(&mut core, UdpState::AwaitStream, timed_out, &8, &1).0, UdpState::Ended);
    assert!(core.pending_conns.is_empty());
    let dropped = UdpEvent::Stream(StreamEnd::Dropped);
    assert_eq!(udp_session_step(&mut core, UdpState::AwaitStream, dropped, &8, &1).1, UdpStep::End);
    for end in [UdpEvent::PeerEnded, UdpEvent::StreamFailed, UdpEvent::Passed { bytes: 9, ok: false }] {
        let bridging = UdpState::Bridging { total: 3 };
        assert_eq!(udp_session_step(&mut core, bridging, end, &8, &1), (UdpState::Ended, UdpStep::End));
    }
}

// ── the loops of a session ───────────────────────────────────────────────────

#[test]
fn the_main_loop_passes_connections_on() {
    let mut core = make_core();
    core.register_pending_conn(4);
    let new = ControlMessage::NewConnection {
        conn_id: 4,
        client_addr: "9.9.9.9:9".to_string(),
        protocol: TunnelProtocol::Http,
    };
    match main_loop_step(&mut core, LoopEvent::Control(Some(new))) {
        LoopStep::AskStream { conn_id, client_addr, .. } => {
            assert_eq!((conn_id, client_addr.as_str()), (4, "9.9.9.9:9"))
        }
        other => panic!("{other:?}"),
    }
    let asked = |asked| LoopEvent::StreamAsked {
        conn_id: 4,
        client_addr: "9.9.9.9:9".to_string(),
        protocol: TunnelProtocol::Http,
        asked,
    };
    assert!(matches!(
        main_loop_step(&mut core, asked(true)),
        LoopStep::Send(ControlFrame::NewConnection { conn_id: 4, .. })
    ));
    assert!(core.pending_conns.contains_key(&4));
    assert!(matches!(main_loop_step(&mut core, asked(false)), LoopStep::Wait));
    assert!(core.pending_conns.is_empty());
    assert!(matches!(main_loop_step(&mut core, LoopEvent::Control(None)), LoopStep::CloseAndEnd));
    assert!(matches!(
        main_loop_step(&mut core, LoopEvent::Control(Some(ControlMessage::Shutdown))),
        LoopStep::CloseAndEnd
    ));
    assert!(matches!(main_loop_step(&mut core, LoopEvent::Closed), LoopStep::End));
    assert!(matches!(main_loop_step(&mut core, LoopEvent::Failed), LoopStep::Fail));
    assert!(matches!(main_loop_step(&mut core, LoopEvent::Frame(None)), LoopStep::Wait));
    assert!(matches!(
        main_loop_step(&mut core, LoopEvent::Ping(Some(3))),
        LoopStep::Send(ControlFrame::Ping { timestamp: 3 })
    ));
    assert!(matches!(main_loop_step(&mut core, LoopEvent::Ping(None)), LoopStep::End));
}

/// A session with a TCP tunnel, and the port of that.
fn with_tcp_tunnel(core: &mut TunnelCore) -> (u128, u128, u16) {
    let sid = core.register_session("1.1.1.1:1".to_string(), "t".to_string(), None, None);
    let (tid, port) = core.register_tcp_tunnel(&sid, None).unwrap();
    (sid, tid, port)
}

#[test]
fn data_ws_reconnect_preserves_tunnel() {
    let mut core = make_core();
    let (sid, tid, port) = with_tcp_tunnel(&mut core);
    assert!(core.set_data_pipe(&sid));
    assert_eq!(find_pipe(&mut core, &sid, 0), PipeStep::Bridge);
    assert_eq!(core.resolve_tcp(port).unwrap().tunnel_id, tid);
    // The data connection is lost: the driver ends and is replaced; the tunnel stays.
    assert!(matches!(main_loop_step(&mut core, LoopEvent::DriverEnded), LoopStep::RebuildDataPlane));
    assert_eq!(find_pipe(&mut core, &sid, 0), PipeStep::Retry);
    assert!(core.set_data_pipe(&sid));
    assert_eq!(find_pipe(&mut core, &sid, 1), PipeStep::Bridge);
    assert_eq!(core.resolve_tcp(port).unwrap().tunnel_id, tid);
    assert_eq!(core.tunnel_session(&tid), Some(sid));
}

#[test]
fn data_ws_survives_multiple_reconnects() {
    let mut core = make_core();
    let (sid, tid, port) = with_tcp_tunnel(&mut core);
    for _ in 1..=3 {
        assert!(core.set_data_pipe(&sid));
        assert_eq!(find_pipe(&mut core, &sid, 0), PipeStep::Bridge);
        assert_eq!(core.resolve_tcp(port).unwrap().tunnel_id, tid);
        assert!(matches!(main_loop_step(&mut core, LoopEvent::DriverEnded), LoopStep::RebuildDataPlane));
    }
    assert!(core.set_data_pipe(&sid));
    assert_eq!(find_pipe(&mut core, &sid, 0), PipeStep::Bridge);
    assert_eq!(core.resolve_tcp(port).unwrap().tunnel_id, tid);
    assert_eq!(find_pipe(&mut core, &sid, PIPE_TRIES), PipeStep::GiveUp);
    assert_eq!(find_pipe(&mut core, &77, 0), PipeStep::Retry);
    assert!(!core.set_data_pipe(&77));
}

#[test]
fn a_stream_goes_to_the_connection_that_waits_for_it() {
    let mut core = make_core();
    core.register_pending_conn(0x0102);
    assert!(matches!(driver_step(&mut core, DriverEvent::Asked(Some(0x0102))), DriverStep::Open(0x0102)));
    match driver_step(&mut core, DriverEvent::Opened(0x0102)) {
        DriverStep::WriteHeader { header, .. } => {
            assert_eq!(header, vec![0, 0, 0, 0, 0, 0, 0, 0, 0, 0, 0, 0, 0, 0, 1, 2])
        }
        other => panic!("{other:?}"),
    }
    let written = || DriverEvent::HeaderWritten { conn_id: 0x0102, written: true };
    assert!(matches!(driver_step(&mut core, written()), DriverStep::HandOver(0x0102)));
    assert!(matches!(driver_step(&mut core, written()), DriverStep::Wait));
    core.register_pending_conn(3);
    driver_step(&mut core, DriverEvent::OpenFailed(3));
    assert!(core.pending_conns.contains_key(&3));
    driver_step(&mut core, DriverEvent::OpenTimedOut(3));
    assert!(core.pending_conns.is_empty());
    core.register_pending_conn(4);
    driver_step(&mut core, DriverEvent::Leftover(4));
    assert!(core.pending_conns.is_empty());
    assert!(matches!(driver_step(&mut core, DriverEvent::Asked(None)), DriverStep::End));
    assert!(matches!(driver_step(&mut core, DriverEvent::Ended), DriverStep::End));
    let id = uuid::Uuid::new_v4();
    assert_eq!(stream_header(id.as_u128()), id.as_bytes().to_vec());
}

#[test]
fn silent_clients_are_given_up() {
    let mut h = Heartbeat::new();
    assert_eq!(h.deadline(), None);
    assert_eq!(h.step(BeatEvent::Tick(0)), BeatStep::Ping);
    assert_eq!(h.step(BeatEvent::Sent { at: 5, sent: true }), BeatStep::Wait);
    let first = 5 + PONG_DEADLINE + 1;
    assert_eq!(h.deadline(), Some(first));
    // Ten seconds are in time, anything more is not.
    assert_eq!(h.step(BeatEvent::Deadline(first - 1)), BeatStep::Wait);
    assert_eq!(h.step(BeatEvent::Deadline(first)), BeatStep::End);
    assert_eq!(h.step(BeatEvent::Tick(first)), BeatStep::End);
    // An answer that comes too late saves nobody.
    assert_eq!(h.step(BeatEvent::Pong(first)), BeatStep::End);
    assert_eq!(h.step(BeatEvent::Deadline(first)), BeatStep::End);
    // Another ping does not put the first one off.
    assert_eq!(h.step(BeatEvent::Sent { at: 90, sent: true }), BeatStep::Wait);
    assert_eq!(h.deadline(), Some(first));
}

#[test]
fn clients_that_answer_in_time_stay() {
    let mut h = Heartbeat::new();
    assert_eq!(h.step(BeatEvent::Sent { at: 5, sent: true }), BeatStep::Wait);
    assert_eq!(h.step(BeatEvent::Pong(5 + PONG_DEADLINE)), BeatStep::Wait);
    assert_eq!(h.deadline(), None);
    assert_eq!(h.step(BeatEvent::Deadline(u64::MAX)), BeatStep::Wait);
    assert_eq!(h.step(BeatEvent::Tick(5 + PING_INTERVAL)), BeatStep::Ping);
    assert_eq!(h.step(BeatEvent::Sent { at: 6, sent: false }), BeatStep::End);
    assert_eq!(h.step(BeatEvent::Stopped), BeatStep::End);
    assert_eq!(h.step(BeatEvent::PongsEnded), BeatStep::End);
    // A ping so late that the clock cannot show its deadline has none.
    assert_eq!(h.step(BeatEvent::Sent { at: u64::MAX, sent: true }), BeatStep::Wait);
    assert_eq!(h.deadline(), None);
}

#[test]
fn silent_data_connections_are_given_up() {
    let mut k = Keepalive::new();
    assert_eq!(k.deadline(), None);
    assert_eq!(k.step(BridgeEvent::Tick(DATA_PING_INTERVAL)), BridgeStep::Ping);
    let at = DATA_PING_INTERVAL + 3;
    assert_eq!(k.step(BridgeEvent::PingSent { at, sent: true }), BridgeStep::Wait);
    let first = at + DATA_PONG_DEADLINE + 1;
    assert_eq!(k.deadline(), Some(first));
    assert_eq!(k.step(BridgeEvent::Deadline(first - 1)), BridgeStep::Wait);
    assert_eq!(k.step(BridgeEvent::Deadline(first)), BridgeStep::End);
    assert_eq!(k.step(BridgeEvent::Tick(first)), BridgeStep::End);
    assert_eq!(k.step(BridgeEvent::WsPong(first)), BridgeStep::End);
    // Bytes are no answer.
    assert_eq!(k.step(BridgeEvent::WsBytes), BridgeStep::ToPipe);
    assert_eq!(k.step(BridgeEvent::Deadline(first)), BridgeStep::End);
    assert_eq!(k.step(BridgeEvent::WsPong(first - 1)), BridgeStep::Wait);
    assert_eq!(k.deadline(), None);
    assert_eq!(k.step(BridgeEvent::Tick(2 * DATA_PING_INTERVAL)), BridgeStep::Ping);
    assert_eq!(k.step(BridgeEvent::PingSent { at, sent: false }), BridgeStep::End);
    assert_eq!(k.step(BridgeEvent::PipeBytes), BridgeStep::ToClient);
    assert_eq!(k.step(BridgeEvent::Passed(true)), BridgeStep::Wait);
    assert_eq!(k.step(BridgeEvent::Passed(false)), BridgeStep::End);
    assert_eq!(k.step(BridgeEvent::WsOther), BridgeStep::Wait);
    assert_eq!(k.step(BridgeEvent::WsEnded), BridgeStep::End);
    assert_eq!(k.step(BridgeEvent::PipeEnded), BridgeStep::End);
}

#[test]
fn a_full_header_map_is_left_alone() {
    let mut headers = HeaderMap::new();
    assert!(room_for(&headers, 3));
    assert!(try_request_headers(&mut headers, "10.0.0.1", ForwardScheme::Http, "a.tunnel.test"));
    assert_eq!(headers.get("x-forwarded-for").unwrap(), "10.0.0.1");
    for n in 0..MAX_FIELD_NAMES - 6 {
        let name = hyper::header::HeaderName::from_bytes(format!("x-{n}").as_bytes()).unwrap();
        headers.insert(name, HeaderValue::from_static("v"));
    }
    assert_eq!(headers.keys_len(), MAX_FIELD_NAMES - 3);
    assert!(try_request_headers(&mut headers, "10.0.0.2", ForwardScheme::Http, "b.tunnel.test"));
    assert_eq!(headers.get("x-forwarded-for").unwrap(), "10.0.0.1, 10.0.0.2");
    headers.insert("one-more", HeaderValue::from_static("v"));
    assert!(!room_for(&headers, 3));
    assert!(!try_request_headers(&mut headers, "10.0.0.3", ForwardScheme::Http, "c.tunnel.test"));
    assert_eq!(headers.get("x-forwarded-host").unwrap(), "b.tunnel.test");
}
