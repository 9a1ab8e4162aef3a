use rustunnel_server::error::Error;
use rustunnel_server::frames::{
    handle_client_message, handle_client_message_with, relay_step, remaining_tunnels, start_relay,
    start_relay_with, ClosedTunnel, FrameStep, RelayEvent, RelayState, RelayStep, ALERT_EVENT,
    PUNCH_TIMEOUT_MS,
};
use rustunnel_server::protocol::{
    ControlFrame, HealthCheckKind, HealthCheckSpec, RegisterRequest, TunnelProtocol,
};
use rustunnel_server::router::TunnelCore;
use rustunnel_server::session::{
    advertised_version, gate, needs_lookup, register_tunnel, settle_auth, start_auth, AuthEnd,
    AuthStart, ControlConfig, FirstFrame, GateStep, PlanLimits, TokenFacts, SERVER_VERSION,
};

fn config() -> ControlConfig {
    ControlConfig {
        domain: "tunnel.test".to_string(),
        region_id: "test".to_string(),
        load_balancing: true,
        alert_webhook_url: None,
        p2p_enabled: true,
        require_auth: true,
        admin_token: "integration-test-token".to_string(),
        server_version: advertised_version(None),
    }
}

fn make_core() -> TunnelCore {
    TunnelCore::new([20000, 20009], [21000, 21003], 5, 100, 1000)
}

fn session(core: &mut TunnelCore) -> u128 {
    core.register_session("127.0.0.1:12345".to_string(), "t".to_string(), None, None)
}

fn request(protocol: TunnelProtocol) -> RegisterRequest {
    RegisterRequest {
        request_id: "r1".to_string(),
        protocol,
        subdomain: None,
        local_addr: "127.0.0.1:3000".to_string(),
        p2p_name: None,
        p2p_secret_hash: None,
        group: None,
        group_key_hash: None,
        health_check: None,
    }
}

fn probe(url: Option<&str>) -> HealthCheckSpec {
    HealthCheckSpec {
        kind: HealthCheckKind::Tcp,
        interval_secs: 10,
        timeout_secs: 3,
        max_failed: 3,
        http_path: None,
        http_expect_2xx: true,
        alert_webhook_url: url.map(|u| u.to_string()),
    }
}

fn pooled(subdomain: &str, key: &str, url: Option<&str>) -> RegisterRequest {
    RegisterRequest {
        subdomain: Some(subdomain.to_string()),
        group: Some("web".to_string()),
        group_key_hash: Some(key.to_string()),
        health_check: Some(probe(url)),
        ..request(TunnelProtocol::Http)
    }
}

/// A request for a place in a pool, without probes.
fn grouped(subdomain: &str, group: &str, key: &str) -> RegisterRequest {
    RegisterRequest {
        subdomain: Some(subdomain.to_string()),
        group: Some(group.to_string()),
        group_key_hash: Some(key.to_string()),
        ..request(TunnelProtocol::Http)
    }
}

/// A request for a place in a pool, with probes and an address for alerts.
fn grouped_with_alert(subdomain: &str, group: &str, key: &str, url: &str) -> RegisterRequest {
    RegisterRequest { health_check: Some(probe(Some(url))), ..grouped(subdomain, group, key) }
}

fn grouped_tcp(group: &str, key: &str) -> RegisterRequest {
    RegisterRequest {
        group: Some(group.to_string()),
        group_key_hash: Some(key.to_string()),
        ..request(TunnelProtocol::Tcp)
    }
}

fn granted(reply: ControlFrame) -> (u128, String, Option<u16>, Option<String>) {
    match reply {
        ControlFrame::TunnelRegistered {
            request_id,
            tunnel_id,
            public_url,
            assigned_port,
            p2p_tunnel_name,
        } => {
            assert_eq!(request_id, "r1");
            (tunnel_id, public_url, assigned_port, p2p_tunnel_name)
        }
        other => panic!("not granted: {other:?}"),
    }
}

fn refused(reply: ControlFrame) -> String {
    match reply {
        ControlFrame::TunnelError { request_id, message } => {
            assert_eq!(request_id, "r1");
            message
        }
        other => panic!("not refused: {other:?}"),
    }
}

fn token(user_id: Option<u128>) -> TokenFacts {
    TokenFacts {
        id: "tok-1".to_string(),
        status: "active".to_string(),
        unlimited: false,
        expires_at: None,
        user_id,
    }
}

// ── handshake ────────────────────────────────────────────────────────────────

#[test]
fn first_frame_has_to_be_an_auth_frame() {
    let auth = || {
        FirstFrame::Frame {
            frame: ControlFrame::Auth {
                token: "abc".to_string(),
                client_version: "1".to_string(),
            },
            shown: "Auth { token: \"abc\", client_version: \"1\" }".to_string(),
        }
    };
    match start_auth(auth(), false) {
        AuthStart::Token(t) => assert_eq!(t, "abc"),
        other => panic!("{other:?}"),
    }
    for (frame, shown) in [
        (ControlFrame::Ping { timestamp: 1 }, "Ping { timestamp: 1 }"),
        (ControlFrame::RegisterTunnel(request(TunnelProtocol::Tcp)), "RegisterTunnel { .. }"),
    ] {
        match start_auth(FirstFrame::Frame { frame, shown: shown.to_string() }, false) {
            AuthStart::Refuse {
                reply: Some(ControlFrame::AuthError { message }),
                error,
                failed: true,
            } => {
                assert_eq!(message, "expected Auth frame");
                assert!(matches!(error, Error::Auth(_)));
                assert_eq!(error.message(), format!("auth error: unexpected frame: {shown}"));
            }
            other => panic!("{other:?}"),
        }
    }
}

#[test]
fn clients_with_too_many_failures_are_turned_away_before_anything_else() {
    let auth = FirstFrame::Frame {
        frame: ControlFrame::Auth {
            token: "integration-test-token".to_string(),
            client_version: "1".to_string(),
        },
        shown: "Auth".to_string(),
    };
    for first in [auth, FirstFrame::Timeout] {
        match start_auth(first, true) {
            AuthStart::Refuse {
                reply: Some(ControlFrame::AuthError { message }),
                error,
                failed: false,
            } => {
                assert_eq!(message, "too many failed attempts");
                assert_eq!(error.message(), "auth error: too many failed attempts");
            }
            other => panic!("{other:?}"),
        }
    }
    assert!(!needs_lookup(&config(), "rt_test_1", true));
    let mut core = make_core();
    // Not even the operator's token helps, nor that authentication is off.
    for (cfg, shown) in [
        (config(), "integration-test-token"),
        (ControlConfig { require_auth: false, ..config() }, "x"),
    ] {
        let end = settle_auth(
            &mut core,
            &cfg,
            "a".to_string(),
            shown.to_string(),
            true,
            Some(token(Some(7))),
        );
        match end {
            AuthEnd::Refused { reply: ControlFrame::AuthError { message }, error, failed } => {
                assert_eq!(message, "too many failed attempts");
                assert!(matches!(error, Error::Auth(_)));
                assert!(!failed, "being turned away is no further failure");
            }
            other => panic!("{other:?}"),
        }
    }
    assert!(core.sessions.is_empty());
}

#[test]
fn silence_and_noise_end_the_handshake_without_an_answer() {
    for (first, message) in [
        (FirstFrame::Timeout, "auth error: auth timeout"),
        (FirstFrame::Closed, "auth error: connection closed before auth"),
        (FirstFrame::Failed("reset".to_string()), "auth error: reset"),
        (FirstFrame::NotBinary("expected binary".to_string()), "I/O error: expected binary"),
        (FirstFrame::Unreadable("bad json".to_string()), "protocol error: bad json"),
    ] {
        let binary = !matches!(first, FirstFrame::NotBinary(_));
        match start_auth(first, false) {
            AuthStart::Refuse { reply: None, error, failed: false } => {
                assert_eq!(error.message(), message);
                assert_eq!(matches!(error, Error::InvalidData(_)), !binary);
            }
            other => panic!("{other:?}"),
        }
    }
}

#[test]
fn session_info_carries_user_id_after_handshake() {
    let mut core = make_core();
    let user = uuid::Uuid::new_v4().as_u128();
    assert!(needs_lookup(&config(), "rt_test_1", false));
    let end = settle_auth(
        &mut core,
        &config(),
        "10.0.0.1:5".to_string(),
        "rt_test_1".to_string(),
        false,
        Some(token(Some(user))),
    );
    match end {
        AuthEnd::Admitted { session_id, reply, token } => {
            let s = core.session(&session_id).unwrap();
            assert_eq!(s.user_id, Some(user));
            assert_eq!(s.db_token_id.as_deref(), Some("tok-1"));
            assert_eq!(s.auth_token_id, "rt_test_1");
            assert_eq!(s.client_addr, "10.0.0.1:5");
            assert_eq!(token.unwrap().id, "tok-1");
            assert!(matches!(reply, ControlFrame::AuthOk { session_id: id, .. } if id == session_id));
        }
        other => panic!("{other:?}"),
    }
}

#[test]
fn admin_token_needs_no_database_and_owns_nothing() {
    let mut core = make_core();
    let shown = "integration-test-token".to_string();
    assert!(!needs_lookup(&config(), &shown, false));
    match settle_auth(&mut core, &config(), "a".to_string(), shown, false, None) {
        AuthEnd::Admitted { session_id, token, .. } => {
            assert!(token.is_none());
            let s = core.session(&session_id).unwrap();
            assert!(s.user_id.is_none() && s.db_token_id.is_none());
        }
        other => panic!("{other:?}"),
    }
}

#[test]
fn unknown_token_is_refused_unless_auth_is_off() {
    let mut core = make_core();
    match settle_auth(&mut core, &config(), "a".to_string(), "nope".to_string(), false, None) {
        AuthEnd::Refused { reply: ControlFrame::AuthError { message }, error, failed } => {
            assert_eq!(message, "invalid token");
            assert_eq!(error.message(), "auth error: invalid token");
            assert!(failed);
        }
        other => panic!("{other:?}"),
    }
    assert!(core.sessions.is_empty());
    let open = ControlConfig { require_auth: false, ..config() };
    assert!(matches!(
        settle_auth(&mut core, &open, "a".to_string(), "nope".to_string(), false, None),
        AuthEnd::Admitted { .. }
    ));
}

#[test]
fn with_auth_off_a_session_notes_nothing_of_the_token() {
    let mut core = make_core();
    let open = ControlConfig { require_auth: false, ..config() };
    assert!(!needs_lookup(&open, "rt_test_1", false));
    let found = Some(token(Some(7)));
    let end =
        settle_auth(&mut core, &open, "a".to_string(), "rt_test_1".to_string(), false, found);
    match end {
        AuthEnd::Admitted { session_id, token, .. } => {
            assert!(token.is_none());
            let s = core.session(&session_id).unwrap();
            assert_eq!(s.auth_token_id, "");
            assert_eq!((s.db_token_id, s.user_id), (None, None));
        }
        other => panic!("{other:?}"),
    }
}

/// The version that a client is told.
fn told_version(pretended: Option<&str>) -> String {
    let mut core = make_core();
    let cfg = ControlConfig {
        server_version: advertised_version(pretended.map(|v| v.to_string())),
        ..config()
    };
    let shown = "integration-test-token".to_string();
    match settle_auth(&mut core, &cfg, "a".to_string(), shown, false, None) {
        AuthEnd::Admitted { reply: ControlFrame::AuthOk { server_version, .. }, .. } => {
            server_version
        }
        other => panic!("{other:?}"),
    }
}

#[test]
fn override_makes_server_advertise_old_version() {
    assert_eq!(told_version(Some("0.5.0")), "0.5.0");
}

#[test]
fn no_override_uses_cargo_pkg_version() {
    let v = told_version(None);
    let mut parts = v.split('.');
    let major: u32 = parts.next().unwrap().parse().expect("major");
    let minor: u32 = parts.next().unwrap().parse().expect("minor");
    assert!((major, minor) >= (0, 7), "server_version {v} must be >= 0.7.0");
    assert_eq!(v, SERVER_VERSION);
}

// ── who may register ─────────────────────────────────────────────────────────

fn refusal_of(step: GateStep) -> String {
    match step {
        GateStep::Refuse(m) => m,
        other => panic!("{other:?}"),
    }
}

#[test]
fn sessions_without_a_token_are_not_limited() {
    assert!(matches!(gate(&None, 0, &None, None, None), GateStep::Admit));
}

#[test]
fn suspended_and_expired_tokens_are_refused() {
    let mut t = token(Some(7));
    t.status = "revoked".to_string();
    t.unlimited = true;
    assert_eq!(refusal_of(gate(&Some(t), 0, &None, None, None)), "token is suspended or revoked");
    let mut t = token(Some(7));
    t.expires_at = Some(100);
    assert_eq!(refusal_of(gate(&Some(t), 101, &None, None, None)), "token has expired");
    let mut t = token(Some(7));
    t.expires_at = Some(100);
    assert!(matches!(gate(&Some(t), 100, &None, None, None), GateStep::AskPlan(7)));
    let mut t = token(Some(7));
    t.expires_at = Some(100);
    t.unlimited = true;
    assert!(matches!(gate(&Some(t), 101, &None, None, None), GateStep::Admit));
    // Without a user nothing expires, but a revoked token stays out.
    let mut t = token(None);
    t.expires_at = Some(100);
    assert!(matches!(gate(&Some(t), 101, &None, None, None), GateStep::Admit));
    let mut t = token(None);
    t.status = "revoked".to_string();
    assert_eq!(refusal_of(gate(&Some(t), 0, &None, None, None)), "token is suspended or revoked");
}

#[test]
fn the_plan_limits_tunnels_and_subdomains() {
    let plan = |max, custom| {
        Some(Some(PlanLimits { max_tunnels: max, allow_custom_subdomains: custom }))
    };
    let t = Some(token(Some(7)));
    let named = Some("mine".to_string());
    assert!(matches!(gate(&t, 0, &None, Some(None), None), GateStep::Admit));
    assert!(matches!(gate(&t, 0, &None, plan(Some(2), true), None), GateStep::AskOpen(7)));
    assert!(matches!(gate(&t, 0, &None, plan(Some(2), true), Some(1)), GateStep::Admit));
    assert_eq!(
        refusal_of(gate(&t, 0, &None, plan(Some(2), true), Some(2))),
        "tunnel limit of 2 reached"
    );
    assert!(matches!(gate(&t, 0, &named, plan(None, true), None), GateStep::Admit));
    assert_eq!(
        refusal_of(gate(&t, 0, &named, plan(None, false), None)),
        "custom subdomains require a paid plan"
    );
    assert!(matches!(
        gate(&t, 0, &Some(String::new()), plan(None, false), None),
        GateStep::Admit
    ));
    assert!(matches!(gate(&Some(token(None)), 0, &named, None, None), GateStep::Admit));
    assert_eq!(
        refusal_of(gate(&t, 0, &None, plan(Some(-1), true), Some(0))),
        "tunnel limit of -1 reached"
    );
}

// ── registering ──────────────────────────────────────────────────────────────

#[test]
fn http_request_is_granted_with_a_url_and_logged() {
    let mut core = make_core();
    let sid = session(&mut core);
    let mut req = request(TunnelProtocol::Https);
    req.subdomain = Some("myapp".to_string());
    let r = register_tunnel(&mut core, &config(), &sid, req);
    let log = r.log.unwrap();
    let (id, url, port, name) = granted(r.reply);
    assert_eq!(url, "https://myapp.tunnel.test");
    assert_eq!((port, name), (None, None));
    assert_eq!((log.tunnel_id, log.protocol.as_str(), log.label.as_str()), (id, "https", "myapp"));
}

#[test]
fn udp_tunnel_registration() {
    let mut core = make_core();
    let sid = session(&mut core);
    let r = register_tunnel(&mut core, &config(), &sid, request(TunnelProtocol::Udp));
    let (_, url, port, _) = granted(r.reply);
    let port = port.unwrap();
    assert!((21000..=21003).contains(&port));
    assert_eq!(url, format!("udp://tunnel.test:{port}"));
    assert!(core.udp_routes.contains_key(&port));
}

#[test]
fn two_udp_tunnels_get_distinct_ports() {
    let mut core = make_core();
    let sid = session(&mut core);
    let a = granted(register_tunnel(&mut core, &config(), &sid, request(TunnelProtocol::Udp)).reply);
    let b = granted(register_tunnel(&mut core, &config(), &sid, request(TunnelProtocol::Udp)).reply);
    assert_ne!(a.2, b.2);
}

#[test]
fn http_groups_http_group_mismatched_key_is_rejected() {
    let mut core = make_core();
    let (a, b) = (session(&mut core), session(&mut core));
    let (key_a, key_b) = ("a".repeat(64), "b".repeat(64));
    granted(register_tunnel(&mut core, &config(), &a, grouped("pool", "web", &key_a)).reply);
    let message =
        refused(register_tunnel(&mut core, &config(), &b, grouped("pool", "web", &key_b)).reply);
    assert!(message.contains("group key does not match"), "{message}");
}

#[test]
fn http_group_with_kill_switch_off_falls_through_to_solo() {
    let mut core = make_core();
    let (a, b) = (session(&mut core), session(&mut core));
    let off = ControlConfig { load_balancing: false, ..config() };
    let key = "a".repeat(64);
    granted(register_tunnel(&mut core, &off, &a, grouped("pool", "web", &key)).reply);
    assert!(core.http_routes.get("pool").unwrap().key_hash.is_none());
    let message =
        refused(register_tunnel(&mut core, &off, &b, grouped("pool", "web", &key)).reply);
    assert!(message.contains("already in use"), "{message}");
}

#[test]
fn tcp_group_with_kill_switch_off_falls_through_to_solo() {
    let mut core = make_core();
    let (a, b) = (session(&mut core), session(&mut core));
    let off = ControlConfig { load_balancing: false, ..config() };
    let key = "a".repeat(64);
    let x = granted(register_tunnel(&mut core, &off, &a, grouped_tcp("ssh", &key)).reply);
    let y = granted(register_tunnel(&mut core, &off, &b, grouped_tcp("ssh", &key)).reply);
    assert_ne!(x.2, y.2, "each stands alone");
    let (a, b) = (session(&mut core), session(&mut core));
    let x = granted(register_tunnel(&mut core, &config(), &a, grouped_tcp("ssh", &key)).reply);
    let y = granted(register_tunnel(&mut core, &config(), &b, grouped_tcp("ssh", &key)).reply);
    assert_eq!(x.2, y.2, "one pool, one port");
}

#[test]
fn tcp_group_different_keys_get_separate_ports() {
    let mut core = make_core();
    let (a, b) = (session(&mut core), session(&mut core));
    let (key_a, key_b) = ("a".repeat(64), "b".repeat(64));
    let x = granted(register_tunnel(&mut core, &config(), &a, grouped_tcp("ssh", &key_a)).reply);
    let y = granted(register_tunnel(&mut core, &config(), &b, grouped_tcp("ssh", &key_b)).reply);
    assert_ne!(x.2, y.2);
}

#[test]
fn refusals_carry_the_message_of_the_error() {
    let mut core = TunnelCore::new([20000, 20000], [0, 0], 1, 100, 1000);
    let sid = session(&mut core);
    assert_eq!(
        refused(register_tunnel(&mut core, &config(), &sid, request(TunnelProtocol::Udp)).reply),
        "no ports available"
    );
    granted(register_tunnel(&mut core, &config(), &sid, request(TunnelProtocol::Tcp)).reply);
    let text = uuid::Uuid::from_u128(sid).to_string();
    assert_eq!(
        refused(register_tunnel(&mut core, &config(), &sid, request(TunnelProtocol::Http)).reply),
        format!("limit exceeded: session {text} already has 1 tunnels (max 1)")
    );
    let text = uuid::Uuid::from_u128(5).to_string();
    assert_eq!(
        refused(register_tunnel(&mut core, &config(), &5, request(TunnelProtocol::Tcp)).reply),
        format!("session not found: {text}")
    );
}

// ── peer-to-peer ─────────────────────────────────────────────────────────────

fn publish_under(core: &mut TunnelCore, sid: &u128, name: &str, secret: &str) -> ControlFrame {
    let req = RegisterRequest {
        p2p_name: Some(name.to_string()),
        p2p_secret_hash: Some(secret.to_string()),
        ..request(TunnelProtocol::P2p)
    };
    register_tunnel(core, &config(), sid, req).reply
}

fn publish(core: &mut TunnelCore, sid: &u128, name: &str) -> ControlFrame {
    publish_under(core, sid, name, "secret-hash")
}

fn connect(core: &mut TunnelCore, sid: &u128, name: &str, secret: &str) -> FrameStep {
    handle_client_message(
        core,
        &config(),
        sid,
        ControlFrame::P2pConnect {
            request_id: "c1".to_string(),
            target_tunnel_name: name.to_string(),
            secret_hash: secret.to_string(),
        },
    )
}

fn p2p_error(step: FrameStep) -> String {
    match step {
        FrameStep::Reply(ControlFrame::P2pError { request_id, message }) => {
            assert_eq!(request_id, "c1");
            message
        }
        other => panic!("{other:?}"),
    }
}

#[test]
fn p2p_publisher_registration() {
    let mut core = make_core();
    let sid = session(&mut core);
    let (id, url, port, name) =
        granted(publish_under(&mut core, &sid, "my-game", "secret-hash-abc"));
    assert_eq!(name.as_deref(), Some("my-game"));
    assert_ne!(id, 0);
    assert!(core.p2p_tunnels.contains_key("my-game"), "P2P tunnel should be in the registry");
    assert_eq!(url, "p2p://my-game");
    assert_eq!(port, None);
    assert_eq!(core.tunnel_session(&id), Some(sid));
}

#[test]
fn p2p_duplicate_name_rejected() {
    let mut core = make_core();
    let sid = session(&mut core);
    granted(publish_under(&mut core, &sid, "clash", "hash1"));
    let message = refused(publish_under(&mut core, &sid, "clash", "hash2"));
    assert!(message.contains("already in use"), "{message}");
    let other = session(&mut core);
    let message = refused(publish_under(&mut core, &other, "clash", "hash1"));
    assert!(message.contains("already in use"), "{message}");
}

#[test]
fn p2p_requests_need_a_name_and_a_secret_and_a_server_that_has_it() {
    let mut core = make_core();
    let sid = session(&mut core);
    let off = ControlConfig { p2p_enabled: false, ..config() };
    assert_eq!(
        refused(register_tunnel(&mut core, &off, &sid, request(TunnelProtocol::P2p)).reply),
        "P2P tunnels are not enabled on this server"
    );
    assert_eq!(
        refused(register_tunnel(&mut core, &config(), &sid, request(TunnelProtocol::P2p)).reply),
        "P2P tunnel requires a name (p2p_name)"
    );
    let req = RegisterRequest { p2p_name: Some("x".to_string()), ..request(TunnelProtocol::P2p) };
    assert_eq!(
        refused(register_tunnel(&mut core, &config(), &sid, req).reply),
        "P2P tunnel requires a secret hash (p2p_secret_hash)"
    );
    let step = handle_client_message(
        &mut core,
        &off,
        &sid,
        ControlFrame::P2pConnect {
            request_id: "c1".to_string(),
            target_tunnel_name: "x".to_string(),
            secret_hash: "y".to_string(),
        },
    );
    assert_eq!(p2p_error(step), "P2P tunnels are not enabled on this server");
}

#[test]
fn p2p_connect_unknown_tunnel() {
    let mut core = make_core();
    let sid = session(&mut core);
    assert_eq!(
        p2p_error(connect(&mut core, &sid, "nonexistent", "some-hash")),
        "P2P tunnel 'nonexistent' not found"
    );
}

#[test]
fn p2p_connect_wrong_secret() {
    let mut core = make_core();
    let (a, b) = (session(&mut core), session(&mut core));
    let (tid, ..) = granted(publish_under(&mut core, &a, "secret-test", "correct-hash"));
    assert_eq!(
        p2p_error(connect(&mut core, &b, "secret-test", "wrong-hash")),
        "invalid P2P secret"
    );
    assert!(core.pending_conns.is_empty());
    assert_eq!(core.get_tunnel_request_count(&tid), 0, "nothing went through");
}

#[test]
fn p2p_connect_correct_secret() {
    let mut core = make_core();
    let (a, b) = (session(&mut core), session(&mut core));
    let (tid, ..) = granted(publish_under(&mut core, &a, "relay-test", "the-hash"));
    let conn = match connect(&mut core, &b, "relay-test", "the-hash") {
        FrameStep::TellPublisher { publisher_session, conn_id, tunnel_id, punch } => {
            assert_eq!(publisher_session, a);
            assert_eq!(tunnel_id, tid);
            assert!(punch.is_none(), "nothing is known of the publisher's network yet");
            conn_id
        }
        other => panic!("{other:?}"),
    };
    assert!(core.pending_conns.contains_key(&conn));
    assert_eq!(core.get_tunnel_request_count(&tid), 1);
    match start_relay(&mut core, &b, "c1".to_string(), &conn, true) {
        RelayStep::Relay { reply: ControlFrame::P2pConnected { request_id, conn_id }, sub_conn_id, tell_self } => {
            assert_eq!(request_id, "c1");
            assert_eq!(conn_id, sub_conn_id);
            assert!(tell_self);
            assert!(core.pending_conns.contains_key(&sub_conn_id));
        }
        other => panic!("{other:?}"),
    }
}

#[test]
fn p2p_publisher_that_cannot_be_told_is_given_up() {
    let mut core = make_core();
    let (a, b) = (session(&mut core), session(&mut core));
    granted(publish(&mut core, &a, "svc"));
    let conn = match connect(&mut core, &b, "svc", "secret-hash") {
        FrameStep::TellPublisher { conn_id, .. } => conn_id,
        other => panic!("{other:?}"),
    };
    match start_relay_with(&mut core, &b, "c1".to_string(), &conn, false, 9) {
        RelayStep::Refuse(ControlFrame::P2pError { message, .. }) => {
            assert_eq!(message, "publisher session is disconnected")
        }
        other => panic!("{other:?}"),
    }
    assert!(core.pending_conns.is_empty());
}

#[test]
fn a_relay_counts_for_the_publisher() {
    let mut core = make_core();
    let a = session(&mut core);
    let (tid, ..) = granted(publish(&mut core, &a, "svc"));
    core.register_pending_conn(9);
    let state = RelayState::AwaitPublisher;
    assert_eq!(relay_step(&mut core, state, RelayEvent::Publisher(false), &9, &tid), RelayState::Ended);
    assert!(core.pending_conns.is_empty());
    let state = relay_step(&mut core, state, RelayEvent::Publisher(true), &9, &tid);
    assert_eq!(relay_step(&mut core, state, RelayEvent::Subscriber(false), &9, &tid), RelayState::Ended);
    let state = relay_step(&mut core, state, RelayEvent::Subscriber(true), &9, &tid);
    assert_eq!(state, RelayState::Bridging);
    assert_eq!(relay_step(&mut core, state, RelayEvent::Failed, &9, &tid), RelayState::Ended);
    assert_eq!(core.get_tunnel_bytes_proxied(&tid), 0);
    relay_step(&mut core, state, RelayEvent::Done { up: 3, down: 4 }, &9, &tid);
    assert_eq!(core.get_tunnel_bytes_proxied(&tid), 7);
}

#[test]
fn p2p_punch_follows_the_publishers_report() {
    let mut core = make_core();
    let (a, b) = (session(&mut core), session(&mut core));
    let (tid, ..) = granted(publish(&mut core, &a, "svc"));
    let step = handle_client_message(
        &mut core,
        &config(),
        &a,
        ControlFrame::P2pNatInfo {
            tunnel_id: tid,
            nat_type: "symmetric".to_string(),
            mapped_addrs: vec!["1.2.3.4:5".to_string()],
            local_addrs: vec![],
        },
    );
    assert!(matches!(step, FrameStep::Ignore));
    match connect(&mut core, &b, "svc", "secret-hash") {
        FrameStep::TellPublisher { conn_id, punch: Some(ControlFrame::P2pPunchInstructions { conn_id: id, peer_addrs, strategy, punch_timeout_ms }), .. } => {
            assert_eq!(id, conn_id);
            assert_eq!(peer_addrs, vec!["1.2.3.4:5".to_string()]);
            assert_eq!(strategy, "port_prediction");
            assert_eq!(punch_timeout_ms, PUNCH_TIMEOUT_MS);
        }
        other => panic!("{other:?}"),
    }
}

#[test]
fn p2p_tunnel_cleaned_up_on_disconnect() {
    let mut core = make_core();
    let (a, b) = (session(&mut core), session(&mut core));
    granted(publish_under(&mut core, &a, "ephemeral", "hash"));
    assert!(core.p2p_tunnels.contains_key("ephemeral"));
    core.remove_session(&a);
    assert!(!core.p2p_tunnels.contains_key("ephemeral"));
    assert_eq!(
        p2p_error(connect(&mut core, &b, "ephemeral", "hash")),
        "P2P tunnel 'ephemeral' not found"
    );
    granted(publish(&mut core, &b, "ephemeral"));
}

// ── health ───────────────────────────────────────────────────────────────────

fn report(core: &mut TunnelCore, cfg: &ControlConfig, sid: &u128, id: u128, reason: Option<&str>) -> FrameStep {
    let frame = match reason {
        Some(r) => ControlFrame::TunnelUnhealthy { tunnel_id: id, reason: r.to_string() },
        None => ControlFrame::TunnelHealthy { tunnel_id: id },
    };
    handle_client_message(core, cfg, sid, frame)
}

/// How many of `n` requests for a subdomain go to each of two tunnels.
fn hits(core: &mut TunnelCore, label: &str, n: u64, a: u128, b: u128) -> (u64, u64) {
    let (mut hits_a, mut hits_b) = (0, 0);
    for _ in 0..n {
        match core.resolve_http(label).expect("somebody serves").tunnel_id {
            t if t == a => hits_a += 1,
            t if t == b => hits_b += 1,
            other => panic!("unexpected tunnel: {other}"),
        }
    }
    (hits_a, hits_b)
}

#[test]
fn unhealthy_member_is_excluded_then_restored_on_healthy() {
    let mut core = make_core();
    let cfg = config();
    let (a, b) = (session(&mut core), session(&mut core));
    let key = "deadbeef".repeat(8);
    let (ta, ..) = granted(register_tunnel(&mut core, &cfg, &a, grouped("hpool", "web", &key)).reply);
    let (tb, ..) = granted(register_tunnel(&mut core, &cfg, &b, grouped("hpool", "web", &key)).reply);
    report(&mut core, &cfg, &a, ta, Some("synthetic probe failure"));
    assert_eq!(hits(&mut core, "hpool", 50, ta, tb), (0, 50));
    report(&mut core, &cfg, &a, ta, None);
    let (hits_a, hits_b) = hits(&mut core, "hpool", 200, ta, tb);
    assert_eq!(hits_a + hits_b, 200);
    assert!(hits_a >= 30, "A={hits_a}, B={hits_b}");
    assert!(hits_b >= 30, "A={hits_a}, B={hits_b}");
}

#[test]
fn members_with_probes_serve_once_they_have_reported() {
    let mut core = make_core();
    let cfg = config();
    let a = session(&mut core);
    let (ta, ..) = granted(register_tunnel(&mut core, &cfg, &a, pooled("pool", "key", None)).reply);
    assert!(core.resolve_http("pool").is_none(), "nobody has reported yet");
    report(&mut core, &cfg, &a, ta, None);
    assert_eq!(core.resolve_http("pool").unwrap().tunnel_id, ta);
}

#[test]
fn cross_session_tunnel_unhealthy_is_ignored() {
    let mut core = make_core();
    let cfg = config();
    let (a, b) = (session(&mut core), session(&mut core));
    let key = "deadbeef".repeat(8);
    let (ta, ..) = granted(register_tunnel(&mut core, &cfg, &a, grouped("xpool", "web", &key)).reply);
    let (tb, ..) = granted(register_tunnel(&mut core, &cfg, &b, grouped("xpool", "web", &key)).reply);
    core.take_group_events();
    let step = report(&mut core, &cfg, &b, ta, Some("i am not the owner"));
    assert!(matches!(step, FrameStep::Ignore));
    assert!(core.take_group_events().is_empty());
    let (hits_a, hits_b) = hits(&mut core, "xpool", 100, ta, tb);
    assert_eq!(hits_a + hits_b, 100);
    assert!(hits_a >= 20, "A must keep serving: A={hits_a}, B={hits_b}");
    assert!(hits_b >= 20, "A={hits_a}, B={hits_b}");
}

#[test]
fn alert_webhook_fires_once_when_group_goes_zero_healthy() {
    let mut core = make_core();
    let url = "http://127.0.0.1:9000/alerts".to_string();
    let cfg = ControlConfig { alert_webhook_url: Some(url.clone()), ..config() };
    let (a, b) = (session(&mut core), session(&mut core));
    let key = "deadbeef".repeat(8);
    let (ta, ..) =
        granted(register_tunnel(&mut core, &cfg, &a, grouped("alertpool", "web", &key)).reply);
    let (tb, ..) =
        granted(register_tunnel(&mut core, &cfg, &b, grouped("alertpool", "web", &key)).reply);
    let step = report(&mut core, &cfg, &a, ta, Some("synthetic A failure"));
    assert!(matches!(step, FrameStep::Ignore), "one member is still healthy");
    match report(&mut core, &cfg, &b, tb, Some("synthetic B failure")) {
        FrameStep::Alert(order) => {
            assert_eq!(order.destinations, vec![url]);
            let p = order.payload;
            assert_eq!(p.region_id, "test");
            assert_eq!(p.protocol, "http");
            assert_eq!(p.label, "alertpool");
            assert_eq!(p.group_name, "web");
            assert_eq!(p.key_hash_short, "deadbeef");
            assert_eq!(p.member_count, 2);
            assert_eq!(ALERT_EVENT, "group_zero_healthy");
        }
        other => panic!("{other:?}"),
    }
    // Still down: no second alert.
    let step = report(&mut core, &cfg, &a, ta, Some("still down"));
    assert!(matches!(step, FrameStep::Ignore));
    // Recovery alone raises none.
    assert!(matches!(report(&mut core, &cfg, &a, ta, None), FrameStep::Ignore));
    // Another fall does.
    let step = report(&mut core, &cfg, &a, ta, Some("second flap"));
    assert!(matches!(step, FrameStep::Alert(_)));
}

#[test]
fn a_pool_that_is_opened_again_raises_its_own_alert() {
    let mut core = make_core();
    let cfg = config();
    let a = session(&mut core);
    let key = "deadbeef".repeat(8);
    for _ in 0..2 {
        let (ta, ..) =
            granted(register_tunnel(&mut core, &cfg, &a, grouped("again", "web", &key)).reply);
        let step = report(&mut core, &cfg, &a, ta, Some("down"));
        assert!(matches!(step, FrameStep::Alert(_)));
        let step = report(&mut core, &cfg, &a, ta, Some("down"));
        assert!(matches!(step, FrameStep::Ignore));
        core.remove_tunnel(&ta);
    }
}

#[test]
fn per_tenant_webhooks_fan_out_alongside_operator_url() {
    let mut core = make_core();
    let op_url = "http://127.0.0.1:9000/alerts".to_string();
    let alice_url = "http://127.0.0.1:9001/alerts".to_string();
    let bob_url = "http://127.0.0.1:9002/alerts".to_string();
    let cfg = ControlConfig { alert_webhook_url: Some(op_url.clone()), ..config() };
    let (a, b) = (session(&mut core), session(&mut core));
    let key = "deadbeef".repeat(8);
    let req = grouped_with_alert("fanout", "fanout", &key, &alice_url);
    let (ta, ..) = granted(register_tunnel(&mut core, &cfg, &a, req).reply);
    let req = grouped_with_alert("fanout", "fanout", &key, &bob_url);
    let (tb, ..) = granted(register_tunnel(&mut core, &cfg, &b, req).reply);
    report(&mut core, &cfg, &a, ta, None);
    report(&mut core, &cfg, &b, tb, None);
    report(&mut core, &cfg, &a, ta, Some("A down"));
    match report(&mut core, &cfg, &b, tb, Some("B down")) {
        FrameStep::Alert(order) => {
            // The operator first, then the tenants in the order in which they registered.
            assert_eq!(order.destinations, vec![op_url, alice_url, bob_url]);
            assert_eq!(order.payload.protocol, "http");
            assert_eq!(order.payload.label, "fanout");
            assert_eq!(order.payload.group_name, "fanout");
            assert_eq!(order.payload.member_count, 2);
        }
        other => panic!("{other:?}"),
    }
}

#[test]
fn tenants_are_told_in_the_order_in_which_they_registered() {
    let mut core = TunnelCore::new([20000, 20009], [21000, 21003], 50, 100, 1000);
    let cfg = config();
    let a = session(&mut core);
    let key = "deadbeef".repeat(8);
    let url = |i: u32| format!("http://127.0.0.1:{i}/alerts");
    let mut last = 0;
    // Every address is given twice, the second time round in the other order.
    for i in (0..10).chain((0..10).rev()) {
        let req = grouped_with_alert("many", "many", &key, &url(i));
        (last, ..) = granted(register_tunnel(&mut core, &cfg, &a, req).reply);
    }
    match report(&mut core, &cfg, &a, last, Some("down")) {
        FrameStep::Alert(order) => {
            assert_eq!(order.destinations, (0..10).map(url).collect::<Vec<String>>())
        }
        other => panic!("{other:?}"),
    }
}

#[test]
fn shared_tenant_webhook_is_deduped() {
    let mut core = make_core();
    let op_url = "http://127.0.0.1:9000/alerts".to_string();
    let tenant_url = "http://127.0.0.1:9001/alerts".to_string();
    let cfg = ControlConfig { alert_webhook_url: Some(op_url.clone()), ..config() };
    let (a, b) = (session(&mut core), session(&mut core));
    let key = "deadbeef".repeat(8);
    let req = || grouped_with_alert("dedup", "dedup", &key, &tenant_url);
    let (ta, ..) = granted(register_tunnel(&mut core, &cfg, &a, req()).reply);
    let (tb, ..) = granted(register_tunnel(&mut core, &cfg, &b, req()).reply);
    report(&mut core, &cfg, &a, ta, None);
    report(&mut core, &cfg, &b, tb, None);
    report(&mut core, &cfg, &a, ta, Some("A down"));
    match report(&mut core, &cfg, &b, tb, Some("B down")) {
        FrameStep::Alert(order) => assert_eq!(order.destinations, vec![op_url, tenant_url]),
        other => panic!("{other:?}"),
    }
}

#[test]
fn lone_tunnels_raise_no_alert() {
    let mut core = make_core();
    let cfg = ControlConfig { alert_webhook_url: Some("http://ops/hook".to_string()), ..config() };
    let a = session(&mut core);
    let (ta, ..) = granted(register_tunnel(&mut core, &cfg, &a, request(TunnelProtocol::Http)).reply);
    assert!(matches!(report(&mut core, &cfg, &a, ta, Some("x")), FrameStep::Ignore));
}

#[test]
fn history_keeps_the_latest_fifty_transitions() {
    let mut core = make_core();
    let cfg = config();
    let a = session(&mut core);
    let (ta, ..) = granted(register_tunnel(&mut core, &cfg, &a, pooled("pool", "k", None)).reply);
    for at in 0..60u64 {
        let frame = if at % 2 == 0 {
            ControlFrame::TunnelHealthy { tunnel_id: ta }
        } else {
            ControlFrame::TunnelUnhealthy { tunnel_id: ta, reason: format!("probe {at}") }
        };
        handle_client_message_with(&mut core, &cfg, &a, frame, 1, at, 0);
    }
    let group = core.http_routes.get("pool").unwrap();
    let member = group.members.get(&ta).unwrap();
    let events = member.health_events_snapshot();
    assert_eq!(events.len(), 50);
    assert_eq!((events[0].at, events[49].at), (10, 59));
    assert_eq!(events[0].reason, "recovered");
    assert_eq!(events[49].reason, "probe 59");
    assert_eq!(member.total_health_failures, 30);
    assert_eq!(member.consecutive_failures, 1);
}

// ── the rest ─────────────────────────────────────────────────────────────────

#[test]
fn pings_are_answered_and_pongs_heard() {
    let mut core = make_core();
    let a = session(&mut core);
    let cfg = config();
    assert!(matches!(
        handle_client_message(&mut core, &cfg, &a, ControlFrame::Ping { timestamp: 42 }),
        FrameStep::Reply(ControlFrame::Pong { timestamp: 42 })
    ));
    assert!(matches!(
        handle_client_message(&mut core, &cfg, &a, ControlFrame::Pong { timestamp: 43 }),
        FrameStep::Heard(43)
    ));
    assert!(matches!(
        handle_client_message(&mut core, &cfg, &a, ControlFrame::AuthError { message: "x".to_string() }),
        FrameStep::Ignore
    ));
}

#[test]
fn pings_and_pongs_are_signs_of_life() {
    let mut core = make_core();
    let (a, b) = (session(&mut core), session(&mut core));
    let cfg = config();
    let before = core.session(&b).unwrap().last_heartbeat;
    let ping = ControlFrame::Ping { timestamp: 1 };
    handle_client_message_with(&mut core, &cfg, &a, ping, 1, 0, 70_000_000_000);
    assert_eq!(core.session(&a).unwrap().last_heartbeat, 70_000_000_000);
    let pong = ControlFrame::Pong { timestamp: 2 };
    handle_client_message_with(&mut core, &cfg, &a, pong, 1, 0, 80_000_000_000);
    assert_eq!(core.session(&a).unwrap().last_heartbeat, 80_000_000_000);
    let other = ControlFrame::AuthError { message: "x".to_string() };
    handle_client_message_with(&mut core, &cfg, &a, other, 1, 0, 90_000_000_000);
    assert_eq!(core.session(&a).unwrap().last_heartbeat, 80_000_000_000);
    assert_eq!(core.session(&b).unwrap().last_heartbeat, before);
    // A session that is gone is not brought back.
    let ping = ControlFrame::Ping { timestamp: 3 };
    handle_client_message_with(&mut core, &cfg, &77, ping, 1, 0, 90_000_000_000);
    assert!(core.session(&77).is_none());
}

#[test]
fn closing_a_tunnel_reports_its_counters() {
    let mut core = make_core();
    let cfg = config();
    let a = session(&mut core);
    let (ta, _, port, _) = granted(register_tunnel(&mut core, &cfg, &a, request(TunnelProtocol::Tcp)).reply);
    core.resolve_tcp(port.unwrap()).unwrap();
    core.add_bytes_proxied(&ta, 700);
    let counters = ClosedTunnel { tunnel_id: ta, request_count: 1, bytes_proxied: 700 };
    assert_eq!(remaining_tunnels(&core, &a), vec![counters]);
    match handle_client_message(&mut core, &cfg, &a, ControlFrame::UnregisterTunnel { tunnel_id: ta }) {
        FrameStep::Closed(c) => assert_eq!(c, counters),
        other => panic!("{other:?}"),
    }
    assert!(core.tcp_routes.is_empty());
    // The session remembers what it has registered; the counters went with the tunnel.
    let gone = ClosedTunnel { tunnel_id: ta, request_count: 0, bytes_proxied: 0 };
    assert_eq!(remaining_tunnels(&core, &a), vec![gone]);
    assert!(remaining_tunnels(&core, &77).is_empty());
}

#[test]
fn a_frame_for_a_tunnel_goes_through_the_gate() {
    let mut core = make_core();
    let a = session(&mut core);
    let frame = ControlFrame::RegisterTunnel(request(TunnelProtocol::Http));
    match handle_client_message(&mut core, &config(), &a, frame) {
        FrameStep::Gate(r) => assert_eq!(r.request_id, "r1"),
        other => panic!("{other:?}"),
    }
    assert!(core.http_routes.is_empty());
}

/// Registers a member of a pool for a session of its own.
fn join_pool(core: &mut TunnelCore, protocol: TunnelProtocol, label: Option<&str>, group: &str) -> (u128, Option<u16>) {
    let sid = session(core);
    let asked = RegisterRequest {
        subdomain: label.map(|l| l.to_string()),
        group: Some(group.to_string()),
        group_key_hash: Some("deadbeef".repeat(8)),
        ..request(protocol)
    };
    let (_, url, port, _) = granted(register_tunnel(core, &config(), &sid, asked).reply);
    if let Some(l) = label {
        assert_eq!(url, format!("http://{l}.tunnel.test"));
    }
    (sid, port)
}

#[test]
fn http_group_random_dispatch_distributes_across_two_members() {
    let mut core = make_core();
    let (a, _) = join_pool(&mut core, TunnelProtocol::Http, Some("pool"), "web");
    let (b, _) = join_pool(&mut core, TunnelProtocol::Http, Some("pool"), "web");
    let (mut hits_a, mut hits_b) = (0u64, 0u64);
    for _ in 0..200 {
        match core.resolve_http("pool").unwrap().session_id {
            s if s == a => hits_a += 1,
            s if s == b => hits_b += 1,
            other => panic!("unexpected session: {other}"),
        }
    }
    assert_eq!(hits_a + hits_b, 200);
    assert!((40..=160).contains(&hits_a), "A={hits_a}, B={hits_b}");
    assert!((40..=160).contains(&hits_b), "A={hits_a}, B={hits_b}");
}

#[test]
fn tcp_group_random_dispatch_distributes_across_two_members() {
    let mut core = make_core();
    let (a, port_a) = join_pool(&mut core, TunnelProtocol::Tcp, None, "ssh");
    let (b, port_b) = join_pool(&mut core, TunnelProtocol::Tcp, None, "ssh");
    assert_eq!(port_a, port_b, "second TCP group member must reuse the first's port");
    let (mut hits_a, mut hits_b) = (0u64, 0u64);
    for _ in 0..60 {
        match core.resolve_tcp(port_a.unwrap()).unwrap().session_id {
            s if s == a => hits_a += 1,
            s if s == b => hits_b += 1,
            other => panic!("unexpected session: {other}"),
        }
    }
    assert_eq!(hits_a + hits_b, 60);
    assert!((12..=48).contains(&hits_a), "A={hits_a}, B={hits_b}");
    assert!((12..=48).contains(&hits_b), "A={hits_a}, B={hits_b}");
}
