use hyper::header::HeaderValue;
use hyper::HeaderMap;
use rustunnel_server::address::IpAddr;
use rustunnel_server::admin::{
    admin_get_user, admin_patch_token, admin_platform_usage, admin_update_user,
    admin_users_over_time, default_admin_limit, default_limit, default_uot_days, delete_token,
    page, status_handler, token_created, users_over_time, HistoryQuery, PlatformUsage, TokenAudit,
    UserOverTimeEntry,
};
use rustunnel_server::api::{
    bearer_token, force_close_tunnel, get_tunnel, get_tunnel_with, group_events_sse,
    is_admin_request, open_group_stream, recent_requests, replay_request, require_admin,
    require_auth, scope_of_token, tells_event, tunnel_health_events, tunnel_p2p_peers, tunnel_requests,
    tunnel_udp_sessions, AuthCheck, GroupNews, SSE_KEEP_ALIVE_SECS, SSE_KEEP_ALIVE_TEXT,
};
use rustunnel_server::auth::AuthFailureLimiter;
use rustunnel_server::clock::{millis_of, now_ms, Clock};
use rustunnel_server::db::create_token_with;
use rustunnel_server::group::GroupSpec;
use rustunnel_server::protocol::{HealthCheckKind, HealthCheckSpec, TunnelProtocol};
use rustunnel_server::router::{TunnelCore, TunnelKey};
use rustunnel_server::scope::{
    find_tunnel_owning_session, live_tunnels, scope_sees_session, visible_tunnels, AuthScope,
};
use rustunnel_server::session::TokenFacts;
use rustunnel_server::summary::{
    group_summary_ref, list_groups, list_groups_with, list_tunnels, list_tunnels_with,
};

const USER_A: u128 = 0xa;
const USER_B: u128 = 0xb;

fn make_core() -> TunnelCore {
    TunnelCore::new([20000, 20009], [21000, 21003], 9, 100, 1000)
}

fn session_of(core: &mut TunnelCore, token: Option<&str>, user: Option<u128>) -> u128 {
    core.register_session(
        "10.1.2.3:4".to_string(),
        "t".to_string(),
        token.map(|t| t.to_string()),
        user,
    )
}

fn http(core: &mut TunnelCore, sid: &u128, label: &str) -> u128 {
    core.register_http_tunnel(sid, Some(label.to_string()), TunnelProtocol::Http, None).unwrap().0
}

fn spec(name: &str, key: &str, probe: Option<HealthCheckSpec>) -> Option<GroupSpec> {
    Some(GroupSpec {
        group_name: name.to_string(),
        key_hash: key.to_string(),
        health_check: probe,
    })
}

fn probe() -> HealthCheckSpec {
    HealthCheckSpec {
        kind: HealthCheckKind::Http,
        interval_secs: 10,
        timeout_secs: 3,
        max_failed: 3,
        http_path: Some("/health".to_string()),
        http_expect_2xx: true,
        alert_webhook_url: Some("http://hook".to_string()),
    }
}

/// A name that nothing else has.
fn fresh(prefix: &str) -> String {
    format!("{prefix}-{}", uuid::Uuid::new_v4())
}

fn id_text(id: u128) -> String {
    uuid::Uuid::from_u128(id).to_string()
}

fn ids_seen(core: &TunnelCore, scope: &AuthScope) -> Vec<u128> {
    let mut ids: Vec<u128> = visible_tunnels(core, scope).into_iter().map(|r| r.1).collect();
    ids.sort();
    ids
}

fn sorted(mut ids: Vec<u128>) -> Vec<u128> {
    ids.sort();
    ids
}

fn headers(auth: Option<&str>) -> HeaderMap {
    let mut h = HeaderMap::new();
    if let Some(a) = auth {
        h.insert("authorization", HeaderValue::from_str(a).unwrap());
    }
    h
}

// ── who asks ─────────────────────────────────────────────────────────────────

#[test]
fn missing_or_invalid_token_returns_401() {
    for h in [headers(None), headers(Some("Bearer ")), headers(Some("Basic abc")), headers(Some("Bearer"))] {
        match require_auth(&h, "admin", false) {
            AuthCheck::Refused(r) => {
                assert_eq!(r.error.status, 401);
                assert_eq!(r.error.error, "missing token");
                assert!(!r.failed, "nothing was shown");
            }
            other => panic!("{other:?}"),
        }
    }
    match require_auth(&headers(Some("Bearer not-a-token")), "admin", false) {
        AuthCheck::LookUp(t) => assert_eq!(t, "not-a-token"),
        other => panic!("{other:?}"),
    }
    let r = scope_of_token(None).unwrap_err();
    assert_eq!((r.error.status, r.error.error.as_str()), (401, "invalid token"));
    assert!(r.failed);
}

#[test]
fn callers_with_too_many_failures_are_turned_away_whatever_they_show() {
    for h in [headers(None), headers(Some("Bearer admin")), headers(Some("Bearer other"))] {
        match require_auth(&h, "admin", true) {
            AuthCheck::Refused(r) => {
                assert_eq!(r.error.status, 429);
                assert_eq!(r.error.error, "too many failed attempts");
                assert!(!r.failed, "that counts no further");
            }
            other => panic!("{other:?}"),
        }
        let r = require_admin(&h, "admin", true).unwrap_err();
        assert_eq!((r.error.status, r.failed), (429, false));
        assert!(!is_admin_request(&h, "admin", true));
    }
}

#[test]
fn failed_attempts_run_into_the_limit() {
    let ip = IpAddr::V4(0x0a00_0001);
    let mut limiter = AuthFailureLimiter::new(3);
    let mut answers = Vec::new();
    for _ in 0..5 {
        let limited = limiter.is_limited(ip);
        let r = require_admin(&headers(Some("Bearer other")), "admin", limited).unwrap_err();
        if r.failed {
            limiter.record_failure(ip);
        }
        answers.push(r.error.status);
    }
    assert_eq!(answers, vec![401, 401, 401, 429, 429]);
    // Nobody else is held to that.
    assert!(!limiter.is_limited(IpAddr::V4(0x0a00_0002)));
}

#[test]
fn admin_token_is_known_without_the_database() {
    match require_auth(&headers(Some("Bearer admin")), "admin", false) {
        AuthCheck::Known(scope) => assert!(scope.is_admin()),
        other => panic!("{other:?}"),
    }
    assert!(is_admin_request(&headers(Some("Bearer admin")), "admin", false));
    assert!(!is_admin_request(&headers(Some("Bearer other")), "admin", false));
    assert!(!is_admin_request(&headers(None), "admin", false));
    assert!(require_admin(&headers(Some("Bearer admin")), "admin", false).is_ok());
    let r = require_admin(&headers(Some("Bearer other")), "admin", false).unwrap_err();
    assert_eq!((r.error.status, r.error.error.as_str()), (401, "admin token required"));
    assert!(r.failed);
    let r = require_admin(&headers(None), "admin", false).unwrap_err();
    assert_eq!((r.error.status, r.failed), (401, false));
}

#[test]
fn tokens_are_scoped_to_their_user_or_to_themselves() {
    let facts = |user| TokenFacts {
        id: "tok".to_string(),
        status: "active".to_string(),
        unlimited: false,
        expires_at: None,
        user_id: user,
    };
    assert!(matches!(scope_of_token(Some(facts(Some(7)))), Ok(AuthScope::User(7))));
    assert!(matches!(scope_of_token(Some(facts(None))), Ok(AuthScope::Token(t)) if t == "tok"));
    assert_eq!(bearer_token(Some("Bearer x y".to_string())).as_deref(), Some("x y"));
    assert_eq!(bearer_token(Some("bearer x".to_string())), None);
}

// ── what is seen ─────────────────────────────────────────────────────────────

#[test]
fn list_tunnels_filters_to_caller_user() {
    let mut core = make_core();
    let a = session_of(&mut core, Some("a"), Some(USER_A));
    let b = session_of(&mut core, Some("b"), Some(USER_B));
    let tun_a = http(&mut core, &a, &fresh("a"));
    let tun_b = http(&mut core, &b, &fresh("b"));
    assert_eq!(ids_seen(&core, &AuthScope::Admin), sorted(vec![tun_a, tun_b]));
    assert_eq!(ids_seen(&core, &AuthScope::User(USER_A)), vec![tun_a]);
    assert_eq!(ids_seen(&core, &AuthScope::User(USER_B)), vec![tun_b]);
    let rows = list_tunnels(&core, &AuthScope::User(USER_A), "test");
    assert_eq!(rows.len(), 1);
    assert_eq!(rows[0].tunnel_id, id_text(tun_a));
}

#[test]
fn legacy_token_sees_only_its_own_tunnels() {
    let mut core = make_core();
    let a = session_of(&mut core, Some("legacy"), None);
    let b = session_of(&mut core, Some("other-legacy"), None);
    let tun_a = http(&mut core, &a, &fresh("l"));
    http(&mut core, &b, &fresh("o"));
    assert_eq!(ids_seen(&core, &AuthScope::Token("legacy".to_string())), vec![tun_a]);
}

#[test]
fn end_to_end_user_token_pipeline() {
    let mut core = make_core();
    let admin = session_of(&mut core, None, None);
    let user = session_of(&mut core, Some("e2e"), Some(USER_A));
    http(&mut core, &admin, &fresh("foreign"));
    let mine = http(&mut core, &user, &fresh("user"));
    assert_eq!(ids_seen(&core, &AuthScope::User(USER_A)), vec![mine]);
    assert!(scope_sees_session(&core, &AuthScope::Admin, &admin));
    assert!(!scope_sees_session(&core, &AuthScope::User(USER_A), &admin));
    assert!(!scope_sees_session(&core, &AuthScope::User(USER_A), &12345));
}

#[test]
fn get_tunnel_returns_404_for_other_tenant() {
    let mut core = make_core();
    let a = session_of(&mut core, Some("a"), Some(USER_A));
    session_of(&mut core, Some("b"), Some(USER_B));
    let tun = http(&mut core, &a, &fresh("a"));
    let id = id_text(tun);
    let other = AuthScope::User(USER_B);
    let e = get_tunnel(&core, &other, &id, "eu").unwrap_err();
    assert_eq!((e.status, e.error.as_str()), (404, "tunnel not found"));
    assert!(get_tunnel(&core, &AuthScope::User(USER_A), &id, "eu").is_ok());
    assert_eq!(tunnel_health_events(&core, &other, &id).unwrap_err().status, 404);
    assert_eq!(tunnel_udp_sessions(&core, &other, &id).unwrap_err().status, 404);
    assert_eq!(tunnel_requests(&core, &other, &id).unwrap_err().status, 404);
    assert!(tunnel_requests(&core, &AuthScope::User(USER_A), &id).is_ok());
    // Like one that is not there.
    let absent = id_text(99);
    let e = get_tunnel(&core, &other, &absent, "eu").unwrap_err();
    assert_eq!((e.status, e.error.as_str()), (404, "tunnel not found"));
    assert_eq!(get_tunnel(&core, &AuthScope::Admin, "nonsense", "eu").unwrap_err().status, 404);
}

#[test]
fn a_tunnel_is_asked_for_in_the_form_in_which_it_is_shown() {
    let mut core = make_core();
    let a = session_of(&mut core, None, None);
    let tun = http(&mut core, &a, "aaa");
    let shown = id_text(tun);
    assert!(get_tunnel(&core, &AuthScope::Admin, &shown, "eu").is_ok());
    let bare = shown.replace('-', "");
    assert_eq!(get_tunnel(&core, &AuthScope::Admin, &bare, "eu").unwrap_err().status, 404);
    // The other questions read every form.
    assert!(tunnel_health_events(&core, &AuthScope::Admin, &bare).is_ok());
    assert!(tunnel_health_events(&core, &AuthScope::Admin, &format!("urn:uuid:{shown}")).is_ok());
}

#[test]
fn force_close_blocked_for_other_tenant() {
    let mut core = make_core();
    let a = session_of(&mut core, Some("a"), Some(USER_A));
    session_of(&mut core, Some("b"), Some(USER_B));
    let label = fresh("a");
    let tun = http(&mut core, &a, &label);
    let id = id_text(tun);
    let e = force_close_tunnel(&mut core, &AuthScope::User(USER_B), &id).unwrap_err();
    assert_eq!((e.status, e.error.as_str()), (404, "tunnel not found"));
    assert!(
        core.http_routes.iter().any(|e| e.value().members.contains_key(&tun)),
        "tunnel must still be live"
    );
    assert!(force_close_tunnel(&mut core, &AuthScope::User(USER_A), &id).is_ok());
    assert!(!core.http_routes.contains_key(&label));
    // The operator may close what is not there.
    assert!(force_close_tunnel(&mut core, &AuthScope::Admin, &id).is_ok());
    let e = force_close_tunnel(&mut core, &AuthScope::Admin, "xyz").unwrap_err();
    assert_eq!((e.status, e.error.as_str()), (404, "invalid tunnel id"));
}

#[test]
fn captured_requests_of_a_tunnel_that_is_gone_are_the_operators() {
    let core = make_core();
    assert!(tunnel_requests(&core, &AuthScope::Admin, &id_text(9)).is_ok());
    assert!(tunnel_requests(&core, &AuthScope::Admin, "nonsense").is_ok());
    assert!(tunnel_requests(&core, &AuthScope::User(1), &id_text(9)).is_err());
    assert!(tunnel_requests(&core, &AuthScope::User(1), "nonsense").is_err());
}

#[test]
fn recent_requests_come_newest_first() {
    assert_eq!(recent_requests(4, 2), vec![3, 2]);
    assert_eq!(recent_requests(2, 50), vec![1, 0]);
    assert_eq!(recent_requests(2, -1), vec![1, 0]);
    assert!(recent_requests(2, 0).is_empty());
    assert!(recent_requests(0, 5).is_empty());
}

#[test]
fn replay_needs_a_request_of_that_tunnel() {
    assert!(replay_request(Some("t".to_string()), "t").is_ok());
    let e = replay_request(Some("u".to_string()), "t").unwrap_err();
    assert_eq!((e.status, e.error.as_str()), (404, "request does not belong to this tunnel"));
    let e = replay_request(None, "t").unwrap_err();
    assert_eq!(e.error, "request not found");
}

// ── rows ─────────────────────────────────────────────────────────────────────

#[test]
fn rows_show_where_a_tunnel_is_and_since_when() {
    let mut core = make_core();
    let a = session_of(&mut core, None, None);
    let tun = http(&mut core, &a, "aaa");
    core.register_tcp_tunnel(&a, None).unwrap();
    core.register_udp_tunnel(&a).unwrap();
    let p2p = core.register_p2p_tunnel(&a, "svc".to_string(), "h".to_string()).unwrap().0;
    core.update_p2p_nat_info(&p2p, "cone".to_string(), vec!["1.2.3.4:5".to_string()]);
    core.resolve_http("aaa").unwrap();
    core.add_bytes_proxied(&tun, 12);
    let created = core.tunnel_info(&tun).unwrap().created_at;
    // A billion seconds and a half, one second after the tunnel was registered.
    let now = Clock { mono: created + 1_000_000_000, unix: 1_000_000_000_500_000_000 };
    let rows = list_tunnels_with(&core, &AuthScope::Admin, "eu", now);
    let shown: Vec<(&str, &str, &str)> = rows
        .iter()
        .map(|r| (r.protocol.as_str(), r.label.as_str(), r.public_url.as_str()))
        .collect();
    assert_eq!(
        shown,
        vec![
            ("http", "aaa", "https://aaa"),
            ("tcp", "20009", "tcp://:20009"),
            ("udp", "21003", "udp://:21003"),
            ("p2p", "svc", "p2p://svc"),
        ]
    );
    assert_eq!(rows[0].connected_since, "2001-09-09T01:46:39+00:00");
    assert_eq!((rows[0].request_count, rows[0].bytes_proxied), (1, 12));
    assert_eq!(rows[0].client_addr, "10.1.2.3:4");
    assert_eq!(rows[0].region_id, "eu");
    assert!(rows[0].group.is_none() && rows[0].healthy && rows[0].nat_type.is_none());
    assert_eq!(rows[3].nat_type.as_deref(), Some("cone"));
    assert_eq!(rows[3].mapped_addrs, Some(vec!["1.2.3.4:5".to_string()]));
    let one = get_tunnel_with(&core, &AuthScope::Admin, &id_text(tun), "eu", now).unwrap();
    assert_eq!(one.connected_since, rows[0].connected_since);
    let peer = tunnel_p2p_peers(&core, &AuthScope::Admin, &id_text(p2p)).unwrap();
    assert_eq!((peer.tunnel_name.as_str(), peer.publisher_session_id), ("svc", id_text(a)));
    assert!(tunnel_p2p_peers(&core, &AuthScope::Admin, &id_text(tun)).is_err());
    let e = tunnel_p2p_peers(&core, &AuthScope::User(1), &id_text(p2p)).unwrap_err();
    assert_eq!(e.error, "P2P tunnel not found");
}

#[test]
fn udp_tunnels_are_shown_with_their_port() {
    let mut core = make_core();
    let a = session_of(&mut core, Some("t"), Some(USER_A));
    let (id, port) = core.register_udp_tunnel(&a).unwrap();
    let row = tunnel_udp_sessions(&core, &AuthScope::User(USER_A), &id_text(id)).unwrap();
    assert_eq!((row.port, row.protocol.as_str(), row.tunnel_id), (port, "udp", id_text(id)));
    let e = tunnel_udp_sessions(&core, &AuthScope::User(USER_B), &id_text(id)).unwrap_err();
    assert_eq!((e.status, e.error.as_str()), (404, "UDP tunnel not found"));
    let tun = http(&mut core, &a, "aaa");
    assert!(tunnel_udp_sessions(&core, &AuthScope::Admin, &id_text(tun)).is_err());
}

#[test]
fn the_first_event_of_a_member_says_registered() {
    let mut core = make_core();
    let a = session_of(&mut core, None, None);
    for (label, check) in [("trusted", None), ("probed", Some(probe()))] {
        let healthy = check.is_none();
        let (tun, _) = core
            .register_http_tunnel(
                &a,
                Some(label.to_string()),
                TunnelProtocol::Http,
                spec("web", label, check),
            )
            .unwrap();
        let rows = tunnel_health_events(&core, &AuthScope::Admin, &id_text(tun)).unwrap();
        assert_eq!(rows.len(), 1);
        assert_eq!((rows[0].healthy, rows[0].reason.as_str()), (healthy, "registered"));
    }
}

#[test]
fn health_history_is_shown_with_its_times() {
    let mut core = make_core();
    let a = session_of(&mut core, None, None);
    let tun = http(&mut core, &a, "aaa");
    core.set_tunnel_unhealthy_at(&tun, "refused", 1_000_000_000_250_000_000);
    core.set_tunnel_healthy_at(&tun, 1_000_000_001_000_000_000);
    let rows = tunnel_health_events(&core, &AuthScope::Admin, &id_text(tun)).unwrap();
    assert_eq!(rows.len(), 2);
    assert_eq!(rows[0].at, "2001-09-09T01:46:40.250+00:00");
    assert_eq!((rows[0].healthy, rows[0].reason.as_str()), (false, "refused"));
    assert_eq!(rows[1].at, "2001-09-09T01:46:41+00:00");
    let e = tunnel_health_events(&core, &AuthScope::Admin, "zzz").unwrap_err();
    assert_eq!(e.error, "invalid tunnel id");
    let p2p = core.register_p2p_tunnel(&a, "svc".to_string(), "h".to_string()).unwrap().0;
    let e = tunnel_health_events(&core, &AuthScope::Admin, &id_text(p2p)).unwrap_err();
    assert_eq!(e.error, "tunnel not found");
}

// ── groups ───────────────────────────────────────────────────────────────────

#[test]
fn list_groups_filters_to_caller_user() {
    let mut core = make_core();
    let a = session_of(&mut core, Some("a"), Some(USER_A));
    let b = session_of(&mut core, Some("b"), Some(USER_B));
    let (sub_a, sub_b) = (fresh("sub-a"), fresh("sub-b"));
    let group_a = spec(&fresh("group-a"), &fresh("hash-a"), None);
    let group_b = spec(&fresh("group-b"), &fresh("hash-b"), None);
    core.register_http_tunnel(&a, Some(sub_a.clone()), TunnelProtocol::Http, group_a).unwrap();
    core.register_http_tunnel(&b, Some(sub_b.clone()), TunnelProtocol::Http, group_b).unwrap();
    let mut labels: Vec<String> =
        list_groups(&core, &AuthScope::Admin, "test").into_iter().map(|g| g.label).collect();
    labels.sort();
    assert_eq!(labels, vec![sub_a.clone(), sub_b]);
    let rows = list_groups(&core, &AuthScope::User(USER_A), "test");
    assert_eq!(rows.len(), 1);
    assert_eq!(rows[0].label, sub_a);
    assert_eq!(rows[0].member_count, 1);
    assert_eq!(rows[0].members.len(), 1);
}

#[test]
fn shared_groups_count_only_what_the_caller_sees() {
    let mut core = make_core();
    let a = session_of(&mut core, Some("tok-a"), Some(USER_A));
    let b = session_of(&mut core, Some("tok-b"), Some(USER_B));
    let s = || spec("web", "0123456789", None);
    let (ta, _) = core.register_http_tunnel(&a, Some("pool".to_string()), TunnelProtocol::Http, s()).unwrap();
    let (tb, _) = core.register_http_tunnel(&b, Some("pool".to_string()), TunnelProtocol::Http, spec("web", "0123456789", Some(probe()))).unwrap();
    core.resolve_http("pool").unwrap();
    core.set_tunnel_unhealthy(&tb, "x");
    core.set_tunnel_unhealthy(&tb, "x");
    let now = Clock { mono: 0, unix: 0 };
    let all = list_groups_with(&core, &AuthScope::Admin, "eu", now);
    assert_eq!(all.len(), 1);
    assert_eq!((all[0].member_count, all[0].healthy_count, all[0].unhealthy_count), (2, 1, 1));
    assert_eq!((all[0].total_dispatches, all[0].total_health_failures), (1, 2));
    assert_eq!((all[0].name.as_str(), all[0].key_hash_short.as_str()), ("web", "01234567"));
    assert_eq!((all[0].protocol.as_str(), all[0].region_id.as_str()), ("http", "eu"));
    let mine = list_groups_with(&core, &AuthScope::User(USER_A), "eu", now);
    assert_eq!((mine[0].member_count, mine[0].healthy_count, mine[0].unhealthy_count), (1, 1, 0));
    assert_eq!((mine[0].total_dispatches, mine[0].total_health_failures), (1, 0));
    assert_eq!(mine[0].members[0].tunnel_id, id_text(ta));
    assert_eq!(mine[0].members[0].session_id, id_text(a));
    let theirs = list_groups_with(&core, &AuthScope::User(USER_B), "eu", now);
    assert_eq!(theirs[0].members[0].health_check_kind.as_deref(), Some("http"));
    assert!(theirs[0].members[0].has_alert_webhook);
    assert!(!mine[0].members[0].has_alert_webhook);
    assert_eq!(mine[0].members[0].health_check_kind, None);
    assert!(list_groups_with(&core, &AuthScope::User(3), "eu", now).is_empty());
    let r = group_summary_ref(&core.http_routes.get("pool").unwrap()).unwrap();
    assert_eq!((r.member_count, r.healthy_count), (2, 1));
}

#[test]
fn lone_tunnels_are_no_groups() {
    let mut core = make_core();
    let a = session_of(&mut core, None, None);
    http(&mut core, &a, "aaa");
    core.register_tcp_tunnel(&a, spec("ssh", "k", None)).unwrap();
    let rows = list_groups(&core, &AuthScope::Admin, "eu");
    assert_eq!(rows.len(), 1);
    assert_eq!((rows[0].protocol.as_str(), rows[0].label.as_str()), ("tcp", "20009"));
    assert!(group_summary_ref(&core.http_routes.get("aaa").unwrap()).is_none());
}

#[test]
fn sse_emits_group_event_on_health_flip() {
    let mut core = make_core();
    let a = session_of(&mut core, Some("t"), Some(USER_A));
    let b = session_of(&mut core, Some("t"), Some(USER_A));
    let key = "deadbeef".repeat(8);
    let pool = || Some("ssepool".to_string());
    let (tid, _) = core
        .register_http_tunnel(&a, pool(), TunnelProtocol::Http, spec("web", &key, None))
        .unwrap();
    core.register_http_tunnel(&b, pool(), TunnelProtocol::Http, spec("web", &key, None)).unwrap();
    assert!(open_group_stream(&core, &AuthScope::Admin, "http", "ssepool").is_ok());
    assert!(open_group_stream(&core, &AuthScope::User(USER_A), "http", "ssepool").is_ok());
    core.set_tunnel_unhealthy(&tid, "synthetic SSE test");
    let events = core.take_group_events();
    assert_eq!(events.len(), 1);
    let e = &events[0];
    assert_eq!((e.protocol.as_str(), e.label.as_str()), ("http", "ssepool"));
    assert_eq!((e.healthy, e.healthy_count, e.member_count), (false, 1, 2));
    assert_eq!(e.reason, "synthetic SSE test");
    assert_eq!(e.tunnel_id, tid);
    assert!(tells_event(&core, &AuthScope::User(USER_A), "http", "ssepool", e));
    assert!(tells_event(&core, &AuthScope::Admin, "http", "ssepool", e));
    assert!(!tells_event(&core, &AuthScope::User(USER_B), "http", "ssepool", e));
    assert!(!tells_event(&core, &AuthScope::Admin, "http", "other", e));
    assert!(!tells_event(&core, &AuthScope::Admin, "tcp", "ssepool", e));
    let send = |scope: &AuthScope, label: &str, news| {
        group_events_sse(&core, scope, "http", label, news).map(|item| (item.event, item.data))
    };
    let event = |payload: Option<&str>| GroupNews::Event {
        event: e,
        payload: payload.map(|p| p.to_string()),
    };
    let told = Some(("group_event".to_string(), "{}".to_string()));
    assert_eq!(send(&AuthScope::Admin, "ssepool", event(Some("{}"))), told);
    assert_eq!(send(&AuthScope::User(USER_A), "ssepool", event(Some("{}"))), told);
    assert_eq!(send(&AuthScope::User(USER_B), "ssepool", event(Some("{}"))), None);
    assert_eq!(send(&AuthScope::Admin, "other", event(Some("{}"))), None);
    assert_eq!(send(&AuthScope::Admin, "ssepool", event(None)), None, "it cannot be written");
    let lagged = Some(("lagged".to_string(), "17".to_string()));
    assert_eq!(send(&AuthScope::User(USER_B), "other", GroupNews::Lagged(17)), lagged);
    assert_eq!((SSE_KEEP_ALIVE_SECS, SSE_KEEP_ALIVE_TEXT), (30, "keep-alive"));
    // A report that flips nothing is no event.
    core.set_tunnel_unhealthy(&tid, "again");
    assert!(core.take_group_events().is_empty());
}

#[test]
fn streams_of_hidden_groups_are_not_there() {
    let mut core = make_core();
    let a = session_of(&mut core, Some("t"), Some(USER_A));
    let (_, port) = core.register_tcp_tunnel(&a, spec("ssh", "k", None)).unwrap();
    assert!(open_group_stream(&core, &AuthScope::User(USER_A), "tcp", &port.to_string()).is_ok());
    let e = open_group_stream(&core, &AuthScope::User(USER_B), "tcp", &port.to_string()).unwrap_err();
    assert_eq!((e.status, e.error.as_str()), (404, "group not found"));
    for (protocol, label) in [("tcp", "x"), ("tcp", "70000"), ("http", "none"), ("udp", "1")] {
        assert!(open_group_stream(&core, &AuthScope::User(USER_A), protocol, label).is_err());
        assert!(open_group_stream(&core, &AuthScope::Admin, protocol, label).is_ok());
    }
}

// ── the server as a whole ────────────────────────────────────────────────────

#[test]
fn status_counts_members_at_subdomains_and_tcp_ports() {
    let mut core = make_core();
    let a = session_of(&mut core, None, None);
    let b = session_of(&mut core, None, None);
    http(&mut core, &a, "aaa");
    core.register_tcp_tunnel(&a, spec("ssh", "k", None)).unwrap();
    core.register_tcp_tunnel(&b, spec("ssh", "k", None)).unwrap();
    core.register_udp_tunnel(&a).unwrap();
    let s = status_handler(&core);
    assert_eq!((s.active_sessions, s.active_tunnels), (2, 3));
    assert_eq!(live_tunnels(&core), 3);
    let usage = PlatformUsage {
        active_tunnels_global: 77,
        tunnels_today: 1,
        active_users: 2,
        bandwidth_today_bytes: 3,
        total_users: 4,
    };
    // The usage of the platform is the database's, not this server's.
    let u = admin_platform_usage(Ok(usage)).unwrap();
    assert_eq!((u.active_tunnels_global, u.tunnels_today, u.active_users), (77, 1, 2));
    assert_eq!((u.bandwidth_today_bytes, u.total_users), (3, 4));
    let e = admin_platform_usage(Err("gone".to_string())).err().unwrap();
    assert_eq!((e.status, e.error.as_str()), (500, "gone"));
}

#[test]
fn owners_are_found_across_the_tables() {
    let mut core = make_core();
    let a = session_of(&mut core, None, None);
    let t1 = http(&mut core, &a, "aaa");
    let (t2, port) = core.register_udp_tunnel(&a).unwrap();
    let (t3, _) = core.register_p2p_tunnel(&a, "svc".to_string(), "h".to_string()).unwrap();
    for t in [t1, t2, t3] {
        assert_eq!(find_tunnel_owning_session(&core, &t), Some(a));
    }
    assert_eq!(find_tunnel_owning_session(&core, &1), None);
    assert!(matches!(core.find_route(&t2), Some(TunnelKey::Udp(p)) if p == port));
    assert!(matches!(core.find_route(&t3), Some(TunnelKey::P2p(n)) if n == "svc"));
}

#[test]
fn token_changes_are_written_down() {
    let (record, _raw) = create_token_with("ci", None, 1, 2);
    match token_created(&record, true) {
        TokenAudit::Created { token_id, label, admin } => {
            assert_eq!((token_id, label.as_str(), admin), (id_text(1), "ci", true))
        }
        other => panic!("{other:?}"),
    }
    match delete_token(true, "x".to_string(), false) {
        Ok(TokenAudit::Deleted { token_id, admin }) => assert_eq!((token_id.as_str(), admin), ("x", false)),
        other => panic!("{other:?}"),
    }
    assert_eq!(delete_token(false, "x".to_string(), false).unwrap_err().error, "token not found");
    assert!(admin_patch_token(true).is_ok());
    assert_eq!(admin_patch_token(false).unwrap_err().status, 404);
}

#[test]
fn users_are_named_by_id_and_given_known_states() {
    assert_eq!(admin_get_user(&id_text(5)).unwrap(), 5);
    let e = admin_get_user("five").unwrap_err();
    assert_eq!((e.status, e.error.as_str()), (404, "invalid user id"));
    assert_eq!(admin_update_user("banned", &id_text(5)).unwrap(), 5);
    let e = admin_update_user("gone", "five").unwrap_err();
    assert_eq!(e.status, 400);
    assert_eq!(e.error, "status must be one of: active, banned, suspended");
    assert_eq!(admin_update_user("active", "five").unwrap_err().status, 404);
}

#[test]
fn pages_need_both_answers_of_the_database() {
    assert_eq!(page(Ok(vec![1, 2]), Ok(9)).unwrap(), (vec![1, 2], 9));
    let e = page::<u8>(Err("rows".to_string()), Err("count".to_string())).unwrap_err();
    assert_eq!((e.status, e.error.as_str()), (500, "rows"));
    let e = page::<u8>(Ok(vec![]), Err("count".to_string())).unwrap_err();
    assert_eq!(e.error, "count");
}

#[test]
fn sign_ups_are_shown_as_the_database_has_them() {
    let day = |date: &str, count| UserOverTimeEntry { date: date.to_string(), count };
    let shown = users_over_time(Ok(vec![day("2026-01-31", 0), day("2026-02-01", 3)])).unwrap();
    let shown: Vec<(&str, i64)> = shown.iter().map(|e| (e.date.as_str(), e.count)).collect();
    assert_eq!(shown, vec![("2026-01-31", 0), ("2026-02-01", 3)]);
    let e = users_over_time(Err("gone".to_string())).err().unwrap();
    assert_eq!((e.status, e.error.as_str()), (500, "gone"));
}

#[test]
fn milliseconds_are_whole_ones() {
    assert_eq!(millis_of(1_999_999), 1);
    assert_eq!(millis_of(1_700_000_000_123_456_789), 1_700_000_000_123);
    // 2020 has passed.
    assert!(now_ms() > 1_577_836_800_000);
}

#[test]
fn what_a_query_does_not_say_is_filled_in() {
    assert_eq!((default_limit(), default_admin_limit(), default_uot_days()), (50, 50, 30));
    assert_eq!(
        [admin_users_over_time(0), admin_users_over_time(30), admin_users_over_time(1000)],
        [1, 30, 365]
    );
    let q = HistoryQuery::new(None, None, None, None, None, None, None);
    assert_eq!((q.limit, q.offset, q.sort_by.as_str(), q.sort_dir.as_str()), (50, 0, "started", "desc"));
    let q = HistoryQuery::new(
        Some(3),
        Some(4),
        Some("tcp".to_string()),
        None,
        Some(true),
        Some("duration".to_string()),
        Some("asc".to_string()),
    );
    assert_eq!((q.limit, q.offset, q.protocol.as_deref(), q.active), (3, 4, Some("tcp"), Some(true)));
    assert_eq!((q.sort_by.as_str(), q.sort_dir.as_str()), ("duration", "asc"));
}
