use rustunnel_server::error::Error;
use rustunnel_server::group::GroupSpec;
use rustunnel_server::protocol::{HealthCheckKind, HealthCheckSpec, TunnelProtocol};
use rustunnel_server::router::{TunnelCore, TunnelKey};
use rustunnel_server::tunnel::TcpTunnelEvent;

fn make_core() -> TunnelCore {
    TunnelCore::new([20000, 20009], [0, 0], 5, 100, 1000)
}

fn dummy_session(core: &mut TunnelCore) -> u128 {
    core.register_session("127.0.0.1:12345".to_string(), "token-1".to_string(), None, None)
}

fn unknown_id() -> u128 {
    uuid::Uuid::new_v4().as_u128()
}

#[test]
fn register_and_remove_session() {
    let mut core = make_core();
    let session_id = dummy_session(&mut core);

    assert!(core.sessions.contains_key(&session_id));

    core.remove_session(&session_id);
    assert!(!core.sessions.contains_key(&session_id));
}

#[test]
fn remove_nonexistent_session_is_noop() {
    let mut core = make_core();
    core.remove_session(&unknown_id()); // must not panic
}

#[test]
fn register_http_tunnel_with_explicit_subdomain() {
    let mut core = make_core();
    let session_id = dummy_session(&mut core);

    let (tunnel_id, subdomain) = core
        .register_http_tunnel(
            &session_id,
            Some("myapp".to_string()),
            TunnelProtocol::Http,
            None,
        )
        .unwrap();

    assert_eq!(subdomain, "myapp");
    assert!(core.http_routes.contains_key("myapp"));
    assert!(core
        .sessions
        .get(&session_id)
        .unwrap()
        .tunnels
        .contains(&tunnel_id));
}

#[test]
fn register_http_tunnel_auto_subdomain() {
    let mut core = make_core();
    let session_id = dummy_session(&mut core);

    let (_, subdomain) = core
        .register_http_tunnel(&session_id, None, TunnelProtocol::Http, None)
        .unwrap();

    assert_eq!(subdomain.len(), 8);
    assert!(subdomain.chars().all(|c| c.is_ascii_hexdigit()));
}

#[test]
fn duplicate_subdomain_is_rejected() {
    let mut core = make_core();
    let session_id = dummy_session(&mut core);

    core.register_http_tunnel(
        &session_id,
        Some("clash".to_string()),
        TunnelProtocol::Http,
        None,
    )
    .unwrap();

    let result = core.register_http_tunnel(
        &session_id,
        Some("clash".to_string()),
        TunnelProtocol::Http,
        None,
    );

    assert!(matches!(result, Err(Error::Tunnel(_))));
}

#[test]
fn remove_http_tunnel() {
    let mut core = make_core();
    let session_id = dummy_session(&mut core);

    let (tunnel_id, _) = core
        .register_http_tunnel(
            &session_id,
            Some("gone".to_string()),
            TunnelProtocol::Http,
            None,
        )
        .unwrap();

    core.remove_tunnel(&tunnel_id);

    assert!(!core.http_routes.contains_key("gone"));
    assert!(!core.tunnel_index.contains_key(&tunnel_id));
}

#[test]
fn register_tcp_tunnel_allocates_port() {
    let mut core = make_core();
    let session_id = dummy_session(&mut core);

    let (tunnel_id, port) = core.register_tcp_tunnel(&session_id, None).unwrap();

    assert!((20000..=20009).contains(&port));
    assert!(core.tcp_routes.contains_key(&port));
    assert!(core
        .sessions
        .get(&session_id)
        .unwrap()
        .tunnels
        .contains(&tunnel_id));
}

#[test]
fn remove_tcp_tunnel_returns_port_to_pool() {
    let mut core = TunnelCore::new([30000, 30000], [0, 0], 5, 100, 1000); // single-port range
    let session_id = dummy_session(&mut core);

    let (tunnel_id, port) = core.register_tcp_tunnel(&session_id, None).unwrap();
    assert_eq!(port, 30000);

    // Pool is now empty — next allocation must fail.
    let session2_id = dummy_session(&mut core);
    assert!(matches!(
        core.register_tcp_tunnel(&session2_id, None),
        Err(Error::NoPortsAvailable)
    ));

    // Return the port.
    core.remove_tunnel(&tunnel_id);

    // Now allocation succeeds again.
    let (_id2, port2) = core.register_tcp_tunnel(&session2_id, None).unwrap();
    assert_eq!(port2, 30000);
}

#[test]
fn no_ports_available_error() {
    let mut core = TunnelCore::new([40000, 40000], [0, 0], 10, 100, 1000);
    let sid1 = dummy_session(&mut core);
    let sid2 = dummy_session(&mut core);

    core.register_tcp_tunnel(&sid1, None).unwrap();

    assert!(matches!(
        core.register_tcp_tunnel(&sid2, None),
        Err(Error::NoPortsAvailable)
    ));
}

#[test]
fn resolve_http_returns_tunnel_and_sender() {
    let mut core = make_core();
    let session_id = dummy_session(&mut core);

    core.register_http_tunnel(
        &session_id,
        Some("web".to_string()),
        TunnelProtocol::Http,
        None,
    )
    .unwrap();

    let info = core.resolve_http("web").unwrap();
    assert_eq!(info.subdomain.as_deref(), Some("web"));
    // request_count was incremented by resolve_http
    assert_eq!(info.request_count, 1);
}

#[test]
fn resolve_http_unknown_subdomain_returns_none() {
    let mut core = make_core();
    assert!(core.resolve_http("no-such").is_none());
}

#[test]
fn resolve_tcp_returns_tunnel_and_sender() {
    let mut core = make_core();
    let session_id = dummy_session(&mut core);

    let (_, port) = core.register_tcp_tunnel(&session_id, None).unwrap();

    let info = core.resolve_tcp(port).unwrap();
    assert_eq!(info.assigned_port, Some(port));
    assert_eq!(info.request_count, 1);
}

#[test]
fn resolve_tcp_unknown_port_returns_none() {
    let mut core = make_core();
    assert!(core.resolve_tcp(9999).is_none());
}

#[test]
fn remove_session_cleans_up_tunnels() {
    let mut core = make_core();
    let session_id = dummy_session(&mut core);

    let (tid, _) = core
        .register_http_tunnel(
            &session_id,
            Some("bye".to_string()),
            TunnelProtocol::Http,
            None,
        )
        .unwrap();
    let (_, port) = core.register_tcp_tunnel(&session_id, None).unwrap();

    core.remove_session(&session_id);

    assert!(!core.sessions.contains_key(&session_id));
    assert!(!core.tunnel_index.contains_key(&tid));
    assert!(!core.http_routes.contains_key("bye"));
    assert!(!core.tcp_routes.contains_key(&port));
}

#[test]
fn tunnel_limit_is_enforced() {
    let mut core = TunnelCore::new([50000, 50009], [0, 0], 2, 100, 1000);
    let session_id = dummy_session(&mut core);

    core.register_http_tunnel(&session_id, None, TunnelProtocol::Http, None)
        .unwrap();
    core.register_http_tunnel(&session_id, None, TunnelProtocol::Http, None)
        .unwrap();

    let result = core.register_http_tunnel(&session_id, None, TunnelProtocol::Http, None);
    assert!(matches!(result, Err(Error::LimitExceeded(_))));
}

#[test]
fn session_not_found_error() {
    let mut core = make_core();
    let ghost = unknown_id();

    assert!(matches!(
        core.register_http_tunnel(&ghost, None, TunnelProtocol::Http, None),
        Err(Error::SessionNotFound(_))
    ));
}

#[test]
fn valid_subdomains_are_accepted() {
    let mut core = make_core();
    let sid = dummy_session(&mut core);
    for s in &["abc", "my-app", "foo123", "a-b-c", "aaa"] {
        let r =
            core.register_http_tunnel(&sid, Some(s.to_string()), TunnelProtocol::Http, None);
        assert!(r.is_ok(), "expected '{s}' to be valid, got {r:?}");
    }
}

#[test]
fn subdomain_too_short_is_rejected() {
    let mut core = make_core();
    let sid = dummy_session(&mut core);
    assert!(matches!(
        core.register_http_tunnel(&sid, Some("ab".to_string()), TunnelProtocol::Http, None),
        Err(Error::Tunnel(_))
    ));
}

#[test]
fn subdomain_leading_hyphen_is_rejected() {
    let mut core = make_core();
    let sid = dummy_session(&mut core);
    assert!(matches!(
        core.register_http_tunnel(&sid, Some("-bad".to_string()), TunnelProtocol::Http, None),
        Err(Error::Tunnel(_))
    ));
}

#[test]
fn subdomain_trailing_hyphen_is_rejected() {
    let mut core = make_core();
    let sid = dummy_session(&mut core);
    assert!(matches!(
        core.register_http_tunnel(&sid, Some("bad-".to_string()), TunnelProtocol::Http, None),
        Err(Error::Tunnel(_))
    ));
}

#[test]
fn subdomain_invalid_chars_are_rejected() {
    let mut core = make_core();
    let sid = dummy_session(&mut core);
    assert!(matches!(
        core.register_http_tunnel(
            &sid,
            Some("bad_name".to_string()),
            TunnelProtocol::Http,
            None
        ),
        Err(Error::Tunnel(_))
    ));
    assert!(matches!(
        core.register_http_tunnel(
            &sid,
            Some("bad.name".to_string()),
            TunnelProtocol::Http,
            None
        ),
        Err(Error::Tunnel(_))
    ));
}

#[test]
fn http_solo_registration_creates_one_member_group() {
    let mut core = make_core();
    let sid = dummy_session(&mut core);
    let (tid, _) = core
        .register_http_tunnel(&sid, Some("solo".into()), TunnelProtocol::Http, None)
        .unwrap();

    let group = core.http_routes.get("solo").unwrap();
    assert_eq!(group.members.len(), 1);
    assert!(group.members.contains_key(&tid));
    assert!(
        group.key_hash.is_none(),
        "no group_key on solo registrations"
    );
    assert_eq!(group.name, "solo");
}
#[test]
fn last_member_removal_evicts_group() {
    let mut core = make_core();
    let sid = dummy_session(&mut core);
    let (tid, _) = core
        .register_http_tunnel(&sid, Some("ephemeral".into()), TunnelProtocol::Http, None)
        .unwrap();
    assert!(core.http_routes.contains_key("ephemeral"));

    core.remove_tunnel(&tid);
    assert!(!core.http_routes.contains_key("ephemeral"));
}
#[test]
fn unhealthy_member_is_excluded_from_dispatch() {
    let mut core = make_core();
    let sid = dummy_session(&mut core);
    let (tid, _) = core
        .register_http_tunnel(&sid, Some("toggle".into()), TunnelProtocol::Http, None)
        .unwrap();

    // Flip the lone member to unhealthy.
    {
        let group = core.http_routes.get("toggle").unwrap();
        let mut member = group.members.get_mut(&tid).unwrap();
        member.healthy = false;
    }

    assert!(
        core.resolve_http("toggle").is_none(),
        "no healthy members → resolve must return None"
    );

    // Mark healthy again → dispatch resumes.
    {
        let group = core.http_routes.get("toggle").unwrap();
        let mut member = group.members.get_mut(&tid).unwrap();
        member.healthy = true;
    }
    assert!(core.resolve_http("toggle").is_some());
}

fn solo_group_spec(name: &str, key: &str) -> GroupSpec {
    GroupSpec {
        group_name: name.to_string(),
        key_hash: key.to_string(),
        health_check: None,
    }
}
#[test]
fn http_group_first_registration_sets_key_hash() {
    let mut core = make_core();
    let sid = dummy_session(&mut core);

    let (tid, _) = core
        .register_http_tunnel(
            &sid,
            Some("pool".into()),
            TunnelProtocol::Http,
            Some(solo_group_spec("web", "hash-A")),
        )
        .unwrap();

    let group = core.http_routes.get("pool").unwrap();
    assert_eq!(group.name, "web");
    assert_eq!(group.key_hash.as_deref(), Some("hash-A"));
    assert_eq!(group.members.len(), 1);
    assert!(group.members.contains_key(&tid));
}
#[test]
fn http_group_second_member_with_matching_key_joins() {
    let mut core = make_core();
    let sid_a = dummy_session(&mut core);
    let sid_b = dummy_session(&mut core);

    let (tid_a, _) = core
        .register_http_tunnel(
            &sid_a,
            Some("pool".into()),
            TunnelProtocol::Http,
            Some(solo_group_spec("web", "hash-A")),
        )
        .unwrap();
    let (tid_b, _) = core
        .register_http_tunnel(
            &sid_b,
            Some("pool".into()),
            TunnelProtocol::Http,
            Some(solo_group_spec("web", "hash-A")),
        )
        .unwrap();

    let group = core.http_routes.get("pool").unwrap();
    assert_eq!(group.members.len(), 2);
    assert!(group.members.contains_key(&tid_a));
    assert!(group.members.contains_key(&tid_b));
    // tunnel_index points each tunnel_id to the same Http(subdomain) key,
    // so per-tunnel counter lookup keeps working.
    assert_eq!(core.get_tunnel_request_count(&tid_a), 0);
    assert_eq!(core.get_tunnel_request_count(&tid_b), 0);
}
#[test]
fn router_http_group_mismatched_key_is_rejected() {
    let mut core = make_core();
    let sid_a = dummy_session(&mut core);
    let sid_b = dummy_session(&mut core);

    core.register_http_tunnel(
        &sid_a,
        Some("pool".into()),
        TunnelProtocol::Http,
        Some(solo_group_spec("web", "hash-A")),
    )
    .unwrap();

    let result = core.register_http_tunnel(
        &sid_b,
        Some("pool".into()),
        TunnelProtocol::Http,
        Some(solo_group_spec("web", "hash-B")),
    );

    assert!(
        matches!(result, Err(Error::Tunnel(ref msg)) if msg.contains("group key does not match"))
    );
    // Group must still hold only the original member.
    assert_eq!(core.http_routes.get("pool").unwrap().members.len(), 1);
}
#[test]
fn http_group_protocol_mismatch_is_rejected() {
    let mut core = make_core();
    let sid_a = dummy_session(&mut core);
    let sid_b = dummy_session(&mut core);

    core.register_http_tunnel(
        &sid_a,
        Some("pool".into()),
        TunnelProtocol::Http,
        Some(solo_group_spec("web", "hash-A")),
    )
    .unwrap();

    let result = core.register_http_tunnel(
        &sid_b,
        Some("pool".into()),
        TunnelProtocol::Https,
        Some(solo_group_spec("web", "hash-A")),
    );

    assert!(matches!(result, Err(Error::Tunnel(ref msg)) if msg.contains("protocol mismatch")));
    assert_eq!(core.http_routes.get("pool").unwrap().members.len(), 1);
}
#[test]
fn http_solo_on_existing_group_is_rejected() {
    let mut core = make_core();
    let sid_a = dummy_session(&mut core);
    let sid_b = dummy_session(&mut core);

    core.register_http_tunnel(
        &sid_a,
        Some("pool".into()),
        TunnelProtocol::Http,
        Some(solo_group_spec("web", "hash-A")),
    )
    .unwrap();

    let result =
        core.register_http_tunnel(&sid_b, Some("pool".into()), TunnelProtocol::Http, None);

    assert!(matches!(result, Err(Error::Tunnel(ref msg)) if msg.contains("already in use")));
}
#[test]
fn http_group_on_existing_solo_is_rejected() {
    let mut core = make_core();
    let sid_a = dummy_session(&mut core);
    let sid_b = dummy_session(&mut core);

    core.register_http_tunnel(&sid_a, Some("pool".into()), TunnelProtocol::Http, None)
        .unwrap();

    let result = core.register_http_tunnel(
        &sid_b,
        Some("pool".into()),
        TunnelProtocol::Http,
        Some(solo_group_spec("web", "hash-A")),
    );

    assert!(
        matches!(result, Err(Error::Tunnel(ref msg)) if msg.contains("group key does not match"))
    );
}
#[test]
fn http_group_removing_one_of_two_members_keeps_route() {
    let mut core = make_core();
    let sid_a = dummy_session(&mut core);
    let sid_b = dummy_session(&mut core);

    let (tid_a, _) = core
        .register_http_tunnel(
            &sid_a,
            Some("pool".into()),
            TunnelProtocol::Http,
            Some(solo_group_spec("web", "hash-A")),
        )
        .unwrap();
    let (tid_b, _) = core
        .register_http_tunnel(
            &sid_b,
            Some("pool".into()),
            TunnelProtocol::Http,
            Some(solo_group_spec("web", "hash-A")),
        )
        .unwrap();

    core.remove_tunnel(&tid_a);

    // Route still exists, group has one member left.
    let group = core.http_routes.get("pool").unwrap();
    assert_eq!(group.members.len(), 1);
    assert!(group.members.contains_key(&tid_b));
    drop(group);
    assert!(core.resolve_http("pool").is_some());
}
#[test]
fn http_group_random_dispatch_distributes_across_members() {
    let mut core = make_core();
    let sid_a = dummy_session(&mut core);
    let sid_b = dummy_session(&mut core);

    let (tid_a, _) = core
        .register_http_tunnel(
            &sid_a,
            Some("lbpool".into()),
            TunnelProtocol::Http,
            Some(solo_group_spec("web", "hash-A")),
        )
        .unwrap();
    let (tid_b, _) = core
        .register_http_tunnel(
            &sid_b,
            Some("lbpool".into()),
            TunnelProtocol::Http,
            Some(solo_group_spec("web", "hash-A")),
        )
        .unwrap();

    // Drive resolve_http() many times. resolve_http internally bumps
    // the chosen member's request_count, so we read those counters.
    const N: u64 = 1_000;
    for _ in 0..N {
        assert!(core.resolve_http("lbpool").is_some());
    }

    let count_a = core.get_tunnel_request_count(&tid_a);
    let count_b = core.get_tunnel_request_count(&tid_b);
    assert_eq!(count_a + count_b, N);

    // With uniform random over 1000 trials and p=0.5, both should land
    // well inside [200, 800] — this gives effectively zero flake rate
    // while still catching a "always picks the same one" regression.
    assert!(
        (200..=800).contains(&count_a),
        "expected ~500 hits on member A, got {count_a} (B got {count_b})"
    );
    assert!(
        (200..=800).contains(&count_b),
        "expected ~500 hits on member B, got {count_b} (A got {count_a})"
    );
}

#[test]
fn tcp_group_first_registration_allocates_port_and_indexes() {
    let mut core = make_core();
    let sid = dummy_session(&mut core);
    core.take_tcp_events();

    let (tid, port) = core
        .register_tcp_tunnel(&sid, Some(solo_group_spec("ssh", "hash-A")))
        .unwrap();

    // Routing entry is in place with the right key_hash.
    let group = core.tcp_routes.get(&port).unwrap();
    assert_eq!(group.name, "ssh");
    assert_eq!(group.key_hash.as_deref(), Some("hash-A"));
    assert_eq!(group.members.len(), 1);
    assert!(group.members.contains_key(&tid));
    drop(group);

    // Index resolves the (name, key_hash) → port.
    let idx_port = core
        .tcp_group_index
        .get(&("ssh".to_string(), "hash-A".to_string()))
        .map(|v| *v);
    assert_eq!(idx_port, Some(port));

    // Edge listener got the Registered event for the first member.
    let events = core.take_tcp_events();
    assert_eq!(events, vec![TcpTunnelEvent::Registered { tunnel_id: tid, port }]);
}
#[test]
fn tcp_group_second_member_reuses_port_no_extra_event() {
    let mut core = make_core();
    let sid_a = dummy_session(&mut core);
    let sid_b = dummy_session(&mut core);
    core.take_tcp_events();

    let (_tid_a, port_a) = core
        .register_tcp_tunnel(&sid_a, Some(solo_group_spec("ssh", "hash-A")))
        .unwrap();
    let (_tid_b, port_b) = core
        .register_tcp_tunnel(&sid_b, Some(solo_group_spec("ssh", "hash-A")))
        .unwrap();

    assert_eq!(
        port_a, port_b,
        "second member must reuse the first member's port"
    );

    let group = core.tcp_routes.get(&port_a).unwrap();
    assert_eq!(group.members.len(), 2);
    drop(group);

    // First Registered was for tid_a; nothing else.
    assert_eq!(
        core.take_tcp_events().len(),
        1,
        "no Registered event must fire for join — the listener is already up"
    );
}
#[test]
fn tcp_group_mismatched_key_creates_a_separate_pool() {
    let mut core = make_core();
    let sid_a = dummy_session(&mut core);
    let sid_b = dummy_session(&mut core);

    let (_tid_a, port_a) = core
        .register_tcp_tunnel(&sid_a, Some(solo_group_spec("ssh", "hash-A")))
        .unwrap();
    // Different key → different index entry → fresh port allocation.
    // The name and the key together are the identity of a pool.
    let (_tid_b, port_b) = core
        .register_tcp_tunnel(&sid_b, Some(solo_group_spec("ssh", "hash-B")))
        .unwrap();

    assert_ne!(
        port_a, port_b,
        "different keys → different pools → different ports"
    );
    assert_eq!(core.tcp_routes.get(&port_a).unwrap().members.len(), 1);
    assert_eq!(core.tcp_routes.get(&port_b).unwrap().members.len(), 1);
}
#[test]
fn tcp_group_removing_one_of_two_keeps_port_allocated() {
    let mut core = TunnelCore::new([60000, 60001], [0, 0], 5, 100, 1000);
    let sid_a = dummy_session(&mut core);
    let sid_b = dummy_session(&mut core);
    core.take_tcp_events();

    let (tid_a, port) = core
        .register_tcp_tunnel(&sid_a, Some(solo_group_spec("ssh", "hash-A")))
        .unwrap();
    let (tid_b, port_b) = core
        .register_tcp_tunnel(&sid_b, Some(solo_group_spec("ssh", "hash-A")))
        .unwrap();
    assert_eq!(port, port_b);

    // Drain the Registered event from creation.
    core.take_tcp_events();

    // Remove one member — port stays, index stays, no Unregistered event.
    core.remove_tunnel(&tid_a);
    assert!(core.tcp_routes.contains_key(&port));
    assert!(core
        .tcp_group_index
        .contains_key(&("ssh".to_string(), "hash-A".to_string())));
    assert!(core.take_tcp_events().is_empty());

    // Remove the last member — port returns to pool, index clears,
    // Unregistered fires.
    core.remove_tunnel(&tid_b);
    assert!(!core.tcp_routes.contains_key(&port));
    assert!(!core
        .tcp_group_index
        .contains_key(&("ssh".to_string(), "hash-A".to_string())));
    assert_eq!(core.take_tcp_events(), vec![TcpTunnelEvent::Unregistered { port }]);
}
#[test]
fn tcp_group_random_dispatch_distributes_across_members() {
    let mut core = make_core();
    let sid_a = dummy_session(&mut core);
    let sid_b = dummy_session(&mut core);

    let (tid_a, port) = core
        .register_tcp_tunnel(&sid_a, Some(solo_group_spec("ssh", "hash-A")))
        .unwrap();
    let (tid_b, _) = core
        .register_tcp_tunnel(&sid_b, Some(solo_group_spec("ssh", "hash-A")))
        .unwrap();

    const N: u64 = 1_000;
    for _ in 0..N {
        assert!(core.resolve_tcp(port).is_some());
    }

    let count_a = core.get_tunnel_request_count(&tid_a);
    let count_b = core.get_tunnel_request_count(&tid_b);
    assert_eq!(count_a + count_b, N);
    assert!(
        (200..=800).contains(&count_a),
        "expected ~500 hits on member A, got {count_a} (B got {count_b})"
    );
    assert!(
        (200..=800).contains(&count_b),
        "expected ~500 hits on member B, got {count_b} (A got {count_a})"
    );
}
#[test]
fn tcp_group_first_registration_respects_port_pool() {
    let mut core = TunnelCore::new([60100, 60100], [0, 0], 5, 100, 1000);
    let sid_a = dummy_session(&mut core);
    let sid_b = dummy_session(&mut core);

    // First grouped registration takes the only port.
    core.register_tcp_tunnel(&sid_a, Some(solo_group_spec("ssh", "hash-A")))
        .unwrap();

    // A *different* group needs a different port — pool is empty.
    assert!(matches!(
        core.register_tcp_tunnel(&sid_b, Some(solo_group_spec("ssh", "hash-B"))),
        Err(Error::NoPortsAvailable)
    ));
}

#[test]
fn set_tunnel_health_toggles_bit_and_failures() {
    let mut core = make_core();
    let sid = dummy_session(&mut core);
    let (tid, _) = core
        .register_http_tunnel(&sid, Some("hcheck".into()), TunnelProtocol::Http, None)
        .unwrap();

    // Solo member starts healthy.
    assert!(core.resolve_http("hcheck").is_some());

    // Mark unhealthy → dispatch excludes it; failure counter bumps.
    assert!(core.set_tunnel_unhealthy(&tid, "probe-1 failed"));
    assert!(core.resolve_http("hcheck").is_none());
    let group = core.http_routes.get("hcheck").unwrap();
    let member = group.members.get(&tid).unwrap();
    assert_eq!(member.consecutive_failures, 1);
    drop(member);
    drop(group);

    // Another unhealthy → counter to 2.
    core.set_tunnel_unhealthy(&tid, "probe-2 failed");
    let group = core.http_routes.get("hcheck").unwrap();
    let member = group.members.get(&tid).unwrap();
    assert_eq!(member.consecutive_failures, 2);
    drop(member);
    drop(group);

    // Healthy resets counter to 0 + restores dispatch.
    assert!(core.set_tunnel_healthy(&tid));
    let group = core.http_routes.get("hcheck").unwrap();
    let member = group.members.get(&tid).unwrap();
    assert_eq!(member.consecutive_failures, 0);
    drop(member);
    drop(group);
    assert!(core.resolve_http("hcheck").is_some());
}
#[test]
fn set_tunnel_health_returns_false_for_unknown() {
    let mut core = make_core();
    let ghost = unknown_id();
    assert!(!core.set_tunnel_healthy(&ghost));
    assert!(!core.set_tunnel_unhealthy(&ghost, "doesn't matter"));
}
#[test]
fn tunnel_session_resolves_owner_across_protocols() {
    let mut core = make_core();
    let sid_a = dummy_session(&mut core);
    let sid_b = dummy_session(&mut core);

    let (tid_http, _) = core
        .register_http_tunnel(&sid_a, Some("owner".into()), TunnelProtocol::Http, None)
        .unwrap();
    let (tid_tcp, _) = core.register_tcp_tunnel(&sid_b, None).unwrap();

    assert_eq!(core.tunnel_session(&tid_http), Some(sid_a));
    assert_eq!(core.tunnel_session(&tid_tcp), Some(sid_b));
    assert_eq!(core.tunnel_session(&unknown_id()), None);
}
#[test]
fn unhealthy_member_in_group_routes_around() {
    let mut core = make_core();
    let sid_a = dummy_session(&mut core);
    let sid_b = dummy_session(&mut core);

    let (tid_a, _) = core
        .register_http_tunnel(
            &sid_a,
            Some("pool".into()),
            TunnelProtocol::Http,
            Some(solo_group_spec("web", "hash-A")),
        )
        .unwrap();
    let (tid_b, _) = core
        .register_http_tunnel(
            &sid_b,
            Some("pool".into()),
            TunnelProtocol::Http,
            Some(solo_group_spec("web", "hash-A")),
        )
        .unwrap();

    // Mark A unhealthy. All N dispatches must land on B.
    core.set_tunnel_unhealthy(&tid_a, "probe failed");
    for _ in 0..50 {
        assert!(core.resolve_http("pool").is_some());
    }
    assert_eq!(core.get_tunnel_request_count(&tid_a), 0);
    assert_eq!(core.get_tunnel_request_count(&tid_b), 50);

    // Bring A back. Now dispatch distributes again.
    core.set_tunnel_healthy(&tid_a);
    for _ in 0..200 {
        core.resolve_http("pool");
    }
    // Both should have grown — A from 0, B beyond 50. Loose bounds
    // for flake-resistance; the point is "A serves requests again".
    assert!(core.get_tunnel_request_count(&tid_a) > 30);
    assert!(core.get_tunnel_request_count(&tid_b) > 80);
}
#[test]
fn http_group_member_with_health_check_starts_unhealthy() {
    let mut core = make_core();
    let sid = dummy_session(&mut core);

    let spec = GroupSpec {
        group_name: "web".into(),
        key_hash: "hash-A".into(),
        health_check: Some(HealthCheckSpec {
            kind: HealthCheckKind::Tcp,
            interval_secs: 10,
            timeout_secs: 3,
            max_failed: 3,
            http_path: None,
            http_expect_2xx: true,
            alert_webhook_url: None,
        }),
    };
    let (tid, _) = core
        .register_http_tunnel(&sid, Some("await".into()), TunnelProtocol::Http, Some(spec))
        .unwrap();

    // Member exists but is unhealthy → no healthy member to dispatch to.
    let group = core.http_routes.get("await").unwrap();
    let member = group.members.get(&tid).unwrap();
    assert!(!member.healthy);
    drop(member);
    drop(group);
    assert!(core.resolve_http("await").is_none());
}

#[test]
fn a_tunnel_names_the_route_of_its_group() {
    let mut core = make_core();
    let sid = dummy_session(&mut core);
    let (http, _) = core
        .register_http_tunnel(&sid, Some("app".to_string()), TunnelProtocol::Http, None)
        .unwrap();
    let (tcp, port) = core.register_tcp_tunnel(&sid, None).unwrap();
    let (p2p, _) =
        core.register_p2p_tunnel(&sid, "db".to_string(), "hash".to_string()).unwrap();
    assert!(matches!(core.group_for_tunnel(&http), Some(TunnelKey::Http(s)) if s == "app"));
    assert!(matches!(core.group_for_tunnel(&tcp), Some(TunnelKey::Tcp(p)) if p == port));
    assert!(core.group_for_tunnel(&p2p).is_none());
    assert!(core.group_for_tunnel(&unknown_id()).is_none());
}
