use rustunnel_server::address::{read_address, IpAddr};
use rustunnel_server::auth::{client_ip, secret_eq, AuthFailureLimiter, SWEEP_THRESHOLD};

fn ip_v4(a: u8, b: u8, c: u8, d: u8) -> IpAddr {
    IpAddr::V4(u32::from_be_bytes([a, b, c, d]))
}

fn ip(n: u8) -> IpAddr {
    ip_v4(10, 0, 0, n)
}

#[test]
fn secret_eq_matches_equal_strings() {
    assert!(secret_eq("rt_admin_abc123", "rt_admin_abc123"));
    assert!(secret_eq("", ""));
}

#[test]
fn secret_eq_rejects_same_length_mismatch() {
    assert!(!secret_eq("rt_admin_abc123", "rt_admin_abc124"));
}

#[test]
fn secret_eq_rejects_length_mismatch_and_prefixes() {
    assert!(!secret_eq("rt_admin_abc123", "rt_admin_abc12"));
    assert!(!secret_eq("rt_admin_abc12", "rt_admin_abc123"));
    assert!(!secret_eq("", "x"));
    assert!(!secret_eq("x", ""));
}

#[test]
fn limiter_blocks_after_budget_and_tracks_ips_independently() {
    let mut limiter = AuthFailureLimiter::new(3);
    assert!(!limiter.is_limited(ip(1)));
    limiter.record_failure(ip(1));
    limiter.record_failure(ip(1));
    assert!(!limiter.is_limited(ip(1)));
    limiter.record_failure(ip(1));
    assert!(limiter.is_limited(ip(1)));
    // A different source is unaffected.
    assert!(!limiter.is_limited(ip(2)));
}

#[test]
fn limiter_zero_budget_disables() {
    let mut limiter = AuthFailureLimiter::new(0);
    for _ in 0..50 {
        limiter.record_failure(ip(1));
    }
    assert!(!limiter.is_enabled());
    assert!(!limiter.is_limited(ip(1)));
    assert!(limiter.failures.is_empty());
}

#[test]
fn limiter_recovers_after_window() {
    let mut limiter = AuthFailureLimiter::with_window(2, 40_000_000);
    limiter.record_failure(ip(1));
    limiter.record_failure(ip(1));
    assert!(limiter.is_limited(ip(1)));
    let start = std::time::Instant::now();
    while start.elapsed() < std::time::Duration::from_millis(60) {}
    assert!(!limiter.is_limited(ip(1)));
    limiter.evict_idle();
    assert!(limiter.failures.is_empty());
}

#[test]
fn client_ip_trusts_real_ip_only_from_loopback() {
    let loopback = ip_v4(127, 0, 0, 1);
    assert_eq!(client_ip(loopback, Some("203.0.113.7")), ip_v4(203, 0, 113, 7));
    assert_eq!(client_ip(loopback, Some(" 203.0.113.7 ")), ip_v4(203, 0, 113, 7));
    // Garbage or missing header → fall back to the peer.
    assert_eq!(client_ip(loopback, Some("not-an-ip")), loopback);
    assert_eq!(client_ip(loopback, None), loopback);
    // A non-loopback peer never has its header honoured.
    assert_eq!(client_ip(ip(9), Some("203.0.113.7")), ip(9));
    // The loopback address of the other family counts, too.
    assert_eq!(client_ip(IpAddr::V6(1), Some("10.0.0.3")), ip(3));
    assert_eq!(client_ip(IpAddr::V6(2), Some("10.0.0.3")), IpAddr::V6(2));
}

#[test]
fn addresses_are_read_after_the_rules_of_their_family() {
    assert_eq!(read_address("0.0.0.0"), Some(IpAddr::V4(0)));
    assert_eq!(read_address("255.255.255.255"), Some(IpAddr::V4(u32::MAX)));
    for text in ["", ".", "1.2.3", "1.2.3.4.5", "1.2.3.256", "01.2.3.4", "1.2.3.+4", "1. 2.3.4"] {
        assert_eq!(read_address(text), None, "{text}");
    }
    let v6 = |text: &str| match read_address(text) {
        Some(IpAddr::V6(bits)) => Some(bits),
        _ => None,
    };
    assert_eq!(v6("::"), Some(0));
    assert_eq!(v6("::1"), Some(1));
    assert_eq!(v6("\u{3000}::1\t"), Some(1));
    assert_eq!(v6("2001:DB8::a"), Some(0x2001_0db8_0000_0000_0000_0000_0000_000a));
    assert_eq!(v6("1:2:3:4:5:6:7:8"), Some(0x0001_0002_0003_0004_0005_0006_0007_0008));
    assert_eq!(v6("1:2:3:4:5:6:7::"), Some(0x0001_0002_0003_0004_0005_0006_0007_0000));
    assert_eq!(v6("::ffff:192.0.2.1"), Some(0xffff_c000_0201));
    assert_eq!(v6("1:2:3:4:5:6:1.2.3.4"), Some(0x0001_0002_0003_0004_0005_0006_0102_0304));
    for text in [
        ":", ":::", "1::2::3", "12345::", "g::", ":1", "1:", "1:2:3:4:5:6:7", "1:2:3:4:5:6:7:8:9",
        "1:2:3:4:5:6:7::8", "1.2.3.4::", "1:2:3:4:5:6::1.2.3.4", "::1.2.3.4:5",
    ] {
        assert_eq!(read_address(text), None, "{text}");
    }
}

#[test]
fn failures_leave_the_window_one_by_one() {
    let mut limiter = AuthFailureLimiter::with_window(2, 100);
    limiter.record_failure_at(ip(1), 10, 10);
    limiter.record_failure_at(ip(1), 60, 60);
    assert!(limiter.is_limited_at(ip(1), 70));
    assert!(!limiter.is_limited_at(ip(1), 111));
    limiter.record_failure_at(ip(1), 112, 112);
    assert!(limiter.is_limited_at(ip(1), 113));
}

#[test]
fn an_address_of_one_family_is_none_of_the_other() {
    let mut limiter = AuthFailureLimiter::with_window(1, 1000);
    limiter.record_failure_at(IpAddr::V4(7), 1, 1);
    assert!(limiter.is_limited_at(IpAddr::V4(7), 2));
    assert!(!limiter.is_limited_at(IpAddr::V6(7), 2));
}

#[test]
fn idle_addresses_are_swept_only_when_there_are_many() {
    let mut limiter = AuthFailureLimiter::with_window(1, 10);
    for n in 0..100u32 {
        limiter.record_failure_at(IpAddr::V4(n), 1, 1);
    }
    assert_eq!(limiter.failures.len(), 100);
    limiter.record_failure_at(IpAddr::V4(200), 1000, 1000);
    assert_eq!(limiter.failures.len(), 101);
    assert!(SWEEP_THRESHOLD > 101);
    limiter.evict_idle_at(1001);
    assert_eq!(limiter.failures.len(), 1);
}

#[test]
fn what_counts_is_what_failed_within_the_window() {
    let (window, max) = (100, 3);
    let mut limiter = AuthFailureLimiter::with_window(max, window);
    let failed = [(1, 10), (2, 15), (1, 20), (1, 90), (2, 95), (1, 115), (1, 190), (2, 200)];
    for (i, (n, now)) in failed.iter().enumerate() {
        limiter.record_failure_at(ip(*n), *now, *now);
        if i % 3 == 0 {
            limiter.evict_idle_at(*now);
        }
        for who in [1, 2, 3] {
            let recent =
                failed[..=i].iter().filter(|(m, t)| *m == who && t + window >= *now).count();
            assert_eq!(limiter.is_limited_at(ip(who), *now), recent >= 3, "{who} at {now}");
        }
    }
}
