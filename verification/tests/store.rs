use rustunnel_server::clock::{instant_to_iso, unix_to_iso, Clock};
use rustunnel_server::db::{
    count_admin_users, create_token, create_token_with, get_admin_user, hash_token,
    list_admin_users, list_tunnel_history, sqlite_url, AdminUserFilters, AdminUserSort,
    ADMIN_USER_COLS, ADMIN_USER_FILTERS, SUB_LATERAL, TOKEN_LATERAL,
};
use rustunnel_server::error::Error;
use rustunnel_server::ids::label_of;
use rustunnel_server::router::{random_subdomain, validate_subdomain};
use rustunnel_server::text::{decimal_text, parse_number, signed_text, take_chars};

#[test]
fn tokens_are_kept_as_sha256_in_hexadecimal() {
    assert_eq!(
        hash_token("abc"),
        "ba7816bf8f01cfea414140de5dae2223b00361a396177a9cb410ff61f20015ad"
    );
    assert_eq!(
        hash_token(""),
        "e3b0c44298fc1c149afbf4c8996fb92427ae41e4649b934ca495991b7852b855"
    );
}

#[test]
fn new_tokens_are_random_and_shown_once() {
    let (a, raw_a) = create_token("ci", Some("app-*".to_string()));
    let (b, raw_b) = create_token("ci", None);
    assert_ne!(raw_a, raw_b);
    assert_ne!(a.id, b.id);
    assert!(raw_a.starts_with("rt_live_"));
    assert_eq!(raw_a.len(), 8 + 36);
    assert_eq!(a.token_hash, hash_token(&raw_a));
    assert_eq!((a.label.as_str(), a.scope.as_deref()), ("ci", Some("app-*")));
    assert_eq!((a.status.as_str(), a.unlimited, b.scope), ("active", false, None));
    let (record, raw) = create_token_with("x", None, 1, 0xff);
    assert_eq!(raw, "rt_live_00000000-0000-0000-0000-0000000000ff");
    assert_eq!(record.id, "00000000-0000-0000-0000-000000000001");
}

#[test]
fn stores_are_named_by_path_or_by_address() {
    assert_eq!(sqlite_url("/var/lib/cap.db"), "sqlite:/var/lib/cap.db");
    assert_eq!(sqlite_url("sqlite:cap.db"), "sqlite:cap.db");
    assert_eq!(sqlite_url(":memory:"), ":memory:");
    assert_eq!(sqlite_url("sqlite"), "sqlite:sqlite");
    assert_eq!(sqlite_url(""), "sqlite:");
}

#[test]
fn history_is_sorted_by_fixed_columns_only() {
    let q = list_tunnel_history("duration", "asc");
    assert!(q.ends_with(
        "ORDER BY COALESCE(tl.unregistered_at, now()) - tl.registered_at ASC LIMIT $4 OFFSET $5"
    ));
    assert!(list_tunnel_history("protocol", "desc").contains("ORDER BY tl.protocol DESC LIMIT"));
    let q = list_tunnel_history("1; DROP TABLE tokens", "up");
    assert!(q.ends_with("ORDER BY tl.registered_at DESC LIMIT $4 OFFSET $5"));
    assert!(q.starts_with("SELECT tl.id, tl.tunnel_id, tl.protocol, tl.label, tl.session_id, "));
}

#[test]
fn users_are_sorted_as_asked() {
    assert_eq!("created".parse::<AdminUserSort>(), Ok(AdminUserSort::Created));
    assert_eq!("last_active".parse::<AdminUserSort>(), Ok(AdminUserSort::LastActive));
    assert_eq!("email".parse::<AdminUserSort>(), Ok(AdminUserSort::Email));
    assert_eq!("Email".parse::<AdminUserSort>(), Err(()));
    assert_eq!(AdminUserSort::default(), AdminUserSort::Created);
    assert_eq!(AdminUserSort::Email.order_by(), "ORDER BY u.email ASC");
    let f = AdminUserFilters::default();
    assert!(f.search.is_none() && f.plan.is_none() && !f.previously_paid);
    assert_eq!(
        list_admin_users(AdminUserSort::LastActive),
        format!(
            "SELECT {ADMIN_USER_COLS} FROM users u {TOKEN_LATERAL} {SUB_LATERAL} \
             {ADMIN_USER_FILTERS} ORDER BY tc.last_active_at DESC NULLS LAST, u.created_at DESC \
             LIMIT $6 OFFSET $7"
        )
    );
    assert_eq!(
        count_admin_users(),
        format!("SELECT COUNT(*)::bigint FROM users u {SUB_LATERAL} {ADMIN_USER_FILTERS}")
    );
    assert_eq!(
        get_admin_user(),
        format!("SELECT {ADMIN_USER_COLS} FROM users u {TOKEN_LATERAL} {SUB_LATERAL} WHERE u.id = $1")
    );
}

#[test]
fn times_are_written_in_utc() {
    assert_eq!(unix_to_iso(0), "1970-01-01T00:00:00+00:00");
    assert_eq!(unix_to_iso(1_500_000), "1970-01-01T00:00:00.001500+00:00");
    let now = Clock { mono: 10_000_000_000, unix: 86_400_000_000_000 };
    assert_eq!(instant_to_iso(9_000_000_000, now), "1970-01-01T23:59:59+00:00");
    // A tunnel from the future is from now; one from before the epoch, from the epoch.
    assert_eq!(instant_to_iso(11_000_000_000, now), "1970-01-02T00:00:00+00:00");
    let early = Clock { mono: 10_000_000_000, unix: 5 };
    assert_eq!(instant_to_iso(0, early), "1970-01-01T00:00:00+00:00");
}

#[test]
fn labels_are_the_first_digits_of_an_id() {
    assert_eq!(label_of(0x0123_4567_89ab_cdef_0123_4567_89ab_cdef), "01234567");
    assert_eq!(label_of(0), "00000000");
    let (a, b) = (random_subdomain(), random_subdomain());
    assert_ne!(a, b);
    assert_eq!(a.len(), 8);
    assert!(validate_subdomain(&a).is_ok());
}

#[test]
fn subdomains_are_refused_for_a_reason() {
    let reason = |s: &str| match validate_subdomain(s) {
        Err(Error::Tunnel(m)) => m,
        other => panic!("{other:?}"),
    };
    assert_eq!(reason("ab"), "subdomain 'ab' must be 3–63 characters long");
    assert_eq!(reason(&"a".repeat(64)).len(), "subdomain '' must be 3–63 characters long".len() + 64);
    assert_eq!(reason("-ab"), "subdomain '-ab' must not start or end with a hyphen");
    assert_eq!(reason("a_b"), "subdomain 'a_b' may only contain letters, digits, and hyphens");
    assert!(validate_subdomain(&"a".repeat(63)).is_ok());
    assert_eq!(Error::Tunnel("x".to_string()).message(), "tunnel error: x");
    assert_eq!(Error::NoPortsAvailable.message(), "no ports available");
}

#[test]
fn numbers_are_read_and_written_in_decimal() {
    assert_eq!(decimal_text(0), "0");
    assert_eq!(decimal_text(u64::MAX), "18446744073709551615");
    assert_eq!(signed_text(-40), "-40");
    assert_eq!(signed_text(i32::MIN), "-2147483648");
    assert_eq!(parse_number("65535", 65535), Some(65535));
    assert_eq!(parse_number("65536", 65535), None);
    assert_eq!(parse_number("+7", 10), Some(7));
    assert_eq!(parse_number("007", 10), Some(7));
    for bad in ["", "+", "-1", "1a", " 1", "18446744073709551616"] {
        assert_eq!(parse_number(bad, u64::MAX), None, "{bad}");
    }
    assert_eq!(take_chars("héllo", 2), "hé");
}
