use hyper::header::HeaderValue;
use rustunnel_server::headers::{
    is_websocket_upgrade, remove_hop_by_hop, set_forwarded_headers, ForwardScheme,
};
use rustunnel_server::http::{extract_subdomain, redirect_to_https};

#[test]
fn subdomain_extraction() {
    assert_eq!(
        extract_subdomain("myapp.tunnel.example.com", "tunnel.example.com"),
        Some("myapp".into())
    );
    assert_eq!(
        extract_subdomain("myapp.tunnel.example.com:443", "tunnel.example.com"),
        Some("myapp".into())
    );
    // Bare domain → None
    assert_eq!(
        extract_subdomain("tunnel.example.com", "tunnel.example.com"),
        None
    );
    // Unrelated domain → None
    assert_eq!(
        extract_subdomain("other.example.com", "tunnel.example.com"),
        None
    );
    // Multi-level subdomain
    assert_eq!(
        extract_subdomain("a.b.tunnel.example.com", "tunnel.example.com"),
        Some("a.b".into())
    );
}

#[test]
fn hop_by_hop_headers_stripped() {
    let mut headers = hyper::HeaderMap::new();
    headers.insert("connection", HeaderValue::from_static("keep-alive"));
    headers.insert("transfer-encoding", HeaderValue::from_static("chunked"));
    headers.insert("x-request-id", HeaderValue::from_static("abc"));
    remove_hop_by_hop(&mut headers);
    assert!(!headers.contains_key("connection"));
    assert!(!headers.contains_key("transfer-encoding"));
    assert!(headers.contains_key("x-request-id"), "custom headers must survive");
}

#[test]
fn redirect_is_permanent_and_method_preserving() {
    let resp = redirect_to_https(
        Some("myapp.tunnel.example.com"),
        Some("/api/webhooks/sms/inbound?x=1"),
        "tunnel.example.com",
        443,
    );
    assert_eq!(resp.status, 308);
    assert_eq!(
        resp.location,
        "https://myapp.tunnel.example.com/api/webhooks/sms/inbound?x=1"
    );
}

#[test]
fn redirect_swaps_port_for_https_listener() {
    // Incoming Host carries the plain-HTTP port; the Location must point
    // at the HTTPS listener instead of echoing the original port.
    let resp = redirect_to_https(
        Some("myapp.tunnel.example.com:8080"),
        Some("/p"),
        "tunnel.example.com",
        8443,
    );
    assert_eq!(resp.location, "https://myapp.tunnel.example.com:8443/p");
}

#[test]
fn forwarded_headers_set_and_appended() {
    let peer = "203.0.113.9";

    // Fresh request — headers created from scratch.
    let mut headers = hyper::HeaderMap::new();
    set_forwarded_headers(&mut headers, peer, ForwardScheme::Https, "app.example.com");
    assert_eq!(headers.get("x-forwarded-for").unwrap(), "203.0.113.9");
    assert_eq!(headers.get("x-forwarded-proto").unwrap(), "https");
    assert_eq!(headers.get("x-forwarded-host").unwrap(), "app.example.com");

    // Inbound X-Forwarded-For is appended to; spoofed Proto/Host are
    // overwritten at the trust boundary.
    let mut headers = hyper::HeaderMap::new();
    headers.insert("x-forwarded-for", HeaderValue::from_static("198.51.100.1"));
    headers.insert("x-forwarded-proto", HeaderValue::from_static("https"));
    headers.insert("x-forwarded-host", HeaderValue::from_static("evil.example"));
    set_forwarded_headers(&mut headers, peer, ForwardScheme::Http, "app.example.com");
    assert_eq!(headers.get("x-forwarded-for").unwrap(), "198.51.100.1, 203.0.113.9");
    assert_eq!(headers.get("x-forwarded-proto").unwrap(), "http");
    assert_eq!(headers.get("x-forwarded-host").unwrap(), "app.example.com");
}

#[test]
fn websocket_detection() {
    let mut headers = hyper::HeaderMap::new();
    headers.insert("upgrade", HeaderValue::from_static("websocket"));
    assert!(is_websocket_upgrade(&headers));

    headers.insert("upgrade", HeaderValue::from_static("WebSocket"));
    assert!(is_websocket_upgrade(&headers));

    headers.insert("upgrade", HeaderValue::from_static("h2c"));
    assert!(!is_websocket_upgrade(&headers));

    // No upgrade header → false.
    let empty: hyper::HeaderMap = hyper::HeaderMap::new();
    assert!(!is_websocket_upgrade(&empty));
}
