//! The HTTP edge.
use crate::router::{TunnelCore, TunnelKey};
use crate::router_model::{is_served, CoreModel, KeyModel};
use crate::text::{
    all_digits, ascii_alnum, chars_of, decimal, decimal_text, is_ascii_alnum, join3, opt_text,
    text_of,
};
use vstd::prelude::*;
use vstd::string::*;

verus! {

/// What the plain-HTTP listener does.
#[derive(Debug, Clone, Copy, PartialEq, Eq, Structural)]
pub enum PlainHttpMode {
    /// Redirect every request to HTTPS.
    Redirect,
    /// Proxy what resolves to a tunnel; redirect the rest.
    Proxy,
}

impl Default for PlainHttpMode {
    fn default() -> (r: Self)
        ensures
            r == PlainHttpMode::Redirect,
    {
        PlainHttpMode::Redirect
    }
}

/// The limits of the edge.
#[derive(Debug, Clone, Copy)]
pub struct HttpEdgeConfig {
    pub rate_limit_rps: u32,
    pub request_body_max_bytes: usize,
    pub plain_http_mode: PlainHttpMode,
}

/// The part of `host` before its first colon.
pub open spec fn host_name(host: Seq<char>) -> Seq<char>
    decreases host.len(),
{
    if host.len() == 0 || host[0] == ':' {
        Seq::empty()
    } else {
        seq![host[0]] + host_name(host.drop_first())
    }
}

/// The label that `host` has under `domain`, if it is a host under it.
pub open spec fn subdomain_of(host: Seq<char>, domain: Seq<char>) -> Option<Seq<char>> {
    let name = host_name(host);
    let suffix = seq!['.'] + domain;
    if suffix.len() <= name.len() && name.subrange(name.len() - suffix.len(), name.len() as int)
        == suffix {
        Some(name.take(name.len() - suffix.len()))
    } else {
        None
    }
}

/// The name of a host is a prefix of it, free of colons, and ends at a colon or at its end.
proof fn lemma_host_name(host: Seq<char>, n: int)
    requires
        0 <= n <= host.len(),
        forall|i: int| 0 <= i < n ==> host[i] != ':',
        n < host.len() ==> host[n] == ':',
    ensures
        host_name(host) == host.take(n),
    decreases host.len(),
{
    if host.len() == 0 || host[0] == ':' {
        assert(host.take(n) =~= Seq::<char>::empty());
    } else {
        lemma_host_name(host.drop_first(), n - 1);
        assert(host.take(n) =~= seq![host[0]] + host.drop_first().take(n - 1));
    }
}

/// How many characters stand before the first colon.
fn host_name_len(host: &Vec<char>) -> (n: usize)
    ensures
        n <= host@.len(),
        host_name(host@) == host@.take(n as int),
{
    let mut n: usize = 0;
    while n < host.len() && host[n] != ':'
        invariant
            n <= host@.len(),
            forall|i: int| 0 <= i < n ==> host@[i] != ':',
        decreases host@.len() - n,
    {
        n = n + 1;
    }
    proof {
        lemma_host_name(host@, n as int);
    }
    n
}

/// The subdomain that a `Host` value names under `domain`, a port aside. `None` for the
/// domain itself and for hosts elsewhere.
pub fn extract_subdomain(host: &str, domain: &str) -> (r: Option<String>)
    ensures
        r is Some <==> subdomain_of(host@, domain@) is Some,
        r matches Some(s) ==> Some(s@) == subdomain_of(host@, domain@),
{
    let h: Vec<char> = chars_of(host);
    let d: Vec<char> = chars_of(domain);
    let n: usize = host_name_len(&h);
    let ghost name = host_name(host@);
    let ghost suffix = seq!['.'] + domain@;
    if n <= d.len() {
        return None;
    }
    let k: usize = n - d.len() - 1;
    if h[k] != '.' {
        assert(name.subrange(name.len() - suffix.len(), name.len() as int)[0] == h@[k as int]);
        assert(suffix[0] == '.');
        return None;
    }
    let mut i: usize = 0;
    while i < d.len()
        invariant
            i <= d@.len(),
            n <= h@.len(),
            k + 1 + d@.len() == n,
            d@ == domain@,
            h@ == host@,
            name == h@.take(n as int),
            suffix == seq!['.'] + domain@,
            h@[k as int] == '.',
            name == host_name(host@),
            forall|j: int| 0 <= j < i ==> h@[k + 1 + j] == d@[j],
        decreases d@.len() - i,
    {
        if h[k + 1 + i] != d[i] {
            assert(name.subrange(name.len() - suffix.len(), name.len() as int)[i + 1] == h@[k + 1
                + i]);
            assert(suffix[i + 1] == d@[i as int]);
            return None;
        }
        i = i + 1;
    }
    assert(name.subrange(name.len() - suffix.len(), name.len() as int) =~= suffix);
    assert(name.take(name.len() - suffix.len()) =~= h@.subrange(0, k as int));
    Some(text_of(&h, 0, k))
}

// ── redirecting to HTTPS ─────────────────────────────────────────────────────

/// Whether a text is a host name: letters, digits, hyphens and dots, at least one.
pub open spec fn is_host_name(s: Seq<char>) -> bool {
    s.len() > 0 && forall|i: int|
        0 <= i < s.len() ==> is_ascii_alnum(#[trigger] s[i]) || s[i] == '-' || s[i] == '.'
}

/// Whether a text is a port: digits, at least one.
pub open spec fn is_port(s: Seq<char>) -> bool {
    s.len() > 0 && all_digits(s)
}

/// Whether a text is a host name, or one with a colon and a port behind.
pub open spec fn is_safe_host(host: Seq<char>) -> bool {
    is_host_name(host) || exists|k: int|
        0 <= k < host.len() && #[trigger] host[k] == ':' && is_host_name(host.take(k)) && is_port(
            host.skip(k + 1),
        )
}

/// Whether a part of a text is a host name.
fn host_name_between(chars: &Vec<char>, to: usize) -> (r: bool)
    requires
        to <= chars@.len(),
    ensures
        r == is_host_name(chars@.take(to as int)),
{
    let mut i: usize = 0;
    while i < to
        invariant
            i <= to <= chars@.len(),
            forall|j: int|
                0 <= j < i ==> is_ascii_alnum(#[trigger] chars@.take(to as int)[j]) || chars@.take(
                    to as int,
                )[j] == '-' || chars@.take(to as int)[j] == '.',
        decreases to - i,
    {
        let c: char = chars[i];
        assert(chars@.take(to as int)[i as int] == c);
        if !ascii_alnum(c) && c != '-' && c != '.' {
            return false;
        }
        i = i + 1;
    }
    to > 0
}

/// Whether the rest of a text is a port.
fn port_from(chars: &Vec<char>, from: usize) -> (r: bool)
    requires
        from <= chars@.len(),
    ensures
        r == is_port(chars@.skip(from as int)),
{
    let mut i: usize = from;
    let ghost rest = chars@.skip(from as int);
    while i < chars.len()
        invariant
            from <= i <= chars@.len(),
            rest == chars@.skip(from as int),
            forall|j: int| 0 <= j < i - from ==> '0' <= (#[trigger] rest[j]) <= '9',
        decreases chars@.len() - i,
    {
        let c: char = chars[i];
        assert(rest[i - from] == c);
        if !('0' <= c && c <= '9') {
            return false;
        }
        i = i + 1;
    }
    from < chars.len()
}

/// `host` itself, if it is a host name with a port or without; `None` for anything else.
pub fn sanitize_host(host: &str) -> (r: Option<String>)
    ensures
        opt_text(r) == if is_safe_host(host@) {
            Some(host@)
        } else {
            None
        },
{
    let chars: Vec<char> = chars_of(host);
    let mut k: usize = chars.len();
    while k > 0 && chars[k - 1] != ':'
        invariant
            k <= chars@.len(),
            chars@ == host@,
            forall|j: int| k <= j < chars@.len() ==> chars@[j] != ':',
        decreases k,
    {
        k = k - 1;
    }
    if k == 0 {
        assert(host@.take(chars@.len() as int) =~= host@);
        if host_name_between(&chars, chars.len()) {
            return Some(host.to_owned());
        }
        return None;
    }
    // The last colon stands at `k - 1`.
    let name_ok: bool = host_name_between(&chars, k - 1);
    let port_ok: bool = port_from(&chars, k);
    proof {
        assert(host@[k - 1] == ':');
        assert(!is_host_name(host@)) by {
            if is_host_name(host@) {
                assert(is_ascii_alnum(host@[k - 1]) || host@[k - 1] == '-' || host@[k - 1] == '.');
            }
        }
        assert forall|j: int|
            0 <= j < host@.len() && #[trigger] host@[j] == ':' && is_host_name(host@.take(j))
                && is_port(host@.skip(j + 1)) implies j == k - 1 by {
            if j < k - 1 {
                assert(host@.skip(j + 1)[k - 1 - (j + 1)] == ':');
            }
        }
        if name_ok && port_ok {
            assert(is_safe_host(host@));
        }
    }
    if name_ok && port_ok {
        Some(host.to_owned())
    } else {
        None
    }
}

/// The answer to a plain-HTTP request that is to come back by HTTPS.
#[derive(Debug)]
pub struct Redirect {
    pub status: u16,
    pub location: String,
}

/// Where a plain-HTTP request is to come back: at the host that it named, if that is one, and
/// at the port of the HTTPS listener, which goes unsaid where it is the usual one.
pub open spec fn redirect_location(
    host: Option<Seq<char>>,
    target: Option<Seq<char>>,
    domain: Seq<char>,
    https_port: u16,
) -> Seq<char> {
    let named = if host is Some && is_safe_host(host->0) {
        host->0
    } else {
        domain
    };
    let authority = if https_port == 443 {
        host_name(named)
    } else {
        host_name(named) + ":"@ + decimal(https_port as nat)
    };
    "https://"@ + authority + (match target {
        Some(t) => t,
        None => "/"@,
    })
}

/// Sends a plain-HTTP request to HTTPS, for good and with its method and body kept.
/// `target` is the path and query of the request.
pub fn redirect_to_https(
    host: Option<&str>,
    target: Option<&str>,
    domain: &str,
    https_port: u16,
) -> (r: Redirect)
    ensures
        r.status == 308,
        r.location@ == redirect_location(
            crate::peer::opt_str(host),
            crate::peer::opt_str(target),
            domain@,
            https_port,
        ),
{
    let named: String = match host {
        Some(h) => match sanitize_host(h) {
            Some(safe) => safe,
            None => domain.to_owned(),
        },
        None => domain.to_owned(),
    };
    let chars: Vec<char> = chars_of(named.as_str());
    let n: usize = host_name_len(&chars);
    let name: String = text_of(&chars, 0, n);
    assert(name@ =~= host_name(named@));
    let mut location: String = "https://".to_owned().concat(name.as_str());
    if https_port != 443 {
        location.append(":");
        location.append(decimal_text(https_port as u64).as_str());
    }
    match target {
        Some(t) => {
            location.append(t);
        },
        None => {
            location.append("/");
        },
    }
    assert(location@ =~= redirect_location(
        crate::peer::opt_str(host),
        crate::peer::opt_str(target),
        domain@,
        https_port,
    ));
    Redirect { status: 308, location }
}

/// What to do about a plain-HTTP request.
#[derive(Debug, Clone, Copy, PartialEq, Eq, Structural)]
pub enum PlainStep {
    Proxy,
    Redirect,
}

/// Whether a plain-HTTP request is proxied: the listener does so, and the host names a
/// subdomain that some member can serve now.
pub open spec fn is_proxied(
    c: CoreModel,
    mode: PlainHttpMode,
    host: Option<Seq<char>>,
    domain: Seq<char>,
) -> bool {
    &&& mode is Proxy
    &&& host matches Some(h) && subdomain_of(h, domain) matches Some(label) && is_served(
        c,
        KeyModel::Http(label),
    )
}

/// Decides on a plain-HTTP request: proxy it if the listener does so and a tunnel serves the
/// host, redirect it otherwise. This is a look only: the request counts once it is proxied.
pub fn plain_http_request(
    core: &TunnelCore,
    mode: PlainHttpMode,
    host: Option<&str>,
    domain: &str,
) -> (r: PlainStep)
    ensures
        r == if is_proxied(core@, mode, crate::peer::opt_str(host), domain@) {
            PlainStep::Proxy
        } else {
            PlainStep::Redirect
        },
{
    if mode == PlainHttpMode::Proxy {
        if let Some(h) = host {
            if let Some(label) = extract_subdomain(h, domain) {
                let key: TunnelKey = TunnelKey::Http(label);
                if core.is_served(&key) {
                    return PlainStep::Proxy;
                }
            }
        }
    }
    PlainStep::Redirect
}

// ── answers of the edge ──────────────────────────────────────────────────────

/// An answer that the edge gives itself.
#[derive(Debug)]
pub struct HttpReply {
    pub status: u16,
    pub content_type: String,
    pub body: String,
}

/// The view of an [`HttpReply`].
#[verifier::ext_equal]
pub struct ReplyModel {
    pub status: u16,
    pub content_type: Seq<char>,
    pub body: Seq<char>,
}

impl View for HttpReply {
    type V = ReplyModel;

    open spec fn view(&self) -> ReplyModel {
        ReplyModel {
            status: self.status,
            content_type: self.content_type@,
            body: self.body@,
        }
    }
}

/// A plain answer.
pub open spec fn plain_reply(status: u16, message: Seq<char>) -> ReplyModel {
    ReplyModel { status, content_type: "text/plain; charset=utf-8"@, body: message }
}

/// A plain answer.
pub fn err_response(status: u16, message: &str) -> (r: HttpReply)
    ensures
        r@ == plain_reply(status, message@),
{
    HttpReply {
        status,
        content_type: "text/plain; charset=utf-8".to_owned(),
        body: message.to_owned(),
    }
}

/// What stands before the subdomain on the page for an unknown tunnel.
pub const GATEWAY_PAGE_HEAD: &'static str = "<!DOCTYPE html>
<html lang=\"en\">
<head><meta charset=\"utf-8\"><title>Tunnel Not Found — rustunnel</title></head>
<body style=\"font-family:sans-serif;max-width:600px;margin:4rem auto;color:#333\">
  <h1>502 Bad Gateway</h1>
  <p>No tunnel is registered for <strong>";

/// What stands after it.
pub const GATEWAY_PAGE_TAIL: &'static str = "</strong>.</p>
  <p>Make sure your <code>rustunnel-client</code> is running and authenticated.</p>
</body>
</html>";

/// The page for an unknown tunnel.
pub open spec fn gateway_reply(subdomain: Seq<char>) -> ReplyModel {
    ReplyModel {
        status: 502,
        content_type: "text/html; charset=utf-8"@,
        body: GATEWAY_PAGE_HEAD@ + subdomain + GATEWAY_PAGE_TAIL@,
    }
}

/// The page for an unknown tunnel.
pub fn gateway_error(subdomain: &str) -> (r: HttpReply)
    ensures
        r@ == gateway_reply(subdomain@),
{
    HttpReply {
        status: 502,
        content_type: "text/html; charset=utf-8".to_owned(),
        body: join3(GATEWAY_PAGE_HEAD, subdomain, GATEWAY_PAGE_TAIL),
    }
}

} // verus!
