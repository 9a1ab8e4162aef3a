//! What the public gets at the edge: where its requests go, what it is told where they go
//! nowhere, and what the local service sees of them.
use crate::clock::Clock;
use crate::exchange::{
    capture_of, end_to_end, frame_passed, path_asked, upgrade_capture, upgrade_settled, ExchangeModel,
};
use crate::headers::{
    asks_websocket, forwarded, has_room, is_field_text, is_field_value, is_value_byte, stated_host,
    stated_length, ForwardScheme,
};
use crate::http::{
    gateway_reply, host_name, is_proxied, is_safe_host, redirect_location, subdomain_of, PlainHttpMode, ReplyModel,
    GATEWAY_PAGE_HEAD, GATEWAY_PAGE_TAIL,
};
use crate::proxy::{
    proxy_stepped, ProxyAction, ProxyEvent, ProxyRequestModel, ProxyState, StreamEnd, UpstreamEnd,
    PROXY_TIMEOUT_SECS, STREAM_TIMEOUT_SECS,
};
use crate::router_model::{bytes_added, is_served, request_counted, CoreModel, KeyModel};
use crate::router_ops::picked;
use crate::text::{all_digits, decimal, digits_value, number_in, signed_decimal};
use crate::tunnel::TunnelInfo;
use vstd::prelude::*;
use vstd::string::*;
use vstd::utf8::*;

verus! {

// ── numerals ─────────────────────────────────────────────────────────────────

/// A number's decimal numeral is made of digits, has no zero in front unless it is zero, and
/// stands for the number.
pub proof fn law_decimal_stands_for_the_number(n: nat)
    ensures
        decimal(n).len() > 0,
        all_digits(decimal(n)),
        digits_value(decimal(n)) == n,
        n > 0 ==> decimal(n)[0] != '0',
    decreases n,
{
    reveal_with_fuel(digits_value, 2);
    if n < 10 {
        assert(decimal(n).drop_last() =~= Seq::empty());
    } else {
        law_decimal_stands_for_the_number(n / 10);
        assert(decimal(n).drop_last() =~= decimal(n / 10));
    }
}

/// A number below zero is written as a minus sign and the numeral without it; any other, zero
/// too, as its numeral.
pub proof fn law_signed_numerals(n: nat)
    ensures
        signed_decimal(n as int) == decimal(n),
        n > 0 ==> signed_decimal(-(n as int)) == "-"@ + decimal(n),
{
}

/// A numeral is read as the number that it stands for, with a plus sign in front or without,
/// up to the limit; above it, and where there is anything but digits, it is not read at all.
pub proof fn law_numerals_are_read_back(n: nat, max: nat)
    ensures
        number_in(decimal(n), max) == if n <= max {
            Some(n)
        } else {
            None::<nat>
        },
        number_in(seq!['+'] + decimal(n), max) == number_in(decimal(n), max),
        number_in(Seq::empty(), max) is None,
{
    law_decimal_stands_for_the_number(n);
    let s = decimal(n);
    assert(s[0] != '+') by {
        assert('0' <= s[0]);
    }
    assert((seq!['+'] + s).drop_first() =~= s);
}

/// Nothing is read from a text with a character that is neither a digit nor a plus sign in
/// front.
pub proof fn law_only_numerals_are_read(s: Seq<char>, max: nat, i: int)
    requires
        0 <= i < s.len(),
        !('0' <= s[i] <= '9'),
        !(i == 0 && s[i] == '+'),
    ensures
        number_in(s, max) is None,
{
    if s[0] == '+' {
        assert(s.drop_first()[i - 1] == s[i]);
    }
}

// ── hosts ────────────────────────────────────────────────────────────────────

/// The name of a host is what stands before its first colon, all of it where there is none.
pub proof fn law_host_name(name: Seq<char>, rest: Seq<char>)
    requires
        forall|i: int| 0 <= i < name.len() ==> name[i] != ':',
    ensures
        host_name(name) == name,
        host_name(name + seq![':'] + rest) == name,
    decreases name.len(),
{
    let full = name + seq![':'] + rest;
    if name.len() == 0 {
        assert(full[0] == ':');
        assert(host_name(name) =~= name);
    } else {
        let tail = name.drop_first();
        assert forall|i: int| 0 <= i < tail.len() implies tail[i] != ':' by {
            assert(tail[i] == name[i + 1]);
        }
        law_host_name(tail, rest);
        assert(full.drop_first() =~= tail + seq![':'] + rest);
        assert(seq![name[0]] + tail =~= name);
    }
}

/// The subdomain of a host is what stands before the dot and the domain, whatever the port; and
/// a host has one exactly if its name ends so.
pub proof fn law_subdomain(host: Seq<char>, domain: Seq<char>, label: Seq<char>)
    ensures
        subdomain_of(host, domain) == Some(label) <==> host_name(host) == label + seq!['.']
            + domain,
{
    let name = host_name(host);
    let suffix = seq!['.'] + domain;
    if name == label + seq!['.'] + domain {
        assert(name.len() - suffix.len() == label.len());
        assert(name.subrange(name.len() - suffix.len(), name.len() as int) =~= suffix);
        assert(name.take(label.len() as int) =~= label);
    }
    if subdomain_of(host, domain) == Some(label) {
        let k = name.len() - suffix.len();
        assert(name =~= name.take(k) + name.subrange(k, name.len() as int));
        assert(label + suffix =~= label + seq!['.'] + domain);
    }
}

/// A host that a redirect may repeat has nothing in it but letters, digits, hyphens and dots,
/// and at most a colon and digits behind; every such host may be repeated.
pub proof fn law_safe_hosts(name: Seq<char>, port: Seq<char>)
    requires
        name.len() > 0,
        forall|i: int|
            0 <= i < name.len() ==> '0' <= #[trigger] name[i] <= '9' || 'A' <= name[i] <= 'Z'
                || 'a' <= name[i] <= 'z' || name[i] == '-' || name[i] == '.',
        port.len() > 0,
        forall|i: int| 0 <= i < port.len() ==> '0' <= #[trigger] port[i] <= '9',
    ensures
        is_safe_host(name),
        is_safe_host(name + seq![':'] + port),
        !is_safe_host(Seq::empty()),
{
    let full = name + seq![':'] + port;
    let k = name.len() as int;
    assert(full.take(k) =~= name);
    assert(full.skip(k + 1) =~= port);
    assert(full[k] == ':');
}

/// No redirect repeats a host with any other character in it.
pub proof fn law_unsafe_hosts(host: Seq<char>, i: int)
    requires
        is_safe_host(host),
        0 <= i < host.len(),
    ensures
        '0' <= host[i] <= '9' || 'A' <= host[i] <= 'Z' || 'a' <= host[i] <= 'z' || host[i] == '-'
            || host[i] == '.' || host[i] == ':',
{
    if exists|k: int|
        0 <= k < host.len() && #[trigger] host[k] == ':' && crate::http::is_host_name(host.take(k))
            && crate::http::is_port(host.skip(k + 1)) {
        let k = choose|k: int|
            0 <= k < host.len() && #[trigger] host[k] == ':' && crate::http::is_host_name(
                host.take(k),
            ) && crate::http::is_port(host.skip(k + 1));
        if i < k {
            assert(host.take(k)[i] == host[i]);
        } else if i > k {
            assert(host.skip(k + 1)[i - k - 1] == host[i]);
        }
    }
}

/// A redirect goes to HTTPS, at the name that the request gave if it is safe to repeat and at
/// the domain otherwise, at the port of the HTTPS listener where that is not the usual one, and
/// to what the request asked for.
pub proof fn law_redirects(
    host: Option<Seq<char>>,
    target: Option<Seq<char>>,
    domain: Seq<char>,
    https_port: u16,
)
    ensures
        ({
            let name = if host is Some && is_safe_host(host->0) {
                host_name(host->0)
            } else {
                host_name(domain)
            };
            let port = if https_port == 443 {
                Seq::<char>::empty()
            } else {
                ":"@ + decimal(https_port as nat)
            };
            let asked = if target is Some {
                target->0
            } else {
                "/"@
            };
            redirect_location(host, target, domain, https_port) == "https://"@ + name + port + asked
        }),
{
    let name = if host is Some && is_safe_host(host->0) {
        host_name(host->0)
    } else {
        host_name(domain)
    };
    let port = ":"@ + decimal(https_port as nat);
    assert("https://"@ + (name + ":"@ + decimal(https_port as nat)) =~= "https://"@ + name + port);
    assert("https://"@ + name + Seq::<char>::empty() =~= "https://"@ + name);
}

/// Plain HTTP is proxied exactly where the listener does so and some member can serve the
/// subdomain that the host names; a host that is missing or names none is redirected.
pub proof fn law_plain_http(
    c: CoreModel,
    mode: PlainHttpMode,
    host: Seq<char>,
    domain: Seq<char>,
    label: Seq<char>,
)
    ensures
        is_proxied(c, mode, Some(host), domain) ==> mode is Proxy,
        host_name(host) == label + seq!['.'] + domain ==> (is_proxied(c, mode, Some(host), domain)
            <==> mode is Proxy && is_served(c, KeyModel::Http(label))),
        !is_proxied(c, mode, None, domain),
        subdomain_of(host, domain) is None ==> !is_proxied(c, mode, Some(host), domain),
{
    law_subdomain(host, domain, label);
}

// ── requests ─────────────────────────────────────────────────────────────────

/// Whether `action` answers a request with this status and this text, and settles it.
pub open spec fn says(
    next: ProxyState,
    action: ProxyAction,
    status: u16,
    text: Seq<char>,
) -> bool {
    next is Settled && (action matches ProxyAction::Answer(r) && r@ == (ReplyModel {
        status,
        content_type: "text/plain; charset=utf-8"@,
        body: text,
    }))
}

/// What the public is told where a request does not get through, at each point where it may
/// not; what it waited for decides, and nothing else.
pub proof fn law_what_the_public_is_told(
    before: CoreModel,
    after: CoreModel,
    req: ProxyRequestModel,
    state: ProxyState,
    event: ProxyEvent,
    conn_id: u128,
    next: ProxyState,
    action: ProxyAction,
)
    requires
        proxy_stepped(before, after, req, state, event, conn_id, next, action),
    ensures
        state is AwaitIp && event == ProxyEvent::Ip(false) ==> says(
            next,
            action,
            429,
            "Rate limit exceeded"@,
        ),
        state is AwaitIp && event == ProxyEvent::Ip(true) && req.host is None ==> says(
            next,
            action,
            400,
            "Missing Host header"@,
        ),
        state is AwaitRate && event == ProxyEvent::Rate(false) ==> says(
            next,
            action,
            429,
            "Tunnel rate limit exceeded"@,
        ),
        state is AwaitPermit && event == ProxyEvent::Permit(false) ==> says(
            next,
            action,
            503,
            "Too many concurrent connections"@,
        ),
        state is AwaitTold && event == ProxyEvent::Told(false) ==> says(
            next,
            action,
            502,
            "Tunnel session unavailable"@,
        ),
        state is AwaitStream && event == ProxyEvent::Stream(StreamEnd::Dropped) ==> says(
            next,
            action,
            502,
            "Tunnel did not open a data stream"@,
        ),
        state is AwaitStream && event == ProxyEvent::Stream(StreamEnd::TimedOut) ==> says(
            next,
            action,
            504,
            "Tunnel stream timeout"@,
        ),
        state is AwaitUpstream && event == ProxyEvent::Upstream(UpstreamEnd::Failed) ==> says(
            next,
            action,
            502,
            "Proxy error"@,
        ),
        state is AwaitUpstream && event == ProxyEvent::Upstream(UpstreamEnd::TimedOut) ==> says(
            next,
            action,
            504,
            "Proxy timeout"@,
        ),
        state is AwaitUpstream && event == ProxyEvent::Upstream(UpstreamEnd::Answered)
            ==> next is Settled && action is PassOn,
        state is Settled ==> next is Settled && action is Ignore && after == before,
{
}

/// Whether a text starts with neither a digit nor a plus sign.
pub open spec fn is_no_numeral(text: Seq<char>) -> bool {
    text.len() == 0 || (!('0' <= text[0] <= '9') && text[0] != '+')
}

/// No number is read from such a text.
proof fn lemma_no_numeral(text: Seq<char>, max: nat)
    ensures
        is_no_numeral(text) ==> number_in(text, max) is None,
{
    if is_no_numeral(text) && text.len() > 0 {
        law_only_numerals_are_read(text, max, 0);
    }
}

/// A request whose body is stated to be longer than what is let through is refused as too long;
/// one that states as much or less goes on, to the same tunnel and with its limit. A request
/// that states nothing that can be read goes on too.
pub proof fn law_long_bodies_are_refused(
    before: CoreModel,
    after: CoreModel,
    req: ProxyRequestModel,
    session_id: u128,
    tunnel_id: u128,
    max_connections: usize,
    n: nat,
    conn_id: u128,
    next: ProxyState,
    action: ProxyAction,
)
    requires
        proxy_stepped(
            before,
            after,
            req,
            ProxyState::AwaitRate { session_id, tunnel_id, max_connections },
            ProxyEvent::Rate(true),
            conn_id,
            next,
            action,
        ),
    ensures
        after == before,
        req.content_length == Some(decimal(n)) && req.max_body < n <= usize::MAX ==> says(
            next,
            action,
            413,
            "Request body too large"@,
        ),
        (req.content_length == Some(decimal(n)) && (n <= req.max_body || n > usize::MAX)) || (
        req.content_length matches Some(text) && is_no_numeral(text)) || req.content_length is None
            ==> next == (ProxyState::AwaitPermit { session_id, tunnel_id }) && action == (
        ProxyAction::TakePermit { tunnel_id, max_connections }),
{
    law_numerals_are_read_back(n, usize::MAX as nat);
    if let Some(text) = req.content_length {
        lemma_no_numeral(text, usize::MAX as nat);
    }
}

/// A request goes to a healthy member of the group that serves the subdomain its host names,
/// whose session is there, and to no other; it carries that member's tunnel, session and limit
/// along. It goes nowhere only where no member is healthy or a healthy one has lost its
/// session; then the public gets a page that names the subdomain.
pub proof fn law_requests_go_where_the_host_says(
    before: CoreModel,
    after: CoreModel,
    req: ProxyRequestModel,
    label: Seq<char>,
    conn_id: u128,
    next: ProxyState,
    action: ProxyAction,
)
    requires
        req.host is Some,
        host_name(req.host->0) == label + seq!['.'] + req.domain,
        proxy_stepped(
            before,
            after,
            req,
            ProxyState::AwaitIp,
            ProxyEvent::Ip(true),
            conn_id,
            next,
            action,
        ),
    ensures
        after == before,
        ({
            let g = before.http[label];
            ||| {
                &&& next is Settled
                &&& action matches ProxyAction::Answer(r) && r@ == gateway_reply(label) && r@.status
                    == 502
                &&& before.http.contains_key(label) ==> (forall|id: u128| #[trigger]
                    g.members.contains_key(id) ==> !g.members[id].healthy) || (exists|id: u128|
                 #[trigger]
                    g.members.contains_key(id) && g.members[id].healthy
                        && !before.sessions.contains_key(g.members[id].info.session_id))
            }
            ||| {
                &&& before.http.contains_key(label)
                &&& exists|id: u128| #[trigger]
                    g.members.contains_key(id) && g.members[id].healthy
                        && before.sessions.contains_key(g.members[id].info.session_id) && next == (
                    ProxyState::AwaitRate {
                        session_id: g.members[id].info.session_id,
                        tunnel_id: g.members[id].info.tunnel_id,
                        max_connections: g.members[id].info.max_connections,
                    }) && action == (ProxyAction::CheckRate {
                        tunnel_id: g.members[id].info.tunnel_id,
                    })
            }
        }),
{
    let key = KeyModel::Http(label);
    law_subdomain(req.host->0, req.domain, label);
    let r = choose|r: Option<TunnelInfo>| #[trigger]
        picked(before, key, r) && match r {
            None => next is Settled && crate::proxy::answers(action, gateway_reply(label)),
            Some(info) => next == (ProxyState::AwaitRate {
                session_id: info.session_id,
                tunnel_id: info.tunnel_id,
                max_connections: info.max_connections,
            }) && action == (ProxyAction::CheckRate { tunnel_id: info.tunnel_id }),
        };
    let g = before.http[label];
    if let Some(info) = r {
        let id = choose|id: u128| #[trigger]
            crate::router_model::can_serve(before, key, id) && info@
                == (crate::router_model::group_at(before, key)->0).members[id].info;
        assert(g.members.contains_key(id));
        assert(info@.session_id == g.members[id].info.session_id);
        assert(info@.tunnel_id == g.members[id].info.tunnel_id);
        assert(info@.max_connections == g.members[id].info.max_connections);
    } else if before.http.contains_key(label) {
        if crate::group::healthy_ids(g) =~= Set::empty() {
            assert forall|id: u128| #[trigger] g.members.contains_key(
                id,
            ) implies !g.members[id].healthy by {
                assert(!crate::group::healthy_ids(g).contains(id));
            }
        } else {
            let id = choose|id: u128| #[trigger]
                crate::group::is_healthy_member(g, id) && !before.sessions.contains_key(
                    g.members[id].info.session_id,
                );
            assert(g.members.contains_key(id));
        }
    }
}

/// The page for a subdomain that nobody serves is a page, and names the subdomain.
pub proof fn law_page_names_the_subdomain(label: Seq<char>, other: Seq<char>)
    ensures
        ({
            let p = gateway_reply(label);
            let n = GATEWAY_PAGE_HEAD@.len() as int;
            &&& p.status == 502 && p.content_type == "text/html; charset=utf-8"@
            &&& p.body.len() == n + label.len() + GATEWAY_PAGE_TAIL@.len()
            &&& p.body.subrange(n, n + label.len()) == label
            &&& gateway_reply(other) == p ==> other == label
        }),
{
    let (a, b) = (gateway_reply(label).body, gateway_reply(other).body);
    let n = GATEWAY_PAGE_HEAD@.len() as int;
    assert(a.subrange(n, n + label.len()) =~= label);
    assert(b.subrange(n, n + other.len()) =~= other);
}

/// A host without a subdomain under the domain leads nowhere.
pub proof fn law_strange_hosts_lead_nowhere(
    before: CoreModel,
    after: CoreModel,
    req: ProxyRequestModel,
    conn_id: u128,
    next: ProxyState,
    action: ProxyAction,
)
    requires
        req.host matches Some(host) && subdomain_of(host, req.domain) is None,
        proxy_stepped(
            before,
            after,
            req,
            ProxyState::AwaitIp,
            ProxyEvent::Ip(true),
            conn_id,
            next,
            action,
        ),
    ensures
        says(next, action, 400, "Cannot parse subdomain"@),
        after == before,
{
}

/// A request that every limit has let through counts once for its tunnel and waits under its
/// id; the tunnel's own session is told of that id, and the stream is awaited under it. Once
/// the stream is there, a request for WebSocket goes over to that; any other is forwarded to
/// the same tunnel, and what it states of its body counts there.
pub proof fn law_what_goes_through(
    before: CoreModel,
    after: CoreModel,
    req: ProxyRequestModel,
    state: ProxyState,
    event: ProxyEvent,
    conn_id: u128,
    next: ProxyState,
    action: ProxyAction,
)
    requires
        proxy_stepped(before, after, req, state, event, conn_id, next, action),
    ensures
        state matches ProxyState::AwaitPermit { session_id, tunnel_id } ==> (event
            == ProxyEvent::Permit(true) ==> ({
            let counted = request_counted(before, tunnel_id);
            &&& after == (CoreModel { pending: after.pending, ..counted })
            &&& forall|id: u128| #[trigger]
                after.pending.contains(id) <==> counted.pending.contains(id) || id == conn_id
            &&& next == (ProxyState::AwaitTold { tunnel_id, conn_id })
            &&& action == (ProxyAction::TellSession { session_id, conn_id })
        })),
        state matches ProxyState::AwaitTold { tunnel_id, conn_id: id } ==> (event
            == ProxyEvent::Told(true) ==> after == before && next == (ProxyState::AwaitStream {
            tunnel_id,
            conn_id: id,
        }) && action == (ProxyAction::AwaitStream { conn_id: id })),
        state matches ProxyState::AwaitStream { tunnel_id, .. } ==> (event == ProxyEvent::Stream(
            StreamEnd::Arrived,
        ) ==> if req.websocket {
            after == before && next is Settled && action == (ProxyAction::Upgrade { tunnel_id })
        } else {
            next is AwaitUpstream && (action matches ProxyAction::Forward {
                tunnel_id: id,
                request_bytes,
            } && id == tunnel_id && after == bytes_added(before, tunnel_id, request_bytes) && (
            req.content_length is None ==> request_bytes == 0) && (
            req.content_length matches Some(text) ==> (is_no_numeral(text) ==> request_bytes == 0))
                && forall|n: u64|
             #![trigger decimal(n as nat)]
                req.content_length == Some(decimal(n as nat)) ==> request_bytes == n)
        }),
        action is TellSession <==> state is AwaitPermit && event == ProxyEvent::Permit(true),
        action is Forward || action is Upgrade <==> state is AwaitStream && event
            == ProxyEvent::Stream(StreamEnd::Arrived),
{
    assert forall|n: u64| #![trigger decimal(n as nat)] number_in(
        decimal(n as nat),
        u64::MAX as nat,
    ) == Some(n as nat) by {
        law_numerals_are_read_back(n as nat, u64::MAX as nat);
    }
    if let Some(text) = req.content_length {
        lemma_no_numeral(text, u64::MAX as nat);
    }
}

/// A request that did not get through waits no longer where the edge gave it up, and nothing
/// else changes.
pub proof fn law_what_is_given_up(
    before: CoreModel,
    after: CoreModel,
    req: ProxyRequestModel,
    tunnel_id: u128,
    id: u128,
    event: ProxyEvent,
    conn_id: u128,
    next: ProxyState,
    action: ProxyAction,
    other: u128,
)
    requires
        (event == ProxyEvent::Told(false) && proxy_stepped(
            before,
            after,
            req,
            ProxyState::AwaitTold { tunnel_id, conn_id: id },
            event,
            conn_id,
            next,
            action,
        )) || (event == ProxyEvent::Stream(StreamEnd::TimedOut) && proxy_stepped(
            before,
            after,
            req,
            ProxyState::AwaitStream { tunnel_id, conn_id: id },
            event,
            conn_id,
            next,
            action,
        )),
    ensures
        after == (CoreModel { pending: after.pending, ..before }),
        after.pending.contains(other) <==> before.pending.contains(other) && other != id,
{
}

/// How long the public waits: half a minute for the stream, a minute for the answer.
pub proof fn law_how_long_the_public_waits()
    ensures
        STREAM_TIMEOUT_SECS == 30,
        PROXY_TIMEOUT_SECS == 60,
{
}

// ── header fields ────────────────────────────────────────────────────────────

/// The fields that are for one hop only.
pub open spec fn hop_fields() -> Set<Seq<char>> {
    set![
        "connection"@,
        "keep-alive"@,
        "proxy-authenticate"@,
        "proxy-authorization"@,
        "te"@,
        "trailers"@,
        "transfer-encoding"@,
        "upgrade"@,
    ]
}

/// Exactly the fields that are for one hop only are dropped; every other field keeps all its
/// values.
pub proof fn law_hop_fields_are_dropped(table: Map<Seq<char>, Seq<Seq<u8>>>, name: Seq<char>)
    ensures
        end_to_end(table).contains_key(name) <==> table.contains_key(name) && !hop_fields().contains(
            name,
        ),
        end_to_end(table).contains_key(name) ==> end_to_end(table)[name] == table[name],
{
}

/// The three fields that the edge sets differ.
proof fn lemma_fields_differ()
    ensures
        "x-forwarded-for"@ != "x-forwarded-proto"@,
        "x-forwarded-for"@ != "x-forwarded-host"@,
        "x-forwarded-proto"@ != "x-forwarded-host"@,
{
    reveal_strlit("x-forwarded-proto");
    reveal_strlit("x-forwarded-host");
    reveal_strlit("x-forwarded-for");
    assert("x-forwarded-proto"@.len() == 17);
    assert("x-forwarded-host"@.len() == 16);
    assert("x-forwarded-for"@.len() == 15);
}

/// What the local service sees: the peer's address behind those that the request came with, and
/// alone where it came with none; the scheme by which the public came, and the host that it
/// asked for. Each of these fields has that one value, and every other field is as it was.
pub proof fn law_what_the_service_sees(
    table: Map<Seq<char>, Seq<Seq<u8>>>,
    peer_ip: Seq<char>,
    scheme: ForwardScheme,
    host: Seq<char>,
    name: Seq<char>,
)
    ensures
        ({
            let t = forwarded(table, peer_ip, scheme, host);
            let has_chain = table.contains_key("x-forwarded-for"@) && is_field_text(
                table["x-forwarded-for"@][0],
            );
            let chain = if has_chain {
                decode_utf8(table["x-forwarded-for"@][0]) + ", "@ + peer_ip
            } else {
                peer_ip
            };
            &&& is_field_value(chain) ==> t.contains_key("x-forwarded-for"@) && t[
                "x-forwarded-for"@] == seq![encode_utf8(chain)]
            &&& t.contains_key("x-forwarded-proto"@) && t["x-forwarded-proto"@] == seq![
                encode_utf8(
                    if scheme is Https {
                        "https"@
                    } else {
                        "http"@
                    },
                ),
            ]
            &&& is_field_value(host) ==> t.contains_key("x-forwarded-host"@) && t[
                "x-forwarded-host"@] == seq![encode_utf8(host)]
            &&& name != "x-forwarded-for"@ && name != "x-forwarded-proto"@ && name
                != "x-forwarded-host"@ ==> t.contains_key(name) == table.contains_key(name) && (
            table.contains_key(name) ==> t[name] == table[name])
        }),
{
    lemma_fields_differ();
    reveal_strlit("http");
    reveal_strlit("https");
    let s = if scheme is Https {
        "https"@
    } else {
        "http"@
    };
    assert(is_ascii_chars(s));
    is_ascii_chars_encode_utf8(s);
    assert(encode_utf8(s) =~= Seq::new(s.len(), |i: int| s[i] as u8));
    assert(is_field_value(s));
}

/// What a request states of its host and of its length is what stands first in the field of that
/// name, where that can be read as text; a request without the field states nothing.
pub proof fn law_what_a_request_states(table: Map<Seq<char>, Seq<Seq<u8>>>)
    ensures
        stated_host(table) is Some <==> table.contains_key("host"@) && is_field_text(
            table["host"@][0],
        ),
        stated_host(table) matches Some(text) ==> text == decode_utf8(table["host"@][0]),
        stated_length(table) is Some <==> table.contains_key("content-length"@) && is_field_text(
            table["content-length"@][0],
        ),
        stated_length(table) matches Some(text) ==> text == decode_utf8(
            table["content-length"@][0],
        ),
{
}

/// A value can be read as text exactly if it is visible ASCII, spaces and tabs.
pub proof fn law_readable_values(value: Seq<u8>, i: int)
    ensures
        (forall|j: int| 0 <= j < value.len() ==> 32 <= #[trigger] value[j] <= 126 || value[j] == 9)
            ==> is_field_text(value),
        is_field_text(value) && 0 <= i < value.len() ==> 32 <= value[i] <= 126 || value[i] == 9,
{
}

/// No text with a line break or another control character but the tab can be the value of a
/// field.
pub proof fn law_control_characters_are_no_value(s: Seq<char>, i: int)
    requires
        is_ascii_chars(s),
        0 <= i < s.len(),
        (s[i] as u32) < 32 && s[i] as u32 != 9 || s[i] as u32 == 127,
    ensures
        !is_field_value(s),
{
    is_ascii_chars_encode_utf8(s);
    assert(encode_utf8(s) =~= Seq::new(s.len(), |j: int| s[j] as u8));
    assert(!is_value_byte(encode_utf8(s)[i]));
}

/// Fields are added to a request as long as it then has no more than 6554 names.
pub proof fn law_room_for_fields(table: Map<Seq<char>, Seq<Seq<u8>>>, n: nat)
    requires
        table.dom().finite(),
    ensures
        has_room(table, n) <==> table.dom().len() + n <= 6554,
{
}

/// Every text without control characters can be the value of a field.
pub proof fn law_plain_text_is_a_value(s: Seq<char>)
    requires
        forall|i: int| 0 <= i < s.len() ==> ' ' <= #[trigger] s[i] <= '~',
    ensures
        is_field_value(s),
{
    assert(is_ascii_chars(s));
    is_ascii_chars_encode_utf8(s);
    assert(encode_utf8(s) =~= Seq::new(s.len(), |i: int| s[i] as u8));
}

/// A request asks for WebSocket exactly if its first `Upgrade` says so, in whatever case.
pub proof fn law_who_asks_for_websocket(table: Map<Seq<char>, Seq<Seq<u8>>>)
    ensures
        ({
            let v = decode_utf8(table["upgrade"@][0]);
            &&& !table.contains_key("upgrade"@) ==> !asks_websocket(table)
            &&& table.contains_key("upgrade"@) && is_field_text(table["upgrade"@][0]) && (v
                == "websocket"@ || v == "WebSocket"@ || v == "WEBSOCKET"@) ==> asks_websocket(table)
            &&& asks_websocket(table) ==> v.len() == 9
        }),
{
    reveal_strlit("websocket");
    reveal_strlit("WebSocket");
    reveal_strlit("WEBSOCKET");
}

// ── what is kept ─────────────────────────────────────────────────────────────

/// What is kept of an exchange is what it was: nothing of it is changed, and the time it took is
/// in whole milliseconds, from when the request came.
pub proof fn law_what_is_kept(x: ExchangeModel, now: Clock)
    ensures
        ({
            let k = capture_of(x, now);
            &&& k.conn_id == x.conn_id && k.tunnel_id == x.tunnel_id && k.tunnel_label
                == x.tunnel_label
            &&& k.method == x.method && k.path == x.path && k.status == x.status
            &&& k.request_bytes == x.request_bytes && k.response_bytes == x.response_bytes
            &&& k.captured_at == now.unix
            &&& now.mono >= x.started ==> k.duration_ms * 1_000_000 <= now.mono - x.started < (
            k.duration_ms + 1) * 1_000_000
            &&& now.mono < x.started ==> k.duration_ms == 0
        }),
{
}

/// A piece of an answer adds its length to what went through, and changes nothing else.
pub proof fn law_pieces_add_up(x: ExchangeModel, n: u64)
    ensures
        frame_passed(x, n) == (ExchangeModel {
            response_bytes: frame_passed(x, n).response_bytes,
            ..x
        }),
        x.response_bytes + n <= u64::MAX ==> frame_passed(x, n).response_bytes == x.response_bytes
            + n,
{
}

/// A WebSocket counts with what went up and what came down together.
pub proof fn law_what_a_websocket_counts(c: CoreModel, tunnel_id: u128, up: u64, down: u64)
    requires
        up + down <= u64::MAX,
    ensures
        upgrade_settled(c, tunnel_id, up, down) == bytes_added(c, tunnel_id, (up + down) as u64),
{
}

/// A request asks for what it says, and for the root where it does not say.
pub proof fn law_what_is_asked_for(path: Seq<char>)
    ensures
        path_asked(Some(path)) == path,
        path_asked(None) == "/"@,
{
}

/// What is kept of a change to WebSocket: that it happened, under which id, when, and how long
/// it took until then.
pub proof fn law_what_is_kept_of_an_upgrade(conn_id: u128, started: u64, now: Clock)
    ensures
        ({
            let k = upgrade_capture(conn_id, started, now);
            &&& k.conn_id == conn_id && k.captured_at == now.unix
            &&& k.method == "WS-UPGRADE"@ && k.status == 101
            &&& k.tunnel_id == 0 && k.tunnel_label == ""@ && k.path == ""@
            &&& k.request_bytes == 0 && k.response_bytes == 0
            &&& now.mono >= started ==> k.duration_ms * 1_000_000 <= now.mono - started < (
            k.duration_ms + 1) * 1_000_000
            &&& now.mono < started ==> k.duration_ms == 0
        }),
{
}

} // verus!
