//! The header fields of a proxied request or response: `hyper::HeaderMap`.
use crate::text::join3;
use crate::table::has_size;
use hyper::HeaderMap;
use vstd::prelude::*;
use vstd::string::*;
use vstd::utf8::*;

verus! {

/// `hyper::HeaderMap`, a multimap from field names to values.
#[verifier::external_type_specification]
#[verifier::external_body]
#[verifier::reject_recursive_types(T)]
pub struct ExHeaderMap<T>(hyper::HeaderMap<T>);

/// `hyper::header::HeaderValue`, the value of a field.
#[verifier::external_type_specification]
#[verifier::external_body]
pub struct ExHeaderValue(hyper::header::HeaderValue);

/// What a header map holds: under each field name, in lower case, the bytes of its values.
pub uninterp spec fn header_table(m: HeaderMap<hyper::header::HeaderValue>) -> Map<
    Seq<char>,
    Seq<Seq<u8>>,
>;

/// Up to how many field names a header map never runs out of room.
pub const MAX_FIELD_NAMES: usize = 6554;

/// Whether `n` fields can be added to a header map.
pub open spec fn has_room(table: Map<Seq<char>, Seq<Seq<u8>>>, n: nat) -> bool {
    table.dom().finite() && table.dom().len() + n <= MAX_FIELD_NAMES
}

/// Whether a field is for one hop only, not to be passed on.
pub open spec fn is_hop_by_hop(name: Seq<char>) -> bool {
    ||| name == "connection"@
    ||| name == "keep-alive"@
    ||| name == "proxy-authenticate"@
    ||| name == "proxy-authorization"@
    ||| name == "te"@
    ||| name == "trailers"@
    ||| name == "transfer-encoding"@
    ||| name == "upgrade"@
}

/// The field names that the edge works with, all in lower case.
pub open spec fn is_edge_field(name: Seq<char>) -> bool {
    ||| is_hop_by_hop(name)
    ||| name == "x-forwarded-for"@
    ||| name == "x-forwarded-proto"@
    ||| name == "x-forwarded-host"@
    ||| name == "host"@
    ||| name == "content-length"@
    ||| name == "authorization"@
}

/// Whether a byte may stand in a field value that is set.
pub open spec fn is_value_byte(b: u8) -> bool {
    (b >= 32 && b != 127) || b == 9
}

/// Whether a byte may stand in a field value that is read as text.
pub open spec fn is_text_byte(b: u8) -> bool {
    (b >= 32 && b < 127) || b == 9
}

/// Whether a text can be the value of a field.
pub open spec fn is_field_value(text: Seq<char>) -> bool {
    forall|i: int| 0 <= i < encode_utf8(text).len() ==> is_value_byte(#[trigger] encode_utf8(text)[i])
}

/// Whether the value of a field can be read as text.
pub open spec fn is_field_text(value: Seq<u8>) -> bool {
    forall|i: int| 0 <= i < value.len() ==> is_text_byte(#[trigger] value[i])
}

/// The text of a field: of its first value, if that can be read as text.
pub open spec fn field_text(table: Map<Seq<char>, Seq<Seq<u8>>>, name: Seq<char>) -> Option<Seq<char>> {
    if table.contains_key(name) && is_field_text(table[name][0]) {
        Some(decode_utf8(table[name][0]))
    } else {
        None
    }
}

/// `HeaderMap::get` by a lower-case name, with the value's `HeaderValue::to_str`: the first
/// value of the field, if all its bytes are visible ASCII, spaces or tabs.
#[verifier::external_body]
pub(crate) fn header_text(m: &HeaderMap, name: &str) -> (r: Option<String>)
    requires
        is_edge_field(name@),
    ensures
        crate::text::opt_text(r) == field_text(header_table(*m), name@),
{
    m.get(name).and_then(|value| value.to_str().ok()).map(|text| text.to_owned())
}

/// `HeaderMap::remove` by a lower-case name: the field is gone, with all its values.
#[verifier::external_body]
fn header_remove(m: &mut HeaderMap, name: &str)
    requires
        is_edge_field(name@),
    ensures
        header_table(*final(m)) == header_table(*old(m)).remove(name@),
{
    m.remove(name);
}

/// `HeaderMap::insert` under a lower-case name of the value that `HeaderValue::from_str`
/// makes of the text: the field has this value and no other. Where the text makes no value,
/// nothing changes. The map only ever refuses to grow from that many names on.
#[verifier::external_body]
fn header_set(m: &mut HeaderMap, name: &'static str, text: &str) -> (r: bool)
    requires
        is_edge_field(name@),
        has_room(header_table(*old(m)), 1),
    ensures
        r == is_field_value(text@),
        header_table(*final(m)) == field_set(header_table(*old(m)), name@, text@),
{
    match hyper::header::HeaderValue::from_str(text) {
        Ok(value) => {
            m.insert(name, value);
            true
        }
        Err(_) => false,
    }
}

/// `HeaderMap::keys_len`: how many field names the map holds.
#[verifier::external_body]
fn field_count(m: &HeaderMap) -> (r: usize)
    ensures
        has_size(header_table(*m), r as nat),
{
    m.keys_len()
}

/// Whether `n` fields can be added to a header map.
pub fn room_for(headers: &HeaderMap, n: usize) -> (r: bool)
    ensures
        r == has_room(header_table(*headers), n as nat),
{
    let count: usize = field_count(headers);
    n <= MAX_FIELD_NAMES && count <= MAX_FIELD_NAMES - n
}

/// `table` with a field set to a text, if that can be the value of a field.
pub open spec fn field_set(
    table: Map<Seq<char>, Seq<Seq<u8>>>,
    name: Seq<char>,
    text: Seq<char>,
) -> Map<Seq<char>, Seq<Seq<u8>>> {
    if is_field_value(text) {
        table.insert(name, seq![encode_utf8(text)])
    } else {
        table
    }
}

/// Drops the fields that are for one hop only.
pub fn remove_hop_by_hop(headers: &mut HeaderMap)
    ensures
        header_table(*final(headers)) == header_table(*old(headers)).remove_keys(
            Set::new(|name: Seq<char>| is_hop_by_hop(name)),
        ),
{
    header_remove(headers, "connection");
    header_remove(headers, "keep-alive");
    header_remove(headers, "proxy-authenticate");
    header_remove(headers, "proxy-authorization");
    header_remove(headers, "te");
    header_remove(headers, "trailers");
    header_remove(headers, "transfer-encoding");
    header_remove(headers, "upgrade");
    assert(header_table(*headers) =~= header_table(*old(headers)).remove_keys(
        Set::new(|name: Seq<char>| is_hop_by_hop(name)),
    ));
}

/// The scheme by which the public reached the edge.
#[derive(Debug, Clone, Copy, PartialEq, Eq, Structural)]
pub enum ForwardScheme {
    Http,
    Https,
}

/// The name of a scheme.
pub open spec fn scheme_name(s: ForwardScheme) -> Seq<char> {
    match s {
        ForwardScheme::Http => "http"@,
        ForwardScheme::Https => "https"@,
    }
}

impl ForwardScheme {
    /// The name of the scheme.
    pub fn as_str(self) -> (r: &'static str)
        ensures
            r@ == scheme_name(self),
    {
        match self {
            ForwardScheme::Http => "http",
            ForwardScheme::Https => "https",
        }
    }
}

/// The chain of addresses that a request has come through, with the peer added.
pub open spec fn forwarded_for(
    table: Map<Seq<char>, Seq<Seq<u8>>>,
    peer_ip: Seq<char>,
) -> Seq<char> {
    match field_text(table, "x-forwarded-for"@) {
        Some(existing) => existing + ", "@ + peer_ip,
        None => peer_ip,
    }
}

/// The header fields of a request that the edge passes on: the peer is added to the chain of
/// addresses; scheme and host are the edge's own word.
pub open spec fn forwarded(
    table: Map<Seq<char>, Seq<Seq<u8>>>,
    peer_ip: Seq<char>,
    scheme: ForwardScheme,
    host: Seq<char>,
) -> Map<Seq<char>, Seq<Seq<u8>>> {
    let t1 = field_set(table, "x-forwarded-for"@, forwarded_for(table, peer_ip));
    let t2 = field_set(t1, "x-forwarded-proto"@, scheme_name(scheme));
    field_set(t2, "x-forwarded-host"@, host)
}

/// Setting a field takes the room of one.
proof fn lemma_room(table: Map<Seq<char>, Seq<Seq<u8>>>, name: Seq<char>, text: Seq<char>, n: nat)
    requires
        has_room(table, n),
        n > 0,
    ensures
        has_room(field_set(table, name, text), (n - 1) as nat),
{
    assert(table.insert(name, seq![encode_utf8(text)]).dom() =~= table.dom().insert(name));
}

/// Says who sent a request, by which scheme and for which host. Whatever the client claims
/// about scheme and host is overwritten.
pub fn set_forwarded_headers(
    headers: &mut HeaderMap,
    peer_ip: &str,
    scheme: ForwardScheme,
    original_host: &str,
)
    requires
        has_room(header_table(*old(headers)), 3),
    ensures
        header_table(*final(headers)) == forwarded(
            header_table(*old(headers)),
            peer_ip@,
            scheme,
            original_host@,
        ),
{
    let ghost t0 = header_table(*headers);
    let chain: String = match header_text(headers, "x-forwarded-for") {
        Some(existing) => join3(existing.as_str(), ", ", peer_ip),
        None => peer_ip.to_owned(),
    };
    proof {
        lemma_room(t0, "x-forwarded-for"@, chain@, 3);
    }
    let _set: bool = header_set(headers, "x-forwarded-for", chain.as_str());
    proof {
        lemma_room(header_table(*headers), "x-forwarded-proto"@, scheme_name(scheme), 2);
    }
    let _set: bool = header_set(headers, "x-forwarded-proto", scheme.as_str());
    let _set: bool = header_set(headers, "x-forwarded-host", original_host);
}

/// A character in lower case, if it is an ASCII letter.
pub open spec fn ascii_lower(c: char) -> char {
    if 'A' <= c && c <= 'Z' {
        ((c as int) + 32) as char
    } else {
        c
    }
}

/// Whether two texts are the same but for the case of ASCII letters.
pub open spec fn same_ignoring_case(a: Seq<char>, b: Seq<char>) -> bool {
    a.len() == b.len() && forall|i: int|
        0 <= i < a.len() ==> ascii_lower(#[trigger] a[i]) == ascii_lower(b[i])
}

/// A character in lower case, if it is an ASCII letter.
fn lower(c: char) -> (r: char)
    ensures
        r == ascii_lower(c),
{
    if 'A' <= c && c <= 'Z' {
        let n: u8 = c as u8;
        (n + 32) as char
    } else {
        c
    }
}

/// Whether two texts are the same but for the case of ASCII letters.
fn eq_ignore_case(a: &str, b: &str) -> (r: bool)
    ensures
        r == same_ignoring_case(a@, b@),
{
    let x: Vec<char> = crate::text::chars_of(a);
    let y: Vec<char> = crate::text::chars_of(b);
    if x.len() != y.len() {
        return false;
    }
    let mut i: usize = 0;
    while i < x.len()
        invariant
            i <= x@.len() == y@.len(),
            x@ == a@,
            y@ == b@,
            forall|j: int| 0 <= j < i ==> ascii_lower(#[trigger] a@[j]) == ascii_lower(b@[j]),
        decreases x@.len() - i,
    {
        if lower(x[i]) != lower(y[i]) {
            assert(ascii_lower(a@[i as int]) != ascii_lower(b@[i as int]));
            return false;
        }
        i = i + 1;
    }
    true
}

/// Whether a request asks to go over to WebSocket.
pub open spec fn asks_websocket(table: Map<Seq<char>, Seq<Seq<u8>>>) -> bool {
    match field_text(table, "upgrade"@) {
        Some(v) => same_ignoring_case(v, "websocket"@),
        None => false,
    }
}

/// Whether a request asks to go over to WebSocket.
pub fn is_websocket_upgrade(headers: &HeaderMap) -> (r: bool)
    ensures
        r == asks_websocket(header_table(*headers)),
{
    match header_text(headers, "upgrade") {
        Some(v) => eq_ignore_case(v.as_str(), "websocket"),
        None => false,
    }
}

/// The host that a request states.
pub open spec fn stated_host(table: Map<Seq<char>, Seq<Seq<u8>>>) -> Option<Seq<char>> {
    field_text(table, "host"@)
}

/// How long a request states that its body is, as it stands there.
pub open spec fn stated_length(table: Map<Seq<char>, Seq<Seq<u8>>>) -> Option<Seq<char>> {
    field_text(table, "content-length"@)
}

/// The `Host` field of a request.
pub fn host_header(headers: &HeaderMap) -> (r: Option<String>)
    ensures
        crate::text::opt_text(r) == stated_host(header_table(*headers)),
{
    header_text(headers, "host")
}

/// The `Content-Length` field of a request.
pub fn content_length_header(headers: &HeaderMap) -> (r: Option<String>)
    ensures
        crate::text::opt_text(r) == stated_length(header_table(*headers)),
{
    header_text(headers, "content-length")
}

// ── laws ─────────────────────────────────────────────────────────────────────

/// Fields that are for one hop only do not get through; every other does, unchanged.
pub proof fn law_end_to_end_fields_survive(table: Map<Seq<char>, Seq<Seq<u8>>>, name: Seq<char>)
    ensures
        ({
            let t = table.remove_keys(Set::new(|n: Seq<char>| is_hop_by_hop(n)));
            &&& is_hop_by_hop(name) ==> !t.contains_key(name)
            &&& !is_hop_by_hop(name) ==> t.contains_key(name) == table.contains_key(name)
            &&& t.contains_key(name) ==> t[name] == table[name]
        }),
{
}

/// What a client claims about the scheme and the host does not get through: the fields the
/// edge sets do not depend on it.
pub proof fn law_claims_are_overwritten(
    a: Map<Seq<char>, Seq<Seq<u8>>>,
    b: Map<Seq<char>, Seq<Seq<u8>>>,
    peer_ip: Seq<char>,
    scheme: ForwardScheme,
    host: Seq<char>,
)
    requires
        is_field_value(host),
    ensures
        forwarded(a, peer_ip, scheme, host)["x-forwarded-proto"@] == forwarded(
            b,
            peer_ip,
            scheme,
            host,
        )["x-forwarded-proto"@],
        forwarded(a, peer_ip, scheme, host)["x-forwarded-proto"@] == seq![
            encode_utf8(scheme_name(scheme)),
        ],
        forwarded(a, peer_ip, scheme, host)["x-forwarded-host"@] == seq![encode_utf8(host)],
{
    reveal_strlit("x-forwarded-proto");
    reveal_strlit("x-forwarded-host");
    reveal_strlit("x-forwarded-for");
    assert("x-forwarded-proto"@.len() == 17);
    assert("x-forwarded-host"@.len() == 16);
    lemma_scheme_is_value(scheme);
}

/// The name of a scheme can be the value of a field.
proof fn lemma_scheme_is_value(scheme: ForwardScheme)
    ensures
        is_field_value(scheme_name(scheme)),
{
    reveal_strlit("http");
    reveal_strlit("https");
    let s = scheme_name(scheme);
    assert(is_ascii_chars(s));
    is_ascii_chars_encode_utf8(s);
    assert(encode_utf8(s) =~= Seq::new(s.len(), |i: int| s[i] as u8));
}

} // verus!
