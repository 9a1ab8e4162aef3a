//! Who is throttled and for how long, whose word is taken for an address, and how addresses and
//! times are written.
use crate::address::{
    gap_from, ip_of, is_loopback, is_white, joined, number, octet_of, side_of, split_on, trimmed, v4_of, word_of,
    word_values, words_of, IpAddr,
};
use crate::auth::{
    client_of, failure_recorded, failures_asked, failures_of, idle_evicted, ip_key, limited, minute_limiter,
    new_limiter, LimiterModel,
    SWEEP_THRESHOLD,
};
use crate::clock::{iso_of_instant, iso_of_unix, millis, rfc3339, Clock};
use crate::edge_laws::law_decimal_stands_for_the_number;
use crate::ids::hex_digit;
use crate::text::{all_digits, decimal};
use vstd::prelude::*;

verus! {

// ── throttling ───────────────────────────────────────────────────────────────

/// A failed attempt counts until the window has passed, and no longer: with a budget of one, an
/// address without failures on file is limited from its first failure until then.
pub proof fn law_one_failure_counts_for_the_window(
    l: LimiterModel,
    ip: IpAddr,
    at: u64,
    later: u64,
    now: u64,
)
    requires
        l.max_failures == 1,
        failures_of(l, ip).len() == 0,
        l.failures.dom().finite(),
        l.failures.dom().len() < 10_000,
    ensures
        !limited(l, ip, now),
        limited(failure_recorded(l, ip, at, later), ip, now) <==> now <= at + l.window,
{
    reveal_with_fuel(crate::auth::pruned, 2);
    let l1 = failure_recorded(l, ip, at, later);
    assert(l.failures.insert(ip_key(ip), seq![at]).dom() =~= l.failures.dom().insert(ip_key(ip)));
    assert(failures_of(l, ip).push(at) =~= seq![at]);
    assert(failures_of(l1, ip) =~= seq![at]);
    assert(seq![at].drop_first() =~= Seq::empty());
}

/// A new limiter limits nobody. One that allows a single failure a minute limits an address for
/// sixty seconds after its first, and no other address at all.
pub proof fn law_new_limiter(ip: IpAddr, other: IpAddr, at: u64, later: u64, now: u64)
    ensures
        forall|n: u32| !#[trigger] limited(minute_limiter(n), ip, now),
        limited(failure_recorded(minute_limiter(1), ip, at, later), ip, now) <==> now <= at + 60
            * 1_000_000_000,
        other != ip ==> !limited(failure_recorded(minute_limiter(1), ip, at, later), other, now),
        forall|n: u32, w: u64|
            (#[trigger] new_limiter(n, w)).window == w && new_limiter(n, w).max_failures == n,
{
    let l = minute_limiter(1);
    assert(failures_of(l, ip) =~= Seq::empty());
    law_one_failure_counts_for_the_window(l, ip, at, later, now);
    law_addresses_are_filed_apart(ip, other);
    let times = crate::auth::pruned(failures_of(l, ip), at, l.window).push(at);
    assert(l.failures.insert(ip_key(ip), times).dom() =~= Set::empty().insert(ip_key(ip)));
}

/// With any budget, an address is limited exactly once it has failed that often at a time: the
/// last failure that the budget allows is the first that it does not forgive.
pub proof fn law_budget_is_used_up_by_its_last_failure(
    l: LimiterModel,
    ip: IpAddr,
    at: u64,
    later: u64,
)
    requires
        l.max_failures > 0,
        forall|i: int| 0 <= i < failures_of(l, ip).len() ==> failures_of(l, ip)[i] == at,
        l.failures.dom().finite(),
        l.failures.dom().len() < 10_000,
    ensures
        limited(l, ip, at) <==> failures_of(l, ip).len() >= l.max_failures,
        limited(failure_recorded(l, ip, at, later), ip, at) <==> failures_of(l, ip).len() + 1
            >= l.max_failures,
{
    let times = failures_of(l, ip);
    lemma_fresh_stay(times, at, l.window);
    assert(l.failures.insert(ip_key(ip), times.push(at)).dom() =~= l.failures.dom().insert(
        ip_key(ip),
    ));
    lemma_fresh_stay(times.push(at), at, l.window);
}

/// Failures of this very moment all count.
proof fn lemma_fresh_stay(times: Seq<u64>, at: u64, window: u64)
    requires
        forall|i: int| 0 <= i < times.len() ==> times[i] == at,
    ensures
        crate::auth::pruned(times, at, window) == times,
{
}

/// Asking about an address forgets nothing that still counts of anybody, and nothing at all of
/// any other address.
pub proof fn law_asking_is_harmless(l: LimiterModel, ip: IpAddr, other: IpAddr, now: u64)
    ensures
        limited(failures_asked(l, ip, now), ip, now) == limited(l, ip, now),
        other != ip ==> failures_of(failures_asked(l, ip, now), other) == failures_of(l, other),
        failures_asked(l, ip, now).window == l.window,
        failures_asked(l, ip, now).max_failures == l.max_failures,
{
    lemma_pruned_twice(failures_of(l, ip), now, l.window);
    law_addresses_are_filed_apart(ip, other);
}

/// What was pruned stays pruned.
proof fn lemma_pruned_twice(times: Seq<u64>, now: u64, window: u64)
    ensures
        crate::auth::pruned(crate::auth::pruned(times, now, window), now, window)
            == crate::auth::pruned(times, now, window),
    decreases times.len(),
{
    if times.len() > 0 && crate::auth::is_stale(times[0], now, window) {
        lemma_pruned_twice(times.drop_first(), now, window);
    }
}

/// Two addresses are filed in the same place exactly if they are the same.
pub proof fn law_addresses_are_filed_apart(a: IpAddr, b: IpAddr)
    ensures
        ip_key(a) == ip_key(b) <==> a == b,
{
}

/// Sweeping forgets exactly the addresses whose latest failure no longer counts; the others
/// keep all that is on file. It is done once more than ten thousand are on file, and not
/// before.
pub proof fn law_sweeping(
    l: LimiterModel,
    ip: IpAddr,
    now: u64,
    later: u64,
    key: (u8, u128),
)
    ensures
        idle_evicted(l, now).failures.contains_key(key) <==> l.failures.contains_key(key)
            && l.failures[key].len() > 0 && now <= l.failures[key].last() + l.window,
        idle_evicted(l, now).failures.contains_key(key) ==> idle_evicted(l, now).failures[key]
            == l.failures[key],
        idle_evicted(l, now).window == l.window && idle_evicted(l, now).max_failures
            == l.max_failures,
        SWEEP_THRESHOLD == 10_000,
        l.max_failures > 0 && l.failures.dom().finite() && l.failures.dom().len() < 10_000
            && l.failures.contains_key(key) && key != ip_key(ip) ==> failure_recorded(
            l,
            ip,
            now,
            later,
        ).failures.contains_key(key) && failure_recorded(l, ip, now, later).failures[key]
            == l.failures[key],
{
    let times = crate::auth::pruned(failures_of(l, ip), now, l.window).push(now);
    assert(l.failures.insert(ip_key(ip), times).dom() =~= l.failures.dom().insert(ip_key(ip)));
}

// ── whose word is taken ──────────────────────────────────────────────────────

/// What a proxy says of where a request comes from counts only from a proxy on this machine, and
/// only where it is an address; otherwise the connection's own address counts.
pub proof fn law_only_a_local_proxy_is_believed(peer: IpAddr, said: Option<Seq<char>>)
    ensures
        (peer matches IpAddr::V4(bits) && !(0x7f00_0000 <= bits < 0x8000_0000)) ==> client_of(
            peer,
            said,
        ) == peer,
        (peer matches IpAddr::V6(bits) && bits != 1) ==> client_of(peer, said) == peer,
        said is None ==> client_of(peer, said) == peer,
        said matches Some(text) ==> (ip_of(trimmed(text)) is None ==> client_of(peer, said) == peer),
        (said matches Some(text) && ip_of(trimmed(text)) is Some && is_loopback(peer))
            ==> client_of(peer, said) == ip_of(trimmed(said->0))->0,
        (peer matches IpAddr::V4(bits) && 0x7f00_0000 <= bits < 0x8000_0000) ==> is_loopback(peer),
        peer == IpAddr::V6(1) ==> is_loopback(peer),
{
}

// ── how addresses are written ────────────────────────────────────────────────

/// The numeral of a number up to 255 stands for that number in an address.
proof fn lemma_octet(n: nat)
    requires
        n <= 255,
    ensures
        octet_of(decimal(n)) == Some(n),
        forall|i: int| 0 <= i < decimal(n).len() ==> decimal(n)[i] != '.' && !is_white(decimal(n)[i]),
        decimal(n).len() > 0,
{
    law_decimal_stands_for_the_number(n);
    lemma_number_is_value(decimal(n));
    reveal_with_fuel(decimal, 4);
    assert(all_digits(decimal(n)));
    if n < 10 {
        assert(decimal(n).len() == 1);
    } else if n < 100 {
        assert(decimal(n / 10).len() == 1);
        assert(decimal(n).len() == 2);
    } else {
        assert(decimal(n / 100).len() == 1);
        assert(n / 10 / 10 == n / 100);
        assert(decimal(n / 10).len() == 2);
        assert(decimal(n).len() == 3);
    }
}

/// Decimal digits stand for the same number wherever they are read.
proof fn lemma_number_is_value(s: Seq<char>)
    requires
        all_digits(s),
    ensures
        number(s, 10) == Some(crate::text::digits_value(s)),
    decreases s.len(),
{
    if s.len() > 0 {
        let front = s.drop_last();
        assert forall|i: int| 0 <= i < front.len() implies '0' <= (#[trigger] front[i]) <= '9' by {
            assert(front[i] == s[i]);
        }
        lemma_number_is_value(front);
        assert('0' <= s[s.len() - 1] <= '9');
    }
}

/// What one more piece does.
proof fn lemma_split_one(s: Seq<char>, sep: char, piece: Seq<char>)
    requires
        forall|i: int| 0 <= i < piece.len() ==> piece[i] != sep,
    ensures
        split_on(s + seq![sep] + piece, sep) == split_on(s, sep).push(piece),
    decreases piece.len(),
{
    let full = s + seq![sep] + piece;
    if piece.len() == 0 {
        assert(full.last() == sep);
        assert(full.drop_last() =~= s);
        assert(piece =~= Seq::empty());
    } else {
        let front = piece.drop_last();
        lemma_split_one(s, sep, front);
        assert(full.last() == piece.last());
        assert(full.drop_last() =~= s + seq![sep] + front);
        let before = split_on(s, sep).push(front);
        assert(before.drop_last() =~= split_on(s, sep));
        assert(before.last().push(piece.last()) =~= piece);
    }
}

/// A text without a separator is one piece.
proof fn lemma_split_none(sep: char, piece: Seq<char>)
    requires
        forall|i: int| 0 <= i < piece.len() ==> piece[i] != sep,
    ensures
        split_on(piece, sep) == seq![piece],
    decreases piece.len(),
{
    if piece.len() > 0 {
        let front = piece.drop_last();
        lemma_split_none(sep, front);
        assert(seq![front].drop_last() =~= Seq::empty());
        assert(front.push(piece.last()) =~= piece);
        assert(Seq::<Seq<char>>::empty().push(piece) =~= seq![piece]);
    }
}

/// The usual form of an address of four bytes.
pub open spec fn dotted(a: nat, b: nat, c: nat, d: nat) -> Seq<char> {
    decimal(a) + seq!['.'] + decimal(b) + seq!['.'] + decimal(c) + seq!['.'] + decimal(d)
}

/// An address of four bytes is read back from its usual form, the first number as its most
/// significant byte, with white space around it or without.
pub proof fn law_dotted_addresses_are_read_back(a: nat, b: nat, c: nat, d: nat)
    requires
        a <= 255 && b <= 255 && c <= 255 && d <= 255,
    ensures
        ip_of(dotted(a, b, c, d)) == Some(
            IpAddr::V4((((a * 256 + b) * 256 + c) * 256 + d) as u32),
        ),
        trimmed(dotted(a, b, c, d)) == dotted(a, b, c, d),
        trimmed(seq![' '] + dotted(a, b, c, d) + seq![' ']) == dotted(a, b, c, d),
{
    lemma_octet(a);
    lemma_octet(b);
    lemma_octet(c);
    lemma_octet(d);
    let s1 = decimal(a);
    let s2 = s1 + seq!['.'] + decimal(b);
    let s3 = s2 + seq!['.'] + decimal(c);
    let s = dotted(a, b, c, d);
    lemma_split_none('.', s1);
    lemma_split_one(s1, '.', decimal(b));
    lemma_split_one(s2, '.', decimal(c));
    lemma_split_one(s3, '.', decimal(d));
    assert(s =~= s3 + seq!['.'] + decimal(d));
    let parts = seq![decimal(a)].push(decimal(b)).push(decimal(c)).push(decimal(d));
    assert(split_on(s, '.') =~= parts);
    assert(a * 0x100_0000 + b * 0x1_0000 + c * 0x100 + d == ((a * 256 + b) * 256 + c) * 256 + d);
    assert(s[0] == decimal(a)[0]);
    assert(s.last() == decimal(d)[decimal(d).len() - 1]);
    let wide = seq![' '] + s + seq![' '];
    assert(wide.drop_first() =~= s + seq![' ']);
    assert((s + seq![' ']).drop_last() =~= s);
    assert((s + seq![' '])[0] == s[0]);
    assert(trimmed(wide) == trimmed(s + seq![' ']));
    assert(trimmed(s + seq![' ']) == trimmed(s));
}

/// No address of four bytes has a number above 255, a zero in front or fewer than four numbers.
pub proof fn law_what_is_no_dotted_address(n: nat, s: Seq<char>)
    ensures
        n > 255 ==> octet_of(decimal(n)) is None,
        octet_of(seq!['0'] + decimal(n)) is None,
        split_on(s, '.').len() != 4 ==> v4_of(s) is None,
{
    law_decimal_stands_for_the_number(n);
    lemma_number_is_value(decimal(n));
}

/// Four hexadecimal digits of a group of sixteen bits.
pub open spec fn hex_group(n: u16) -> Seq<char> {
    seq![
        hex_digit(n as int / 0x1000),
        hex_digit(n as int / 0x100 % 16),
        hex_digit(n as int / 0x10 % 16),
        hex_digit(n as int % 16),
    ]
}

/// Groups of sixteen bits in hexadecimal, with colons between them.
pub open spec fn colon_form(words: Seq<u16>) -> Seq<char>
    decreases words.len(),
{
    if words.len() == 0 {
        Seq::empty()
    } else if words.len() == 1 {
        hex_group(words[0])
    } else {
        colon_form(words.drop_last()) + seq![':'] + hex_group(words.last())
    }
}

/// The number that groups of sixteen bits stand for, the most significant first.
pub open spec fn bits_of(words: Seq<u16>) -> nat
    decreases words.len(),
{
    if words.len() == 0 {
        0
    } else {
        bits_of(words.drop_last()) * 0x1_0000 + words.last() as nat
    }
}

/// What a group is made of, and what it stands for.
proof fn lemma_hex_group(n: u16)
    ensures
        word_of(hex_group(n)) == Some(n as nat),
        forall|i: int|
            0 <= i < 4 ==> (#[trigger] hex_group(n)[i]) != ':' && hex_group(n)[i] != '.',
{
    let s = hex_group(n);
    let s3 = s.drop_last();
    let s2 = s3.drop_last();
    let s1 = s2.drop_last();
    assert(s1.drop_last() =~= Seq::empty());
    assert(s1.last() == s[0] && s2.last() == s[1] && s3.last() == s[2] && s.last() == s[3]);
    reveal_with_fuel(number, 6);
    let x = n as int;
    assert(x / 0x1000 < 16);
    assert(number(s1, 16) == Some((x / 0x1000) as nat));
    assert(x / 0x100 == x / 0x1000 * 16 + x / 0x100 % 16);
    assert(number(s2, 16) == Some((x / 0x100) as nat));
    assert(x / 0x10 == x / 0x100 * 16 + x / 0x10 % 16);
    assert(number(s3, 16) == Some((x / 0x10) as nat));
    assert(x == x / 0x10 * 16 + x % 16);
}

/// What groups with colons between them are made of, and what they stand for.
proof fn lemma_colon_form(words: Seq<u16>, dotted: bool)
    requires
        words.len() > 0,
    ensures
        ({
            let s = colon_form(words);
            &&& s.len() > 0 && s[0] != ':' && s.last() != ':'
            &&& forall|i: int| 0 <= i < s.len() ==> s[i] != '.'
            &&& forall|i: int| 0 <= i < s.len() - 1 ==> !(s[i] == ':' && #[trigger] s[i + 1] == ':')
            &&& words_of(split_on(s, ':'), dotted) == Some(word_values(words))
            &&& joined(word_values(words)) == bits_of(words)
        }),
    decreases words.len(),
{
    let last = words.last();
    let h = hex_group(last);
    lemma_hex_group(last);
    let s = colon_form(words);
    let front = words.drop_last();
    assert(word_values(words).drop_last() =~= word_values(front));
    if words.len() == 1 {
        assert(words[0] == last);
        lemma_split_none(':', h);
        assert(s == h);
        assert(seq![h].drop_last() =~= Seq::<Seq<char>>::empty());
        assert(words_of(Seq::<Seq<char>>::empty(), false) == Some(Seq::<nat>::empty()));
        assert(seq![h].last() == h);
        assert(Seq::<nat>::empty().push(last as nat) =~= word_values(words));
        assert(front =~= Seq::<u16>::empty());
        assert(word_values(front) =~= Seq::<nat>::empty());
        assert(joined(Seq::<nat>::empty()) == 0);
        assert(bits_of(front) == 0);
        assert forall|i: int| 0 <= i < s.len() - 1 implies !(s[i] == ':' && #[trigger] s[i + 1]
            == ':') by {
            assert(s[i] == h[i]);
        }
    } else {
        lemma_colon_form(front, false);
        let f = colon_form(front);
        assert(s == f + seq![':'] + h);
        lemma_split_one(f, ':', h);
        let parts = split_on(s, ':');
        assert(parts.drop_last() =~= split_on(f, ':'));
        assert(word_values(front).push(last as nat) =~= word_values(words));
        assert(s[0] == f[0]);
        assert(s.last() == h[3]);
        assert forall|i: int| 0 <= i < s.len() implies s[i] != '.' by {
            if i < f.len() {
                assert(s[i] == f[i]);
            } else if i > f.len() {
                assert(s[i] == h[i - f.len() - 1]);
            }
        }
        assert forall|i: int| 0 <= i < s.len() - 1 implies !(s[i] == ':' && #[trigger] s[i + 1]
            == ':') by {
            if i + 1 < f.len() {
                assert(s[i] == f[i] && s[i + 1] == f[i + 1]);
            } else if i + 1 == f.len() {
                assert(s[i] == f.last());
            } else {
                assert(s[i + 1] == h[i + 1 - f.len() - 1]);
            }
        }
    }
}

/// Where the first gap is.
proof fn lemma_gap(s: Seq<char>, from: int, k: int)
    requires
        0 <= from <= k <= s.len(),
        forall|i: int| from <= i < k && i + 1 < s.len() ==> !(s[i] == ':' && #[trigger] s[i + 1] == ':'),
        k < s.len() ==> k + 1 < s.len() && s[k] == ':' && s[k + 1] == ':',
    ensures
        gap_from(s, from) == k,
    decreases k - from,
{
    if from < k {
        if from + 1 < s.len() {
            assert(!(s[from] == ':' && s[from + 1] == ':'));
            lemma_gap(s, from + 1, k);
        } else {
            assert(k == s.len());
        }
    }
}

/// A text without dots is no address of four bytes.
proof fn lemma_no_dots(s: Seq<char>)
    requires
        forall|i: int| 0 <= i < s.len() ==> s[i] != '.',
    ensures
        v4_of(s) is None,
{
    lemma_split_none('.', s);
}

/// An address of sixteen bytes is read back from its eight groups, the first as its most
/// significant; any other number of groups is no address.
pub proof fn law_groups_are_read_back(words: Seq<u16>)
    requires
        words.len() > 0,
    ensures
        words.len() == 8 ==> ip_of(colon_form(words)) == Some(IpAddr::V6(bits_of(words) as u128)),
        words.len() != 8 ==> ip_of(colon_form(words)) is None,
{
    let s = colon_form(words);
    lemma_colon_form(words, true);
    lemma_no_dots(s);
    assert forall|i: int| 0 <= i < s.len() && i + 1 < s.len() implies !(s[i] == ':'
        && #[trigger] s[i + 1] == ':') by {}
    lemma_gap(s, 0, s.len() as int);
    assert(word_values(words).len() == words.len());
}

/// What groups on one side of a gap stand for.
proof fn lemma_side(words: Seq<u16>, dotted: bool)
    ensures
        side_of(colon_form(words), dotted) == Some(word_values(words)),
        forall|i: int| 0 <= i < colon_form(words).len() ==> colon_form(words)[i] != '.',
{
    if words.len() > 0 {
        lemma_colon_form(words, dotted);
    } else {
        assert(word_values(words) =~= Seq::<nat>::empty());
    }
}

/// Where the gap between two sides is.
proof fn lemma_sides(a: Seq<u16>, b: Seq<u16>)
    ensures
        ({
            let (x, y) = (colon_form(a), colon_form(b));
            let s = x + seq![':', ':'] + y;
            &&& v4_of(s) is None
            &&& gap_from(s, 0) == x.len()
            &&& x.len() < s.len()
            &&& s.take(x.len() as int) == x
            &&& s.skip(x.len() as int + 2) == y
        }),
{
    let (x, y) = (colon_form(a), colon_form(b));
    let s = x + seq![':', ':'] + y;
    let k = x.len() as int;
    lemma_side(a, false);
    lemma_side(b, true);
    assert forall|i: int| 0 <= i < s.len() implies s[i] != '.' by {
        if i < k {
            assert(s[i] == x[i]);
        } else if i >= k + 2 {
            assert(s[i] == y[i - k - 2]);
        }
    }
    lemma_no_dots(s);
    assert forall|i: int| 0 <= i < k && i + 1 < s.len() implies !(s[i] == ':' && #[trigger] s[i + 1]
        == ':') by {
        lemma_colon_form(a, false);
        assert(s[i] == x[i]);
        if i + 1 < k {
            assert(s[i + 1] == x[i + 1]);
        } else {
            assert(s[i] == x.last());
        }
    }
    assert(s[k] == ':' && s[k + 1] == ':');
    lemma_gap(s, 0, k);
    assert(s.take(k) =~= x);
    assert(s.skip(k + 2) =~= y);
}

/// Two sides with zeros between them.
pub open spec fn filled(a: Seq<u16>, b: Seq<u16>) -> Seq<u16> {
    a + Seq::new((8 - a.len() - b.len()) as nat, |i: int| 0u16) + b
}

/// A gap of two colons stands for as many zeros as are missing, one at least; with eight groups
/// or more beside it there is no address.
pub proof fn law_gaps_are_filled_with_zeros(a: Seq<u16>, b: Seq<u16>)
    ensures
        a.len() + b.len() <= 7 ==> ip_of(colon_form(a) + seq![':', ':'] + colon_form(b)) == Some(
            IpAddr::V6(bits_of(filled(a, b)) as u128),
        ),
        a.len() + b.len() > 7 ==> ip_of(colon_form(a) + seq![':', ':'] + colon_form(b)) is None,
{
    lemma_sides(a, b);
    lemma_side(a, false);
    lemma_side(b, true);
    if a.len() + b.len() <= 7 {
        lemma_colon_form(filled(a, b), true);
        assert(word_values(filled(a, b)) =~= word_values(a) + Seq::new(
            (8 - a.len() - b.len()) as nat,
            |i: int| 0nat,
        ) + word_values(b));
    }
}

// ── clocks ───────────────────────────────────────────────────────────────────

/// The time at which something was created does not move: shown later, it is the same, as long
/// as both clocks have gone on alike.
pub proof fn law_creation_times_stand_still(created: u64, now: Clock, d: u64)
    requires
        now.mono >= created,
        now.unix >= now.mono - created,
        now.mono + d <= u64::MAX,
        now.unix + d <= u64::MAX,
    ensures
        iso_of_instant(
            created,
            Clock { mono: (now.mono + d) as u64, unix: (now.unix + d) as u64 },
        ) == iso_of_instant(created, now),
        iso_of_instant(now.mono, now) == rfc3339((now.unix as int / 1_000_000_000) as i64, 0),
{
}

/// A time in nanoseconds is shown by its whole seconds and the rest.
pub proof fn law_times_are_split_into_seconds(secs: u64, nanos: u32)
    requires
        nanos < 1_000_000_000,
        secs * 1_000_000_000 + nanos <= u64::MAX,
    ensures
        iso_of_unix((secs * 1_000_000_000 + nanos) as u64) == rfc3339(secs as i64, nanos),
        millis((secs * 1_000_000_000 + nanos) as u64) == secs * 1_000 + nanos as u64 / 1_000_000,
{
    let t = secs * 1_000_000_000 + nanos;
    assert(t / 1_000_000_000 == secs);
    assert(t % 1_000_000_000 == nanos);
    assert(t / 1_000_000 == secs * 1_000 + nanos as int / 1_000_000);
}

} // verus!
