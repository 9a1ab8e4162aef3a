//! Network addresses, and how they are written.
use crate::text::chars_of;
use vstd::prelude::*;

verus! {

/// A source address.
#[derive(Debug, Clone, Copy, PartialEq, Eq, Structural)]
pub enum IpAddr {
    V4(u32),
    V6(u128),
}

/// Whether an address is the machine's own: `127.0.0.0/8` or `::1`.
pub open spec fn is_loopback(ip: IpAddr) -> bool {
    match ip {
        IpAddr::V4(bits) => bits / 0x100_0000 == 127,
        IpAddr::V6(bits) => bits == 1,
    }
}

impl IpAddr {
    /// Whether the address is the machine's own.
    pub fn is_loopback(&self) -> (r: bool)
        ensures
            r == is_loopback(*self),
    {
        match self {
            IpAddr::V4(bits) => *bits / 0x100_0000 == 127,
            IpAddr::V6(bits) => *bits == 1,
        }
    }
}

// ── white space ──────────────────────────────────────────────────────────────

/// Whether a character is white space, as Unicode has it.
pub open spec fn is_white(c: char) -> bool {
    ||| 0x9 <= c as u32 <= 0xd
    ||| c == ' '
    ||| c as u32 == 0x85
    ||| c as u32 == 0xa0
    ||| c as u32 == 0x1680
    ||| 0x2000 <= c as u32 <= 0x200a
    ||| c as u32 == 0x2028
    ||| c as u32 == 0x2029
    ||| c as u32 == 0x202f
    ||| c as u32 == 0x205f
    ||| c as u32 == 0x3000
}

/// Whether a character is white space, as Unicode has it.
fn white(c: char) -> (r: bool)
    ensures
        r == is_white(c),
{
    let n: u32 = c as u32;
    (0x9 <= n && n <= 0xd) || c == ' ' || n == 0x85 || n == 0xa0 || n == 0x1680 || (0x2000 <= n
        && n <= 0x200a) || n == 0x2028 || n == 0x2029 || n == 0x202f || n == 0x205f || n == 0x3000
}

/// A text without the white space at its ends.
pub open spec fn trimmed(s: Seq<char>) -> Seq<char>
    decreases s.len(),
{
    if s.len() == 0 {
        s
    } else if is_white(s[0]) {
        trimmed(s.drop_first())
    } else if is_white(s.last()) {
        trimmed(s.drop_last())
    } else {
        s
    }
}

/// A text without the white space at its ends.
fn trim(chars: &Vec<char>) -> (r: Vec<char>)
    ensures
        r@ == trimmed(chars@),
{
    let mut from: usize = 0;
    let mut to: usize = chars.len();
    assert(chars@.subrange(0, to as int) =~= chars@);
    while from < to && white(chars[from])
        invariant
            from <= to == chars@.len(),
            trimmed(chars@.subrange(from as int, to as int)) == trimmed(chars@),
        decreases to - from,
    {
        assert(chars@.subrange(from as int, to as int).drop_first() =~= chars@.subrange(
            from + 1,
            to as int,
        ));
        from = from + 1;
    }
    while from < to && white(chars[to - 1])
        invariant
            from <= to <= chars@.len(),
            from < to ==> !is_white(chars@[from as int]),
            trimmed(chars@.subrange(from as int, to as int)) == trimmed(chars@),
        decreases to - from,
    {
        assert(chars@.subrange(from as int, to as int).drop_last() =~= chars@.subrange(
            from as int,
            to - 1,
        ));
        to = to - 1;
    }
    copy_range(chars, from, to)
}

/// The characters from one place to another.
fn copy_range(chars: &Vec<char>, from: usize, to: usize) -> (r: Vec<char>)
    requires
        from <= to <= chars@.len(),
    ensures
        r@ == chars@.subrange(from as int, to as int),
{
    let mut out: Vec<char> = Vec::new();
    let mut i: usize = from;
    while i < to
        invariant
            from <= i <= to <= chars@.len(),
            out@ == chars@.subrange(from as int, i as int),
        decreases to - i,
    {
        out.push(chars[i]);
        assert(chars@.subrange(from as int, i + 1) =~= chars@.subrange(from as int, i as int).push(
            chars@[i as int],
        ));
        i = i + 1;
    }
    out
}

// ── numbers ──────────────────────────────────────────────────────────────────

/// What a digit stands for, in a base up to 16; `None` for a character that is none.
pub open spec fn digit_in(c: char, base: nat) -> Option<nat> {
    let d = if '0' <= c <= '9' {
        c as int - '0' as int
    } else if 'a' <= c <= 'f' {
        c as int - 'a' as int + 10
    } else if 'A' <= c <= 'F' {
        c as int - 'A' as int + 10
    } else {
        16
    };
    if d < base {
        Some(d as nat)
    } else {
        None
    }
}

/// What digits stand for together; `None` where one of them is none.
pub open spec fn number(s: Seq<char>, base: nat) -> Option<nat>
    decreases s.len(),
{
    if s.len() == 0 {
        Some(0)
    } else {
        match (number(s.drop_last(), base), digit_in(s.last(), base)) {
            (Some(n), Some(d)) => Some(n * base + d),
            _ => None,
        }
    }
}

/// What a digit stands for.
fn read_digit(c: char, base: u32) -> (r: Option<u32>)
    requires
        base <= 16,
    ensures
        r is Some == digit_in(c, base as nat) is Some,
        r is Some ==> r->0 == digit_in(c, base as nat)->0,
{
    let d: u32 = if '0' <= c && c <= '9' {
        c as u32 - '0' as u32
    } else if 'a' <= c && c <= 'f' {
        c as u32 - 'a' as u32 + 10
    } else if 'A' <= c && c <= 'F' {
        c as u32 - 'A' as u32 + 10
    } else {
        16
    };
    if d < base {
        Some(d)
    } else {
        None
    }
}

/// Where the first digits are no number, all of them are none.
proof fn lemma_number_of_first(s: Seq<char>, base: nat, n: int)
    requires
        0 <= n <= s.len(),
        number(s.take(n), base) is None,
    ensures
        number(s, base) is None,
    decreases s.len(),
{
    if n < s.len() {
        assert(s.drop_last().take(n) =~= s.take(n));
        lemma_number_of_first(s.drop_last(), base, n);
    } else {
        assert(s.take(n) =~= s);
    }
}

/// What up to four digits stand for together.
fn read_number(chars: &Vec<char>, base: u32) -> (r: Option<u32>)
    requires
        base == 10 || base == 16,
        chars@.len() <= 4,
    ensures
        r is Some == number(chars@, base as nat) is Some,
        r is Some ==> r->0 == number(chars@, base as nat)->0 && r->0 < 0x1_0000,
{
    let mut n: u32 = 0;
    let mut i: usize = 0;
    while i < chars.len()
        invariant
            base == 10 || base == 16,
            i <= chars@.len() <= 4,
            number(chars@.take(i as int), base as nat) == Some(n as nat),
            i == 0 ==> n == 0,
            i == 1 ==> n < 0x10,
            i == 2 ==> n < 0x100,
            i == 3 ==> n < 0x1000,
            n < 0x1_0000,
        decreases chars@.len() - i,
    {
        assert(chars@.take(i + 1).drop_last() =~= chars@.take(i as int));
        match read_digit(chars[i], base) {
            Some(d) => {
                assert(n * base <= n * 16) by (nonlinear_arith)
                    requires
                        base <= 16,
                        n >= 0,
                ;
                n = n * base + d;
            },
            None => {
                proof {
                    lemma_number_of_first(chars@, base as nat, i + 1);
                }
                return None;
            },
        }
        i = i + 1;
    }
    assert(chars@.take(i as int) =~= chars@);
    Some(n)
}

// ── pieces ───────────────────────────────────────────────────────────────────

/// The pieces of a text between the places where `sep` stands, in order.
pub open spec fn split_on(s: Seq<char>, sep: char) -> Seq<Seq<char>>
    decreases s.len(),
{
    if s.len() == 0 {
        seq![s]
    } else {
        let before = split_on(s.drop_last(), sep);
        if s.last() == sep {
            before.push(Seq::empty())
        } else {
            before.drop_last().push(before.last().push(s.last()))
        }
    }
}

/// What the pieces hold.
pub open spec fn pieces(parts: Seq<Vec<char>>) -> Seq<Seq<char>> {
    parts.map_values(|p: Vec<char>| p@)
}

/// The pieces of a text between the places where `sep` stands, in order.
fn split(chars: &Vec<char>, sep: char) -> (r: Vec<Vec<char>>)
    ensures
        pieces(r@) == split_on(chars@, sep),
{
    let mut out: Vec<Vec<char>> = Vec::new();
    let mut current: Vec<char> = Vec::new();
    let mut i: usize = 0;
    assert(chars@.take(0) =~= current@);
    assert(pieces(out@).push(current@) =~= split_on(chars@.take(0), sep));
    while i < chars.len()
        invariant
            i <= chars@.len(),
            pieces(out@).push(current@) == split_on(chars@.take(i as int), sep),
        decreases chars@.len() - i,
    {
        let c: char = chars[i];
        let ghost before = pieces(out@);
        let ghost now = chars@.take(i + 1);
        proof {
            assert(now.drop_last() =~= chars@.take(i as int));
            assert(split_on(now.drop_last(), sep).drop_last() =~= before);
        }
        if c == sep {
            out.push(current);
            assert(pieces(out@) =~= split_on(now.drop_last(), sep));
            current = Vec::new();
        } else {
            current.push(c);
        }
        assert(pieces(out@).push(current@) =~= split_on(now, sep));
        i = i + 1;
    }
    assert(chars@.take(i as int) =~= chars@);
    out.push(current);
    assert(pieces(out@) =~= split_on(chars@, sep));
    out
}

// ── addresses of four bytes ──────────────────────────────────────────────────

/// What one of the four numbers of an address stands for: up to three decimal digits, without
/// a zero in front, up to 255.
pub open spec fn octet_of(s: Seq<char>) -> Option<nat> {
    if 1 <= s.len() <= 3 && (s.len() == 1 || s[0] != '0') && number(s, 10) is Some && number(
        s,
        10,
    )->0 <= 255 {
        number(s, 10)
    } else {
        None
    }
}

/// What one of the four numbers of an address stands for.
fn read_octet(chars: &Vec<char>) -> (r: Option<u32>)
    ensures
        r is Some == octet_of(chars@) is Some,
        r is Some ==> r->0 == octet_of(chars@)->0 && r->0 <= 255,
{
    if chars.len() < 1 || chars.len() > 3 || (chars.len() != 1 && chars[0] == '0') {
        return None;
    }
    match read_number(chars, 10) {
        Some(n) => {
            if n <= 255 {
                Some(n)
            } else {
                None
            }
        },
        None => None,
    }
}

/// The address of four bytes that a text is: four numbers with dots between them.
pub open spec fn v4_of(s: Seq<char>) -> Option<u32> {
    let parts = split_on(s, '.');
    if parts.len() == 4 && octet_of(parts[0]) is Some && octet_of(parts[1]) is Some && octet_of(
        parts[2],
    ) is Some && octet_of(parts[3]) is Some {
        Some(
            (octet_of(parts[0])->0 * 0x100_0000 + octet_of(parts[1])->0 * 0x1_0000 + octet_of(
                parts[2],
            )->0 * 0x100 + octet_of(parts[3])->0) as u32,
        )
    } else {
        None
    }
}

/// The address of four bytes that a text is.
fn read_v4(chars: &Vec<char>) -> (r: Option<u32>)
    ensures
        r == v4_of(chars@),
{
    let parts: Vec<Vec<char>> = split(chars, '.');
    assert(pieces(parts@).len() == parts@.len());
    if parts.len() != 4 {
        return None;
    }
    assert(forall|i: int| 0 <= i < 4 ==> pieces(parts@)[i] == #[trigger] parts@[i]@);
    match (
        read_octet(&parts[0]),
        read_octet(&parts[1]),
        read_octet(&parts[2]),
        read_octet(&parts[3]),
    ) {
        (Some(a), Some(b), Some(c), Some(d)) => Some(
            a * 0x100_0000 + b * 0x1_0000 + c * 0x100 + d,
        ),
        _ => None,
    }
}

// ── addresses of sixteen bytes ───────────────────────────────────────────────

/// What one of the groups of an address stands for: one to four hexadecimal digits.
pub open spec fn word_of(s: Seq<char>) -> Option<nat> {
    if 1 <= s.len() <= 4 {
        number(s, 16)
    } else {
        None
    }
}

/// What groups stand for. Where `dotted`, the last one may be an address of four bytes, which
/// stands for two.
pub open spec fn words_of(parts: Seq<Seq<char>>, dotted: bool) -> Option<Seq<nat>>
    decreases parts.len(),
{
    if parts.len() == 0 {
        Some(Seq::empty())
    } else {
        match words_of(parts.drop_last(), false) {
            None => None,
            Some(before) => match word_of(parts.last()) {
                Some(w) => Some(before.push(w)),
                None => if dotted && v4_of(parts.last()) is Some {
                    let bits = v4_of(parts.last())->0 as nat;
                    Some(before.push(bits / 0x1_0000).push(bits % 0x1_0000))
                } else {
                    None
                },
            },
        }
    }
}

/// What the groups on one side of a gap stand for: none, or some with colons between them.
pub open spec fn side_of(s: Seq<char>, dotted: bool) -> Option<Seq<nat>> {
    if s.len() == 0 {
        Some(Seq::empty())
    } else {
        words_of(split_on(s, ':'), dotted)
    }
}

/// Where the first two colons that follow each other stand, from `from` on; the end where none
/// do.
pub open spec fn gap_from(s: Seq<char>, from: int) -> int
    decreases s.len() - from,
{
    if from + 1 >= s.len() {
        s.len() as int
    } else if s[from] == ':' && s[from + 1] == ':' {
        from
    } else {
        gap_from(s, from + 1)
    }
}

/// The eight groups that a text stands for: eight with colons between them, or fewer with a
/// gap of two colons, which stands for one or more zeros.
pub open spec fn groups_of(s: Seq<char>) -> Option<Seq<nat>> {
    let gap = gap_from(s, 0);
    if gap >= s.len() {
        match words_of(split_on(s, ':'), true) {
            Some(words) => if words.len() == 8 {
                Some(words)
            } else {
                None
            },
            None => None,
        }
    } else {
        match (side_of(s.take(gap), false), side_of(s.skip(gap + 2), true)) {
            (Some(head), Some(tail)) => if head.len() + tail.len() <= 7 {
                Some(head + Seq::new((8 - head.len() - tail.len()) as nat, |i: int| 0nat) + tail)
            } else {
                None
            },
            _ => None,
        }
    }
}

/// What groups of sixteen bits make together.
pub open spec fn joined(words: Seq<nat>) -> nat
    decreases words.len(),
{
    if words.len() == 0 {
        0
    } else {
        joined(words.drop_last()) * 0x1_0000 + words.last()
    }
}

/// The address that a text is, after the rules of either family.
pub open spec fn ip_of(s: Seq<char>) -> Option<IpAddr> {
    match v4_of(s) {
        Some(bits) => Some(IpAddr::V4(bits)),
        None => match groups_of(s) {
            Some(groups) => Some(IpAddr::V6(joined(groups) as u128)),
            None => None,
        },
    }
}

/// What words hold.
pub open spec fn word_values(words: Seq<u16>) -> Seq<nat> {
    words.map_values(|w: u16| w as nat)
}

/// Groups of which the first ones stand for nothing stand for nothing.
proof fn lemma_words_of_first(parts: Seq<Seq<char>>, dotted: bool, n: int)
    requires
        0 <= n < parts.len(),
        words_of(parts.take(n + 1), dotted && n + 1 == parts.len()) is None,
    ensures
        words_of(parts, dotted) is None,
    decreases parts.len(),
{
    if n + 1 < parts.len() {
        assert(parts.drop_last().take(n + 1) =~= parts.take(n + 1));
        lemma_words_of_first(parts.drop_last(), false, n);
    } else {
        assert(parts.take(n + 1) =~= parts);
    }
}

/// What groups stand for.
fn read_words(parts: &Vec<Vec<char>>, dotted: bool) -> (r: Option<Vec<u16>>)
    ensures
        r is Some == words_of(pieces(parts@), dotted) is Some,
        r is Some ==> word_values(r->0@) == words_of(pieces(parts@), dotted)->0,
{
    let ghost all = pieces(parts@);
    let mut out: Vec<u16> = Vec::new();
    let mut i: usize = 0;
    assert(word_values(out@) =~= Seq::empty());
    while i < parts.len()
        invariant
            i <= parts@.len(),
            all == pieces(parts@),
            words_of(all.take(i as int), dotted && i == parts@.len()) == Some(word_values(out@)),
            words_of(all.take(i as int), false) == Some(word_values(out@)) || i == parts@.len(),
        decreases parts@.len() - i,
    {
        let last: bool = i + 1 == parts.len();
        let ghost now = all.take(i + 1);
        proof {
            assert(now.drop_last() =~= all.take(i as int));
            assert(now.last() == parts@[i as int]@);
        }
        let mut word: Option<u32> = None;
        if parts[i].len() >= 1 && parts[i].len() <= 4 {
            word = read_number(&parts[i], 16);
        }
        match word {
            Some(w) => {
                let ghost before = word_values(out@);
                out.push(w as u16);
                assert(word_values(out@) =~= before.push(w as nat));
            },
            None => {
                let bits: Option<u32> = if dotted && last {
                    read_v4(&parts[i])
                } else {
                    None
                };
                match bits {
                    Some(bits) => {
                        let ghost before = word_values(out@);
                        out.push((bits / 0x1_0000) as u16);
                        out.push((bits % 0x1_0000) as u16);
                        assert(word_values(out@) =~= before.push((bits / 0x1_0000) as nat).push(
                            (bits % 0x1_0000) as nat,
                        ));
                    },
                    None => {
                        proof {
                            lemma_words_of_first(all, dotted, i as int);
                        }
                        return None;
                    },
                }
            },
        }
        i = i + 1;
    }
    assert(all.take(i as int) =~= all);
    Some(out)
}

/// What the groups on one side of a gap stand for.
fn read_side(chars: &Vec<char>, dotted: bool) -> (r: Option<Vec<u16>>)
    ensures
        r is Some == side_of(chars@, dotted) is Some,
        r is Some ==> word_values(r->0@) == side_of(chars@, dotted)->0,
{
    if chars.len() == 0 {
        let none: Vec<u16> = Vec::new();
        assert(word_values(none@) =~= Seq::empty());
        Some(none)
    } else {
        let parts: Vec<Vec<char>> = split(chars, ':');
        read_words(&parts, dotted)
    }
}

/// Where the first two colons that follow each other stand; the end where none do.
fn find_gap(chars: &Vec<char>) -> (r: usize)
    ensures
        r == gap_from(chars@, 0),
        r <= chars@.len(),
        r < chars@.len() ==> r + 2 <= chars@.len(),
{
    let n: usize = chars.len();
    let mut i: usize = 0;
    while n >= 2 && i < n - 1
        invariant
            n == chars@.len(),
            i <= n,
            n >= 2 ==> i <= n - 1,
            gap_from(chars@, i as int) == gap_from(chars@, 0),
        decreases n - i,
    {
        if chars[i] == ':' && chars[i + 1] == ':' {
            return i;
        }
        i = i + 1;
    }
    n
}

/// The eight groups that a text stands for.
fn read_groups(chars: &Vec<char>) -> (r: Option<Vec<u16>>)
    ensures
        r is Some == groups_of(chars@) is Some,
        r is Some ==> word_values(r->0@) == groups_of(chars@)->0 && r->0@.len() == 8,
{
    let gap: usize = find_gap(chars);
    if gap >= chars.len() {
        let parts: Vec<Vec<char>> = split(chars, ':');
        return match read_words(&parts, true) {
            Some(words) => {
                assert(word_values(words@).len() == words@.len());
                if words.len() == 8 {
                    Some(words)
                } else {
                    None
                }
            },
            None => None,
        };
    }
    let head: Vec<char> = copy_range(chars, 0, gap);
    let tail: Vec<char> = copy_range(chars, gap + 2, chars.len());
    assert(head@ =~= chars@.take(gap as int));
    assert(tail@ =~= chars@.skip(gap + 2));
    match (read_side(&head, false), read_side(&tail, true)) {
        (Some(front), Some(back)) => {
            assert(word_values(front@).len() == front@.len());
            assert(word_values(back@).len() == back@.len());
            if front.len() > 7 || back.len() > 7 || front.len() + back.len() > 7 {
                return None;
            }
            let zeros: usize = 8 - front.len() - back.len();
            let mut out: Vec<u16> = front;
            let mut i: usize = 0;
            while i < zeros
                invariant
                    i <= zeros <= 8,
                    out@ == front@ + Seq::new(i as nat, |k: int| 0u16),
                decreases zeros - i,
            {
                out.push(0);
                i = i + 1;
                assert(out@ =~= front@ + Seq::new(i as nat, |k: int| 0u16));
            }
            let ghost padded = out@;
            let mut k: usize = 0;
            while k < back.len()
                invariant
                    k <= back@.len(),
                    out@ == padded + back@.take(k as int),
                decreases back@.len() - k,
            {
                out.push(back[k]);
                assert(back@.take(k + 1) =~= back@.take(k as int).push(back@[k as int]));
                k = k + 1;
                assert(out@ =~= padded + back@.take(k as int));
            }
            assert(back@.take(k as int) =~= back@);
            assert(word_values(out@) =~= word_values(front@) + Seq::new(
                zeros as nat,
                |i: int| 0nat,
            ) + word_values(back@));
            Some(out)
        },
        _ => None,
    }
}

/// `65536` to the power of `n`.
spec fn pow65536(n: nat) -> nat
    decreases n,
{
    if n == 0 {
        1
    } else {
        0x1_0000 * pow65536((n - 1) as nat)
    }
}

/// What eight groups make together.
fn join(words: &Vec<u16>) -> (r: u128)
    requires
        words@.len() == 8,
    ensures
        r == joined(word_values(words@)),
{
    let mut out: u128 = 0;
    let mut i: usize = 0;
    let ghost all = word_values(words@);
    proof {
        reveal_with_fuel(pow65536, 9);
        assert(pow65536(8) == 0x1_0000_0000_0000_0000_0000_0000_0000_0000int);
    }
    while i < words.len()
        invariant
            i <= words@.len() == 8,
            all == word_values(words@),
            out == joined(all.take(i as int)),
            out < pow65536(i as nat),
            pow65536(8) == 0x1_0000_0000_0000_0000_0000_0000_0000_0000int,
        decreases 8 - i,
    {
        proof {
            assert(all.take(i + 1).drop_last() =~= all.take(i as int));
            assert(pow65536((i + 1) as nat) == 0x1_0000 * pow65536(i as nat));
            lemma_pow65536_grows((i + 1) as nat, 8);
        }
        out = out * 0x1_0000 + words[i] as u128;
        i = i + 1;
    }
    assert(all.take(i as int) =~= all);
    out
}

/// Powers grow with their exponents.
proof fn lemma_pow65536_grows(m: nat, n: nat)
    requires
        m <= n,
    ensures
        0 < pow65536(m) <= pow65536(n),
    decreases n,
{
    if m < n {
        lemma_pow65536_grows(m, (n - 1) as nat);
    } else if n > 0 {
        lemma_pow65536_grows((m - 1) as nat, (n - 1) as nat);
    }
}

/// The address that a text is, with white space around it or without; `None` where it is none.
pub fn read_address(text: &str) -> (r: Option<IpAddr>)
    ensures
        r == ip_of(trimmed(text@)),
{
    let all: Vec<char> = chars_of(text);
    let chars: Vec<char> = trim(&all);
    match read_v4(&chars) {
        Some(bits) => Some(IpAddr::V4(bits)),
        None => match read_groups(&chars) {
            Some(groups) => Some(IpAddr::V6(join(&groups))),
            None => None,
        },
    }
}

} // verus!
