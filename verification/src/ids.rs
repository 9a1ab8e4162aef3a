//! Identifiers: the 128 bits of a UUID.
use vstd::prelude::*;

verus! {

/// The hexadecimal digit of value `n`, lowercase.
pub open spec fn hex_digit(n: int) -> char {
    if n < 10 {
        ('0' as int + n) as char
    } else {
        ('a' as int + (n - 10)) as char
    }
}

/// `16` to the power of `n`.
pub open spec fn pow16(n: nat) -> nat
    decreases n,
{
    if n == 0 {
        1
    } else {
        16 * pow16((n - 1) as nat)
    }
}

/// Powers of 16 are positive.
proof fn lemma_pow16_positive(n: nat)
    ensures
        pow16(n) > 0,
    decreases n,
{
    if n > 0 {
        lemma_pow16_positive((n - 1) as nat);
    }
}

/// The `i`-th of the 32 hexadecimal digits of `id`, counted from the most significant.
pub open spec fn nibble(id: u128, i: int) -> int {
    (id as int / pow16((31 - i) as nat) as int) % 16
}

/// The hyphenated lowercase form of a UUID: digits in groups of 8, 4, 4, 4 and 12.
pub open spec fn uuid_form(id: u128) -> Seq<char> {
    Seq::new(
        36,
        |i: int|
            if i == 8 || i == 13 || i == 18 || i == 23 {
                '-'
            } else if i < 8 {
                hex_digit(nibble(id, i))
            } else if i < 13 {
                hex_digit(nibble(id, i - 1))
            } else if i < 18 {
                hex_digit(nibble(id, i - 2))
            } else if i < 23 {
                hex_digit(nibble(id, i - 3))
            } else {
                hex_digit(nibble(id, i - 4))
            },
    )
}

/// Whether `id` bears the version and variant marks of a random UUID.
pub open spec fn is_random_uuid(id: u128) -> bool {
    nibble(id, 12) == 4 && 8 <= nibble(id, 16) < 12
}

/// `Uuid::new_v4`: a random UUID. Which one is left to chance; that it differs from those
/// drawn before is not claimed.
#[verifier::external_body]
pub(crate) fn new_uuid() -> (r: u128)
    ensures
        is_random_uuid(r),
{
    uuid::Uuid::new_v4().as_u128()
}

/// `Display` of `uuid::Uuid`: the hyphenated lowercase form.
#[verifier::external_body]
pub(crate) fn uuid_text(id: u128) -> (r: String)
    ensures
        r@ == uuid_form(id),
{
    uuid::Uuid::from_u128(id).to_string()
}

/// What `Uuid::parse_str` reads in a text: `None` where it is no UUID in any of the forms
/// that it takes.
pub uninterp spec fn uuid_of_text(s: Seq<char>) -> Option<u128>;

/// `Uuid::parse_str`, by the name of its result. Of the hyphenated lowercase form it reads
/// the id that the form was made of.
#[verifier::external_body]
pub(crate) fn parse_uuid(s: &str) -> (r: Option<u128>)
    ensures
        r == uuid_of_text(s@),
        forall|id: u128| #[trigger] uuid_form(id) == s@ ==> r == Some(id),
{
    uuid::Uuid::parse_str(s).ok().map(|id| id.as_u128())
}

/// The label that an id stands for: its first eight hexadecimal digits.
pub open spec fn hex_label(id: u128) -> Seq<char> {
    Seq::new(8, |i: int| hex_digit(nibble(id, i)))
}

/// One hexadecimal digit.
fn hex_char(n: u8) -> (r: char)
    requires
        n < 16,
    ensures
        r == hex_digit(n as int),
{
    if n < 10 {
        (48u8 + n) as char
    } else {
        (97u8 + (n - 10)) as char
    }
}

/// The first eight hexadecimal digits of an id.
pub fn label_of(id: u128) -> (r: String)
    ensures
        r@ == hex_label(id),
{
    let mut out: String = String::new();
    let mut i: u32 = 0;
    let mut scale: u128 = 0x1000_0000_0000_0000_0000_0000_0000_0000;
    proof {
        reveal_with_fuel(pow16, 33);
        assert(pow16(31) == 0x1000_0000_0000_0000_0000_0000_0000_0000);
    }
    while i < 8
        invariant
            i <= 8,
            scale == pow16((31 - i) as nat),
            out@ == hex_label(id).take(i as int),
        decreases 8 - i,
    {
        proof {
            lemma_pow16_positive((31 - i) as nat);
        }
        let n: u8 = ((id / scale) % 16) as u8;
        out.push(hex_char(n));
        proof {
            assert(pow16((31 - i) as nat) == 16 * pow16((30 - i) as nat));
            assert(hex_label(id).take(i + 1) =~= hex_label(id).take(i as int).push(
                hex_digit(nibble(id, i as int)),
            ));
        }
        scale = scale / 16;
        i = i + 1;
    }
    assert(hex_label(id).take(8) =~= hex_label(id));
    out
}

/// Different digits look different.
proof fn lemma_digits_differ(a: int, b: int)
    requires
        0 <= a < 16,
        0 <= b < 16,
        hex_digit(a) == hex_digit(b),
    ensures
        a == b,
{
}

/// An id is what its first `n` digits say, and what is below them.
proof fn lemma_digits_decide(a: u128, b: u128, n: nat)
    requires
        n <= 32,
        forall|i: int| 0 <= i < n ==> nibble(a, i) == nibble(b, i),
    ensures
        a as int / pow16((32 - n) as nat) as int == b as int / pow16((32 - n) as nat) as int,
    decreases n,
{
    if n == 0 {
        reveal_with_fuel(pow16, 34);
        assert(pow16(32) == 0x1_0000_0000_0000_0000_0000_0000_0000_0000);
        assert(a as int / 0x1_0000_0000_0000_0000_0000_0000_0000_0000int == 0);
        assert(b as int / 0x1_0000_0000_0000_0000_0000_0000_0000_0000int == 0);
    } else {
        lemma_digits_decide(a, b, (n - 1) as nat);
        let p = pow16((32 - n) as nat) as int;
        lemma_pow16_positive((32 - n) as nat);
        assert(pow16((33 - n) as nat) == 16 * p);
        lemma_quotient_splits(a as int, p);
        lemma_quotient_splits(b as int, p);
        assert(nibble(a, n - 1) == nibble(b, n - 1));
    }
}

/// A quotient is made of the quotient by sixteen times as much, and of one digit.
proof fn lemma_quotient_splits(x: int, p: int)
    requires
        x >= 0,
        p > 0,
    ensures
        x / p == 16 * (x / (16 * p)) + (x / p) % 16,
{
    vstd::arithmetic::div_mod::lemma_div_denominator(x, p, 16);
    vstd::arithmetic::div_mod::lemma_fundamental_div_mod(x / p, 16);
    assert(p * 16 == 16 * p) by (nonlinear_arith);
}

/// Different ids look different.
pub proof fn law_uuid_forms_differ(a: u128, b: u128)
    requires
        uuid_form(a) == uuid_form(b),
    ensures
        a == b,
{
    assert forall|i: int| 0 <= i < 32 implies nibble(a, i) == nibble(b, i) by {
        let at = if i < 8 {
            i
        } else if i < 12 {
            i + 1
        } else if i < 16 {
            i + 2
        } else if i < 20 {
            i + 3
        } else {
            i + 4
        };
        assert(uuid_form(a)[at] == uuid_form(b)[at]);
        assert(uuid_form(a)[at] == hex_digit(nibble(a, i)));
        assert(uuid_form(b)[at] == hex_digit(nibble(b, i)));
        lemma_digits_differ(nibble(a, i), nibble(b, i));
    }
    lemma_digits_decide(a, b, 32);
    assert(pow16((32 - 32) as nat) == 1);
}

} // verus!
