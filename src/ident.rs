//! Member and ride identifiers: 128-bit UUIDs and their text form.

use vstd::prelude::*;
use vstd::arithmetic::power::{lemma_pow_positive, pow};
use vstd::arithmetic::div_mod::{lemma_basic_div_specific_divisor, lemma_div_denominator, lemma_fundamental_div_mod};

verus! {

/// The lower-case hexadecimal digit for `n` (0 to 15).
pub open spec fn hex_char(n: int) -> char {
    seq!['0', '1', '2', '3', '4', '5', '6', '7', '8', '9', 'a', 'b', 'c', 'd', 'e', 'f'][n]
}

/// The `i`-th of the 32 hexadecimal digits of `u`, most significant first.
pub open spec fn nibble(u: u128, i: int) -> int {
    (u as int / pow(16, (31 - i) as nat)) % 16
}

/// The 32 lower-case hexadecimal digits of `u`, most significant first.
pub open spec fn hex_digits(u: u128) -> Seq<char> {
    Seq::new(32, |i: int| hex_char(nibble(u, i)))
}

/// The hyphenated text of `u`: groups of 8, 4, 4, 4 and 12 lower-case digits
/// joined by `-`.
pub open spec fn hyphenated(u: u128) -> Seq<char> {
    let d = hex_digits(u);
    d.subrange(0, 8) + seq!['-'] + d.subrange(8, 12) + seq!['-'] + d.subrange(12, 16) + seq!['-']
        + d.subrange(16, 20) + seq!['-'] + d.subrange(20, 32)
}

/// The value of a hexadecimal digit of either case.
pub open spec fn hex_value(c: char) -> Option<int> {
    let n = c as int;
    if 48 <= n <= 57 {
        Some(n - 48)
    } else if 97 <= n <= 102 {
        Some(n - 87)
    } else if 65 <= n <= 70 {
        Some(n - 55)
    } else {
        None
    }
}

/// The number that the hexadecimal digits `d` write, most significant first.
pub open spec fn digits_value(d: Seq<char>) -> Option<int>
    decreases d.len(),
{
    if d.len() == 0 {
        Some(0)
    } else {
        match (digits_value(d.drop_last()), hex_value(d.last())) {
            (Some(high), Some(low)) => Some(16 * high + low),
            _ => None,
        }
    }
}

/// The 32 digits of a 36-character hyphenated text, its hyphens left out.
pub open spec fn unhyphenate(s: Seq<char>) -> Seq<char> {
    s.subrange(0, 8) + s.subrange(9, 13) + s.subrange(14, 18) + s.subrange(19, 23) + s.subrange(24, 36)
}

/// The number a hyphenated text writes: hyphens after the 8th, 12th, 16th and
/// 20th of its 32 digits.
pub open spec fn hyphenated_value(s: Seq<char>) -> Option<int> {
    if s.len() == 36 && s[8] == '-' && s[13] == '-' && s[18] == '-' && s[23] == '-' {
        digits_value(unhyphenate(s))
    } else {
        None
    }
}

/// `c` is the lower-case character `l`, or, where `l` is a letter, its
/// upper-case form.
pub open spec fn same_ignoring_ascii_case(c: char, l: char) -> bool {
    c == l || (97 <= l as int <= 122 && c as int + 32 == l as int)
}

/// `p` is `urn:uuid:` in any mix of cases.
pub open spec fn is_urn_prefix(p: Seq<char>) -> bool {
    let urn = seq!['u', 'r', 'n', ':', 'u', 'u', 'i', 'd', ':'];
    p.len() == 9 && forall|i: int| 0 <= i < 9 ==> same_ignoring_ascii_case(#[trigger] p[i], urn[i])
}

/// The UUID a text denotes: 32 digits; the hyphenated form; the hyphenated
/// form in braces; or the hyphenated form after `urn:uuid:`. Digits may be of
/// either case.
pub open spec fn parsed_uuid(s: Seq<char>) -> Option<u128> {
    let v = if s.len() == 32 {
        digits_value(s)
    } else if s.len() == 36 {
        hyphenated_value(s)
    } else if s.len() == 38 && s[0] == '{' && s[37] == '}' {
        hyphenated_value(s.subrange(1, 37))
    } else if s.len() == 45 && is_urn_prefix(s.subrange(0, 9)) {
        hyphenated_value(s.subrange(9, 45))
    } else {
        None
    };
    match v {
        Some(n) => Some(n as u128),
        None => None,
    }
}

proof fn lemma_hex_char_value(n: int)
    requires
        0 <= n < 16,
    ensures
        hex_value(hex_char(n)) == Some(n),
{
    let digits = seq!['0', '1', '2', '3', '4', '5', '6', '7', '8', '9', 'a', 'b', 'c', 'd', 'e', 'f'];
    assert(hex_char(n) == digits[n]);
}

proof fn lemma_prefix_value(u: u128, k: int)
    requires
        0 <= k <= 32,
    ensures
        digits_value(hex_digits(u).subrange(0, k)) == Some(u as int / pow(16, (32 - k) as nat)),
    decreases k,
{
    if k == 0 {
        reveal_with_fuel(pow, 33);
        assert(pow(16, 32) == 0x1_0000_0000_0000_0000_0000_0000_0000_0000);
        lemma_basic_div_specific_divisor(pow(16, 32));
        assert(hex_digits(u).subrange(0, 0) =~= Seq::<char>::empty());
    } else {
        lemma_prefix_value(u, k - 1);
        let d = hex_digits(u).subrange(0, k);
        assert(d.drop_last() =~= hex_digits(u).subrange(0, k - 1));
        let p = pow(16, (32 - k) as nat);
        lemma_pow_positive(16, (32 - k) as nat);
        reveal(pow);
        assert(pow(16, (33 - k) as nat) == 16 * p);
        let x = u as int / p;
        lemma_div_denominator(u as int, p, 16);
        assert(p * 16 == 16 * p);
        lemma_fundamental_div_mod(x, 16);
        lemma_hex_char_value(x % 16);
        assert(d.last() == hex_char(nibble(u, k - 1)));
    }
}

/// Every UUID reads back from its hyphenated text.
pub proof fn lemma_parse_hyphenated(u: u128)
    ensures
        parsed_uuid(hyphenated(u)) == Some(u),
{
    let s = hyphenated(u);
    let d = hex_digits(u);
    assert(s.len() == 36);
    assert(s[8] == '-' && s[13] == '-' && s[18] == '-' && s[23] == '-');
    assert(unhyphenate(s) =~= d);
    lemma_prefix_value(u, 32);
    assert(d.subrange(0, 32) =~= d);
    reveal(pow);
    assert(pow(16, 0) == 1);
}

/// A random (version 4) UUID: the version field holds 4 and the variant bits
/// are `10`.
pub open spec fn is_random_uuid(u: u128) -> bool {
    (u >> 76u128) & 0xf == 4 && (u >> 62u128) & 0x3 == 2
}

#[verifier::external_type_specification]
#[verifier::external_body]
pub struct ExUuidError(uuid::Error);

/// Relies on uuid::Uuid::parse_str, which accepts the four text forms that
/// `parsed_uuid` describes, with hexadecimal digits of either case, and reads
/// the digits as the big-endian value that `as_u128` gives.
#[verifier::external_body]
pub(crate) fn parse_uuid(s: &str) -> (r: Result<u128, uuid::Error>)
    ensures
        r is Ok <==> parsed_uuid(s@) is Some,
        r is Ok ==> parsed_uuid(s@) == Some(r->Ok_0),
{
    uuid::Uuid::parse_str(s).map(|u| u.as_u128())
}

/// Relies on uuid::Uuid::from_u128 and its `Display`, which writes the
/// hyphenated lower-case text of the value.
#[verifier::external_body]
pub(crate) fn uuid_text(u: u128) -> (r: String)
    ensures
        r@ == hyphenated(u),
{
    uuid::Uuid::from_u128(u).to_string()
}

/// Relies on uuid::Uuid::new_v4: random bits with the version and variant
/// fields of a version 4 UUID set.
#[verifier::external_body]
pub(crate) fn random_uuid() -> (r: u128)
    ensures
        is_random_uuid(r),
{
    uuid::Uuid::new_v4().as_u128()
}

} // verus!
