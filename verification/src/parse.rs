//! Reading numbers, addresses and byte strings out of JSON-RPC text.

use vstd::prelude::*;
use crate::primitives::{Addr, Hash32, Word256};
use crate::render::hex_char;

verus! {

// ---------------------------------------------------------------------------
// Digits
// ---------------------------------------------------------------------------

/// The value of a digit character in a radix of at most 36: `0`-`9`, then
/// `a`-`z` or `A`-`Z` for 10 to 35; `None` for any other character or a
/// digit not below the radix.
pub open spec fn digit_value(c: char, radix: nat) -> Option<nat> {
    let v: int = if 48 <= c as int <= 57 {
        c as int - 48
    } else if 97 <= c as int <= 122 {
        c as int - 87
    } else if 65 <= c as int <= 90 {
        c as int - 55
    } else {
        36
    };
    if v < radix {
        Some(v as nat)
    } else {
        None
    }
}

/// The value of a string of digits, most significant first; `None` if a
/// character is not a digit. The empty string has the value zero.
pub open spec fn digits_value(s: Seq<char>, radix: nat) -> Option<nat>
    decreases s.len(),
{
    if s.len() == 0 {
        Some(0)
    } else {
        match (digits_value(s.drop_last(), radix), digit_value(s.last(), radix)) {
            (Some(v), Some(d)) => Some(v * radix + d),
            _ => None,
        }
    }
}

/// Like `digits_value`, but underscores are skipped.
pub open spec fn digits_value_skipping_underscores(s: Seq<char>, radix: nat) -> Option<nat>
    decreases s.len(),
{
    if s.len() == 0 {
        Some(0)
    } else if s.last() == '_' {
        digits_value_skipping_underscores(s.drop_last(), radix)
    } else {
        match (digits_value_skipping_underscores(s.drop_last(), radix), digit_value(s.last(), radix)) {
            (Some(v), Some(d)) => Some(v * radix + d),
            _ => None,
        }
    }
}

/// What the standard library's `from_str_radix` gives for an unsigned
/// integer type whose largest value is `max`: an optional `+`, then at least
/// one digit, and a value not above `max`.
pub open spec fn std_unsigned_parse(s: Seq<char>, radix: nat, max: nat) -> Option<nat> {
    let digits = if s.len() > 0 && s[0] == '+' { s.drop_first() } else { s };
    if digits.len() == 0 {
        None
    } else {
        match digits_value(digits, radix) {
            Some(v) => if v <= max { Some(v) } else { None },
            None => None,
        }
    }
}

pub open spec fn u256_modulus() -> nat {
    0x1_0000_0000_0000_0000_0000_0000_0000_0000_0000_0000_0000_0000_0000_0000_0000_0000nat
}

/// What ruint's `Uint::<256, 4>::from_str_radix` gives: digits and
/// underscores only (the empty string is zero), and a value below 2^256.
pub open spec fn u256_parse(s: Seq<char>, radix: nat) -> Option<nat> {
    match digits_value_skipping_underscores(s, radix) {
        Some(v) => if v < u256_modulus() { Some(v) } else { None },
        None => None,
    }
}

// ---------------------------------------------------------------------------
// Hex byte strings
// ---------------------------------------------------------------------------

/// Whether every character is a hex digit of either case.
pub open spec fn all_hex_digits(s: Seq<char>) -> bool {
    forall|i: int| 0 <= i < s.len() ==> (#[trigger] digit_value(s[i], 16)) is Some
}

/// The bytes that pairs of hex digits stand for, high nibble first.
pub open spec fn hex_pairs(s: Seq<char>) -> Seq<u8> {
    Seq::new(
        s.len() / 2,
        |i: int| (16 * digit_value(s[2 * i], 16)->0 + digit_value(s[2 * i + 1], 16)->0) as u8,
    )
}

/// Hex decoding without a prefix: an even number of hex digits.
pub open spec fn decode_hex_plain(s: Seq<char>) -> Option<Seq<u8>> {
    if s.len() % 2 == 0 && all_hex_digits(s) {
        Some(hex_pairs(s))
    } else {
        None
    }
}

/// The text after one leading `0x` or `0X`, if there is one.
pub open spec fn without_hex_prefix(s: Seq<char>) -> Seq<char> {
    if s.len() >= 2 && s[0] == '0' && (s[1] == 'x' || s[1] == 'X') {
        s.skip(2)
    } else {
        s
    }
}

/// Hex decoding that accepts one optional `0x` or `0X` prefix.
pub open spec fn decode_hex_prefixed(s: Seq<char>) -> Option<Seq<u8>> {
    decode_hex_plain(without_hex_prefix(s))
}

/// Hex decoding of exactly `n` bytes, with an optional prefix.
pub open spec fn decode_hex_fixed(s: Seq<char>, n: nat) -> Option<Seq<u8>> {
    match decode_hex_prefixed(s) {
        Some(b) => if b.len() == n { Some(b) } else { None },
        None => None,
    }
}

/// The lowercase hex digits of a number, without leading zeros.
pub open spec fn hex_digits(n: nat) -> Seq<char>
    decreases n,
{
    if n < 16 {
        seq![hex_char(n as int)]
    } else {
        hex_digits(n / 16) + seq![hex_char((n % 16) as int)]
    }
}

// ---------------------------------------------------------------------------
// Whitespace, prefixes, case
// ---------------------------------------------------------------------------

/// The characters with the Unicode `White_Space` property.
pub open spec fn is_unicode_whitespace(c: char) -> bool {
    let v = c as int;
    (0x09 <= v <= 0x0D) || v == 0x20 || v == 0x85 || v == 0xA0 || v == 0x1680
        || (0x2000 <= v <= 0x200A) || v == 0x2028 || v == 0x2029 || v == 0x202F
        || v == 0x205F || v == 0x3000
}

pub open spec fn trim_start_spec(s: Seq<char>) -> Seq<char>
    decreases s.len(),
{
    if s.len() > 0 && is_unicode_whitespace(s[0]) {
        trim_start_spec(s.drop_first())
    } else {
        s
    }
}

pub open spec fn trim_end_spec(s: Seq<char>) -> Seq<char>
    decreases s.len(),
{
    if s.len() > 0 && is_unicode_whitespace(s.last()) {
        trim_end_spec(s.drop_last())
    } else {
        s
    }
}

/// The text without leading and trailing whitespace.
pub open spec fn trim_spec(s: Seq<char>) -> Seq<char> {
    trim_end_spec(trim_start_spec(s))
}

/// The text with every leading copy of `pat` removed.
pub open spec fn strip_prefixes(s: Seq<char>, pat: Seq<char>) -> Seq<char>
    decreases s.len(),
{
    if pat.len() > 0 && s.len() >= pat.len() && s.take(pat.len() as int) == pat {
        strip_prefixes(s.skip(pat.len() as int), pat)
    } else {
        s
    }
}

/// ASCII uppercase letters made lowercase; every other character kept.
pub open spec fn ascii_lower(c: char) -> char {
    if 65 <= c as int <= 90 {
        (c as int + 32) as char
    } else {
        c
    }
}

/// Equality of two texts when ASCII case is ignored.
pub open spec fn eq_ignoring_ascii_case(a: Seq<char>, b: Seq<char>) -> bool {
    a.len() == b.len() && forall|i: int| 0 <= i < a.len() ==> #[trigger] ascii_lower(a[i]) == ascii_lower(b[i])
}

// ---------------------------------------------------------------------------
// Calls
// ---------------------------------------------------------------------------

/// `str::trim_start_matches` with a string pattern: every leading copy of
/// the pattern is removed.
#[verifier::external_body]
pub(crate) fn trim_start_matches<'a>(s: &'a str, pat: &str) -> (res: &'a str)
    ensures
        res@ == strip_prefixes(s@, pat@),
{
    s.trim_start_matches(pat)
}

/// `str::trim`: leading and trailing characters with the Unicode
/// `White_Space` property are removed.
#[verifier::external_body]
pub(crate) fn trim(s: &str) -> (res: &str)
    ensures
        res@ == trim_spec(s@),
{
    s.trim()
}

/// `str::eq_ignore_ascii_case`.
#[verifier::external_body]
pub(crate) fn eq_ignore_ascii_case(a: &str, b: &str) -> (res: bool)
    ensures
        res == eq_ignoring_ascii_case(a@, b@),
{
    a.eq_ignore_ascii_case(b)
}

/// `u64::from_str_radix`, with `None` for any error.
#[verifier::external_body]
pub(crate) fn u64_from_str_radix(s: &str, radix: u32) -> (res: Option<u64>)
    requires
        2 <= radix <= 36,
    ensures
        match res {
            Some(v) => std_unsigned_parse(s@, radix as nat, u64::MAX as nat) == Some(v as nat),
            None => std_unsigned_parse(s@, radix as nat, u64::MAX as nat) is None,
        },
{
    match u64::from_str_radix(s, radix) {
        Ok(v) => Some(v),
        Err(_) => None,
    }
}

/// ruint's `U256::from_str_radix`, with `None` for any error.
#[verifier::external_body]
pub(crate) fn u256_from_str_radix(s: &str, radix: u64) -> (res: Option<Word256>)
    requires
        2 <= radix <= 36,
    ensures
        match res {
            Some(w) => u256_parse(s@, radix as nat) == Some(w.value()),
            None => u256_parse(s@, radix as nat) is None,
        },
{
    match revm::primitives::U256::from_str_radix(s, radix) {
        Ok(v) => Some(Word256 { limbs: v.into_limbs() }),
        Err(_) => None,
    }
}

/// `FromStr` of the alloy `Address`: an optional `0x`/`0X` and exactly 40
/// hex digits of either case.
#[verifier::external_body]
pub(crate) fn address_from_str(s: &str) -> (res: Option<Addr>)
    ensures
        match res {
            Some(a) => decode_hex_fixed(s@, 20) == Some(a.bytes@),
            None => decode_hex_fixed(s@, 20) is None,
        },
{
    match <revm::primitives::Address as std::str::FromStr>::from_str(s) {
        Ok(a) => Some(Addr { bytes: a.0.0 }),
        Err(_) => None,
    }
}

/// `FromStr` of the alloy `B256`: an optional `0x`/`0X` and exactly 64 hex
/// digits of either case.
#[verifier::external_body]
pub(crate) fn hash_from_str(s: &str) -> (res: Option<Hash32>)
    ensures
        match res {
            Some(h) => decode_hex_fixed(s@, 32) == Some(h.bytes@),
            None => decode_hex_fixed(s@, 32) is None,
        },
{
    match <revm::primitives::B256 as std::str::FromStr>::from_str(s) {
        Ok(h) => Some(Hash32 { bytes: h.0 }),
        Err(_) => None,
    }
}

/// `FromStr` of the alloy `Bytes`: an optional `0x`/`0X` and an even number
/// of hex digits of either case.
#[verifier::external_body]
pub(crate) fn bytes_from_str(s: &str) -> (res: Option<Vec<u8>>)
    ensures
        match res {
            Some(b) => decode_hex_prefixed(s@) == Some(b@),
            None => decode_hex_prefixed(s@) is None,
        },
{
    match <revm::primitives::Bytes as std::str::FromStr>::from_str(s) {
        Ok(b) => Some(b.to_vec()),
        Err(_) => None,
    }
}

/// `hex::decode`: an even number of hex digits of either case, no prefix.
#[verifier::external_body]
pub(crate) fn hex_decode(s: &str) -> (res: Option<Vec<u8>>)
    ensures
        match res {
            Some(b) => decode_hex_plain(s@) == Some(b@),
            None => decode_hex_plain(s@) is None,
        },
{
    match hex::decode(s) {
        Ok(b) => Some(b),
        Err(_) => None,
    }
}

/// `format!("{:x}", n)`: the lowercase hex digits of `n`, without leading
/// zeros.
#[verifier::external_body]
pub(crate) fn format_lower_hex(n: u64) -> (res: String)
    ensures
        res@ == hex_digits(n as nat),
{
    format!("{:x}", n)
}

/// `format!("{:x}", w)` on the ruint `U256` with these limbs: the lowercase
/// hex digits of its value, without leading zeros.
#[verifier::external_body]
pub(crate) fn format_word_lower_hex(w: &Word256) -> (res: String)
    ensures
        res@ == hex_digits(w.value()),
{
    format!("{:x}", revm::primitives::U256::from_limbs(w.limbs))
}

// ---------------------------------------------------------------------------
// Quantities with a fallback
// ---------------------------------------------------------------------------

pub open spec fn zero_x() -> Seq<char> {
    seq!['0', 'x']
}

/// A hex quantity read as ruint reads it after every leading `0x` is
/// removed, or `fallback` if it does not parse.
pub open spec fn hex_word_or(text: Seq<char>, fallback: nat) -> nat {
    match u256_parse(strip_prefixes(text, zero_x()), 16) {
        Some(v) => v,
        None => fallback,
    }
}

/// A hex quantity read as `u64::from_str_radix` reads it after every leading
/// `0x` is removed, or `fallback` if it does not parse.
pub open spec fn hex_u64_or(text: Seq<char>, fallback: nat) -> nat {
    match std_unsigned_parse(strip_prefixes(text, zero_x()), 16, u64::MAX as nat) {
        Some(v) => v,
        None => fallback,
    }
}

/// Reads a 256-bit hex quantity, with or without `0x`, falling back to
/// `fallback` when it does not parse.
pub fn parse_hex_word_or(text: &str, fallback: Word256) -> (res: Word256)
    ensures
        res.value() == hex_word_or(text@, fallback.value()),
{
    let prefix = "0x";
    proof {
        reveal_strlit("0x");
        assert(prefix@ =~= zero_x());
    }
    let digits = trim_start_matches(text, prefix);
    match u256_from_str_radix(digits, 16) {
        Some(w) => w,
        None => fallback,
    }
}

/// Reads a 64-bit hex quantity, with or without `0x`, falling back to
/// `fallback` when it does not parse.
pub fn parse_hex_u64_or(text: &str, fallback: u64) -> (res: u64)
    ensures
        res as nat == hex_u64_or(text@, fallback as nat),
{
    let prefix = "0x";
    proof {
        reveal_strlit("0x");
        assert(prefix@ =~= zero_x());
    }
    let digits = trim_start_matches(text, prefix);
    match u64_from_str_radix(digits, 16) {
        Some(v) => v,
        None => fallback,
    }
}

} // verus!
