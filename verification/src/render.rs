//! Text forms of EVM values: lowercase hex and decimal.

use vstd::prelude::*;
use crate::primitives::{Addr, Hash32, Word256};

verus! {

/// The lowercase hex digit of a value below 16.
pub open spec fn hex_char(n: int) -> char {
    if n < 10 {
        (48 + n) as char
    } else {
        (87 + n) as char
    }
}

/// The two lowercase hex digits of one byte, high nibble first.
pub open spec fn hex_byte(b: u8) -> Seq<char> {
    seq![hex_char(b as int / 16), hex_char(b as int % 16)]
}

/// Lowercase hex of a byte string, two digits per byte, no prefix.
pub open spec fn hex_lower(bytes: Seq<u8>) -> Seq<char>
    decreases bytes.len(),
{
    if bytes.len() == 0 {
        Seq::empty()
    } else {
        hex_byte(bytes[0]) + hex_lower(bytes.drop_first())
    }
}

/// `0x` followed by the lowercase hex of the bytes.
pub open spec fn prefixed_hex(bytes: Seq<u8>) -> Seq<char> {
    seq!['0', 'x'] + hex_lower(bytes)
}

/// The decimal digit of a value below 10.
pub open spec fn decimal_char(n: int) -> char {
    (48 + n) as char
}

/// Decimal digits of a natural number, without leading zeros.
pub open spec fn decimal(n: nat) -> Seq<char>
    decreases n,
{
    if n < 10 {
        seq![decimal_char(n as int)]
    } else {
        decimal(n / 10) + seq![decimal_char((n % 10) as int)]
    }
}

/// Lowercase hex encoding is two characters per byte.
pub proof fn lemma_hex_lower_len(bytes: Seq<u8>)
    ensures
        hex_lower(bytes).len() == 2 * bytes.len(),
    decreases bytes.len(),
{
    if bytes.len() > 0 {
        lemma_hex_lower_len(bytes.drop_first());
    }
}

/// `hex::encode`: lowercase hex of the bytes, two digits per byte, no prefix.
#[verifier::external_body]
pub(crate) fn encode_hex(data: &[u8]) -> (res: String)
    ensures
        res@ == hex_lower(data@),
{
    hex::encode(data)
}

/// `format!("{:#x}", address)` on the alloy `Address` holding these bytes:
/// `0x` and the lowercase hex of the 20 bytes, with no shortening.
#[verifier::external_body]
pub(crate) fn format_address(a: &Addr) -> (res: String)
    ensures
        res@ == prefixed_hex(a.bytes@),
{
    format!("{:#x}", revm::primitives::Address::from(a.bytes))
}

/// `format!("{:#x}", hash)` on the alloy `B256` holding these bytes:
/// `0x` and the lowercase hex of the 32 bytes.
#[verifier::external_body]
pub(crate) fn format_hash(h: &Hash32) -> (res: String)
    ensures
        res@ == prefixed_hex(h.bytes@),
{
    format!("{:#x}", revm::primitives::B256::from(h.bytes))
}

/// `to_string` on the ruint `U256` with these limbs: its decimal digits,
/// without leading zeros.
#[verifier::external_body]
pub(crate) fn format_decimal(w: &Word256) -> (res: String)
    ensures
        res@ == decimal(w.value()),
{
    revm::primitives::U256::from_limbs(w.limbs).to_string()
}

} // verus!
