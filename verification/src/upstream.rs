//! Reading the upstream node's answers into EVM state, and the parameters
//! of the state queries sent to it.

use vstd::prelude::*;
use vstd::string::StringExecFns;
use crate::primitives::{Addr, Hash32, Word256};
use crate::parse::{
    decode_hex_fixed, decode_hex_plain, format_lower_hex, format_word_lower_hex, hash_from_str,
    hex_decode, hex_digits, hex_u64_or, hex_word_or, parse_hex_u64_or, parse_hex_word_or,
    strip_prefixes, trim_start_matches, zero_x,
};
use crate::request::field_or;

verus! {

/// `0x` followed by the lowercase hex digits of a number.
pub open spec fn quantity_text(n: nat) -> Seq<char> {
    seq!['0', 'x'] + hex_digits(n)
}

/// The block tag of a block number, as the state queries send it.
pub fn block_tag(block_number: u64) -> (res: String)
    ensures
        res@ == quantity_text(block_number as nat),
{
    let mut text = String::from_str("0x");
    proof {
        reveal_strlit("0x");
    }
    text.append(format_lower_hex(block_number).as_str());
    text
}

/// A storage slot index, as `eth_getStorageAt` is sent it.
pub fn slot_param(index: &Word256) -> (res: String)
    ensures
        res@ == quantity_text(index.value()),
{
    let mut text = String::from_str("0x");
    proof {
        reveal_strlit("0x");
    }
    text.append(format_word_lower_hex(index).as_str());
    text
}

/// The account state that `eth_getAccount` reports.
#[derive(Clone, Copy, Debug)]
pub struct AccountFields {
    pub balance: Word256,
    pub nonce: u64,
    pub code_hash: Hash32,
}

pub open spec fn zero_hash() -> Seq<u8> {
    Seq::new(32, |i: int| 0u8)
}

/// A code hash as reported: empty or bare `0x` is the zero hash, and so is
/// text that is not a 32-byte hex string.
pub open spec fn reported_code_hash(text: Seq<char>) -> Seq<u8> {
    if text.len() == 0 || text == zero_x() {
        zero_hash()
    } else {
        match decode_hex_fixed(text, 32) {
            Some(h) => h,
            None => zero_hash(),
        }
    }
}

/// The fields of an `eth_getAccount` answer, given the `balance`, `nonce`
/// and `codeHash` members where they are strings. A missing or unparsable
/// balance or nonce is zero.
pub fn account_fields(balance: &Option<String>, nonce: &Option<String>, code_hash: &Option<String>) -> (res: AccountFields)
    ensures
        res.balance.value() == hex_word_or(field_or(*balance, seq!['0', 'x', '0']), 0),
        res.nonce as nat == hex_u64_or(field_or(*nonce, seq!['0', 'x', '0']), 0),
        res.code_hash.bytes@ == reported_code_hash(field_or(*code_hash, Seq::empty())),
{
    let zero = "0x0";
    let empty = "";
    let bare = "0x";
    proof {
        reveal_strlit("0x0");
        reveal_strlit("");
        reveal_strlit("0x");
        assert(zero@ =~= seq!['0', 'x', '0']);
        assert(empty@ =~= Seq::<char>::empty());
        assert(bare@ =~= zero_x());
    }
    let balance_text = match balance {
        Some(s) => s.as_str(),
        None => zero,
    };
    let nonce_text = match nonce {
        Some(s) => s.as_str(),
        None => zero,
    };
    let hash_text = match code_hash {
        Some(s) => s.as_str(),
        None => empty,
    };
    let hash = if hash_text.is_empty() || same_text(hash_text, bare) {
        Hash32::zero()
    } else {
        match hash_from_str(hash_text) {
            Some(h) => h,
            None => Hash32::zero(),
        }
    };
    AccountFields {
        balance: parse_hex_word_or(balance_text, Word256::zero()),
        nonce: parse_hex_u64_or(nonce_text, 0),
        code_hash: hash,
    }
}

/// The code of an `eth_getCodeByHash` answer, given its `result` where it
/// is a string: every leading `0x` is removed and the rest hex-decoded; a
/// missing or undecodable answer is empty code.
pub fn code_from_reply(result: &Option<String>) -> (res: Vec<u8>)
    ensures
        res@ == (match decode_hex_plain(strip_prefixes(field_or(*result, zero_x()), zero_x())) {
            Some(b) => b,
            None => Seq::<u8>::empty(),
        }),
{
    let bare = "0x";
    proof {
        reveal_strlit("0x");
        assert(bare@ =~= zero_x());
    }
    let text = match result {
        Some(s) => s.as_str(),
        None => bare,
    };
    match hex_decode(trim_start_matches(text, bare)) {
        Some(b) => b,
        None => {
            let v: Vec<u8> = Vec::new();
            assert(v@ =~= Seq::<u8>::empty());
            v
        },
    }
}

/// The value of an `eth_getStorageAt` answer, given its `result` where it
/// is a string; a missing or unparsable answer is zero.
pub fn storage_from_reply(result: &Option<String>) -> (res: Word256)
    ensures
        res.value() == hex_word_or(field_or(*result, seq!['0', 'x', '0']), 0),
{
    let zero = "0x0";
    proof {
        reveal_strlit("0x0");
        assert(zero@ =~= seq!['0', 'x', '0']);
    }
    let text = match result {
        Some(s) => s.as_str(),
        None => zero,
    };
    parse_hex_word_or(text, Word256::zero())
}

/// The block hash of an `eth_getBlockByNumber` answer, given its `hash`
/// member where it is a string; a missing or unparsable hash is zero.
pub fn block_hash_from_reply(hash: &Option<String>) -> (res: Hash32)
    ensures
        res.bytes@ == (match decode_hex_fixed(field_or(*hash, Seq::empty()), 32) {
            Some(h) => h,
            None => zero_hash(),
        }),
{
    let empty = "";
    proof {
        reveal_strlit("");
        assert(empty@ =~= Seq::<char>::empty());
    }
    let text = match hash {
        Some(s) => s.as_str(),
        None => empty,
    };
    match hash_from_str(text) {
        Some(h) => h,
        None => Hash32::zero(),
    }
}

/// The Keccak-256 digest of a byte string.
pub uninterp spec fn keccak256_digest(data: Seq<u8>) -> Seq<u8>;

/// `keccak256` of alloy (re-exported by revm): the Keccak-256 digest of the
/// bytes, a function of the bytes alone; what the digest is, is not stated.
#[verifier::external_body]
fn keccak256(data: &[u8]) -> (res: Hash32)
    ensures
        res@ == keccak256_digest(data@),
{
    Hash32 { bytes: revm::primitives::keccak256(data).0 }
}

/// Whether the code of a reported account must be fetched: exactly when its
/// reported code hash is not the zero hash (an account without code).
pub fn needs_code(fields: &AccountFields) -> (res: bool)
    ensures
        res == (fields.code_hash.bytes@ != zero_hash()),
{
    !fields.code_hash.is_zero()
}

/// An account as the EVM is given it.
#[derive(Clone, Debug)]
pub struct AccountRecord {
    pub balance: Word256,
    pub nonce: u64,
    pub code_hash: Hash32,
    pub code: Vec<u8>,
}

/// The account that an `eth_getAccount` answer and the code fetched for its
/// code hash (empty code when that hash is zero) stand for: the reported
/// balance and nonce, the code, and as code hash the Keccak-256 digest of
/// the code itself; the reported hash only decides which code is fetched.
pub fn account_record(fields: &AccountFields, code: Vec<u8>) -> (res: AccountRecord)
    ensures
        res.balance == fields.balance,
        res.nonce == fields.nonce,
        res.code@ == code@,
        res.code_hash@ == keccak256_digest(code@),
{
    let code_hash = keccak256(code.as_slice());
    AccountRecord { balance: fields.balance, nonce: fields.nonce, code_hash, code }
}

/// Whether two texts are equal, character by character.
fn same_text(a: &str, b: &str) -> (res: bool)
    ensures
        res == (a@ == b@),
{
    let a_owned = String::from_str(a);
    let b_owned = String::from_str(b);
    a_owned == b_owned
}

/// The call data of ERC-20 `allowance(owner, spender)`: the selector
/// `0xdd62ed3e` and the two addresses, each as a 32-byte ABI word.
pub open spec fn allowance_call(owner: Seq<u8>, spender: Seq<u8>) -> Seq<u8> {
    seq![0xddu8, 0x62u8, 0xedu8, 0x3eu8] + Seq::new(12, |i: int| 0u8) + owner + Seq::new(12, |i: int| 0u8)
        + spender
}

/// Appends an address as a 32-byte ABI word: twelve zero bytes, then the
/// address.
fn push_address_word(out: &mut Vec<u8>, a: &Addr)
    ensures
        final(out)@ == old(out)@ + Seq::new(12, |i: int| 0u8) + a.bytes@,
{
    let ghost start = out@;
    let mut z: usize = 0;
    while z < 12
        invariant
            0 <= z <= 12,
            out@ == start + Seq::new(z as nat, |j: int| 0u8),
        decreases 12 - z,
    {
        out.push(0u8);
        z = z + 1;
        assert(out@ =~= start + Seq::new(z as nat, |j: int| 0u8));
    }
    let ghost mid = out@;
    let mut k: usize = 0;
    while k < 20
        invariant
            0 <= k <= 20,
            out@ == mid + a.bytes@.take(k as int),
        decreases 20 - k,
    {
        out.push(a.bytes[k]);
        k = k + 1;
        assert(out@ =~= mid + a.bytes@.take(k as int));
    }
    assert(a.bytes@.take(20) =~= a.bytes@);
    assert(out@ =~= start + Seq::new(12, |i: int| 0u8) + a.bytes@);
}

/// The call data that asks a token for the allowance `owner` gives `spender`.
pub fn allowance_call_data(owner: &Addr, spender: &Addr) -> (res: Vec<u8>)
    ensures
        res@ == allowance_call(owner.bytes@, spender.bytes@),
{
    let mut out: Vec<u8> = vec![0xddu8, 0x62u8, 0xedu8, 0x3eu8];
    assert(out@ =~= seq![0xddu8, 0x62u8, 0xedu8, 0x3eu8]);
    push_address_word(&mut out, owner);
    push_address_word(&mut out, spender);
    out
}

} // verus!
