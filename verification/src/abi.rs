//! Reading 32-byte ABI words out of event logs.

use vstd::prelude::*;
use crate::primitives::{Addr, Hash32, Word256};

verus! {

/// The number that bytes stand for, most significant first.
pub open spec fn be_value(s: Seq<u8>) -> nat
    decreases s.len(),
{
    if s.len() == 0 {
        0
    } else {
        be_value(s.drop_last()) * 256 + s.last() as nat
    }
}

/// The ABI word at byte `pos` of `data`, as a number.
pub open spec fn word_value(data: Seq<u8>, pos: int) -> nat {
    be_value(data.subrange(pos, pos + 32))
}

/// The address in an ABI word: its last 20 bytes.
pub open spec fn word_address(word: Seq<u8>) -> Seq<u8> {
    word.subrange(12, 32)
}

/// A dynamic ABI array whose offset word is at byte `head`: the position of
/// its first item and its length, if the offset and every item lie inside
/// the data.
pub open spec fn abi_array(data: Seq<u8>, head: int) -> Option<(int, nat)> {
    if head + 32 > data.len() {
        None
    } else {
        let off = word_value(data, head);
        if off + 32 > data.len() {
            None
        } else {
            let n = word_value(data, off as int);
            if off + 32 + 32 * n > data.len() {
                None
            } else {
                Some(((off + 32) as int, n))
            }
        }
    }
}

/// Reading more bytes never makes the number smaller.
pub proof fn lemma_be_value_prefix(s: Seq<u8>, k: int)
    requires
        0 <= k <= s.len(),
    ensures
        be_value(s.take(k)) <= be_value(s),
    decreases s.len(),
{
    if k < s.len() {
        lemma_be_value_prefix(s.drop_last(), k);
        assert(s.drop_last().take(k) =~= s.take(k));
    } else {
        assert(s.take(k) =~= s);
    }
}

/// ruint's `U256::from_be_bytes`: the number the 32 bytes stand for, most
/// significant first.
#[verifier::external_body]
pub(crate) fn word_from_be(bytes: &[u8; 32]) -> (res: Word256)
    ensures
        res.value() == be_value(bytes@),
{
    Word256 { limbs: revm::primitives::U256::from_be_bytes::<32>(*bytes).into_limbs() }
}

/// The 32 bytes at `pos`.
pub fn word_at(data: &[u8], pos: usize) -> (res: [u8; 32])
    requires
        pos + 32 <= data@.len(),
    ensures
        res@ == data@.subrange(pos as int, pos + 32),
{
    let mut out = [0u8; 32];
    let len = data.len();
    let mut i: usize = 0;
    while i < 32
        invariant
            pos + 32 <= data@.len(),
            len == data@.len(),
            0 <= i <= 32,
            out@.len() == 32,
            forall|j: int| 0 <= j < i ==> #[trigger] out@[j] == data@[pos + j],
        decreases 32 - i,
    {
        out[i] = data[pos + i];
        i = i + 1;
    }
    assert(out@ =~= data@.subrange(pos as int, pos + 32));
    out
}

/// The address held in the last 20 bytes of a topic.
pub fn topic_address(t: &Hash32) -> (res: Addr)
    ensures
        res.bytes@ == word_address(t.bytes@),
{
    let mut bytes = [0u8; 20];
    let mut i: usize = 0;
    while i < 20
        invariant
            0 <= i <= 20,
            bytes@.len() == 20,
            forall|j: int| 0 <= j < i ==> #[trigger] bytes@[j] == t.bytes@[j + 12],
        decreases 20 - i,
    {
        bytes[i] = t.bytes[i + 12];
        i = i + 1;
    }
    assert(bytes@ =~= word_address(t.bytes@));
    Addr { bytes }
}

/// The ABI word at `pos` as a number, when it is at most the length of the
/// data.
pub fn small_word(data: &[u8], pos: usize) -> (res: Option<usize>)
    requires
        pos + 32 <= data@.len(),
    ensures
        match res {
            Some(v) => v as nat == word_value(data@, pos as int) && v <= data@.len(),
            None => word_value(data@, pos as int) > data@.len(),
        },
{
    let limit = data.len();
    let ghost w = data@.subrange(pos as int, pos + 32);
    let mut v: usize = 0;
    let mut i: usize = 0;
    assert(w.take(0) =~= Seq::<u8>::empty());
    while i < 32
        invariant
            pos + 32 <= data@.len(),
            limit == data@.len(),
            w == data@.subrange(pos as int, pos + 32),
            0 <= i <= 32,
            v as nat == be_value(w.take(i as int)),
            v <= limit,
        decreases 32 - i,
    {
        let b = data[pos + i] as usize;
        assert(w.take(i + 1).drop_last() =~= w.take(i as int));
        assert(w.take(i + 1).last() == data@[pos + i]);
        if v > limit / 256 {
            proof {
                assert(v * 256 + b > limit) by (nonlinear_arith)
                    requires
                        v > limit / 256,
                ;
                lemma_be_value_prefix(w, i + 1);
            }
            return None;
        }
        assert(v * 256 <= limit) by (nonlinear_arith)
            requires
                v <= limit / 256,
        ;
        if b > limit - v * 256 {
            proof {
                lemma_be_value_prefix(w, i + 1);
            }
            return None;
        }
        v = v * 256 + b;
        i = i + 1;
    }
    assert(w.take(32) =~= w);
    Some(v)
}

/// The position of the first item and the length of a dynamic ABI array
/// whose offset word is at byte `head`.
pub fn read_abi_array(data: &[u8], head: usize) -> (res: Option<(usize, usize)>)
    ensures
        match res {
            Some((start, n)) => abi_array(data@, head as int) == Some((start as int, n as nat)),
            None => abi_array(data@, head as int) is None,
        },
{
    let len = data.len();
    if head > len || len - head < 32 {
        return None;
    }
    let off = match small_word(data, head) {
        Some(off) => off,
        None => return None,
    };
    if len - off < 32 {
        return None;
    }
    let n = match small_word(data, off) {
        Some(n) => n,
        None => return None,
    };
    let room = len - off - 32;
    if n > room / 32 {
        assert(32 * n > room) by (nonlinear_arith)
            requires
                n > room / 32,
        ;
        return None;
    }
    assert(32 * n <= room) by (nonlinear_arith)
        requires
            n <= room / 32,
    ;
    Some((off + 32, n))
}

} // verus!
