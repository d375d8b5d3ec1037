//! Fixed-width EVM values held as plain bytes and limbs.

use vstd::prelude::*;

verus! {

/// A 20-byte account address.
#[derive(Clone, Copy, Debug, PartialEq, Eq)]
pub struct Addr {
    pub bytes: [u8; 20],
}

/// A 32-byte word such as a code hash or a log topic.
#[derive(Clone, Copy, Debug, PartialEq, Eq)]
pub struct Hash32 {
    pub bytes: [u8; 32],
}

/// A 256-bit unsigned integer, as four 64-bit limbs, least significant first.
#[derive(Clone, Copy, Debug, PartialEq, Eq)]
pub struct Word256 {
    pub limbs: [u64; 4],
}

impl View for Addr {
    type V = Seq<u8>;

    open spec fn view(&self) -> Seq<u8> {
        self.bytes@
    }
}

impl View for Hash32 {
    type V = Seq<u8>;

    open spec fn view(&self) -> Seq<u8> {
        self.bytes@
    }
}

pub open spec fn limb_base() -> nat {
    0x1_0000_0000_0000_0000nat
}

/// The integer that four little-endian 64-bit limbs stand for.
pub open spec fn limbs_value(l: Seq<u64>) -> nat {
    l[0] as nat + limb_base() * (l[1] as nat + limb_base() * (l[2] as nat + limb_base() * (l[3] as nat)))
}

impl Word256 {
    pub open spec fn value(&self) -> nat {
        limbs_value(self.limbs@)
    }

    /// The word whose value is zero.
    pub fn zero() -> (res: Word256)
        ensures
            res.value() == 0,
    {
        Word256 { limbs: [0u64, 0u64, 0u64, 0u64] }
    }

    /// `==` on the ruint `U256` values with these limbs.
    #[verifier::external_body]
    pub(crate) fn equals(&self, other: &Word256) -> (res: bool)
        ensures
            res == (self.value() == other.value()),
    {
        revm::primitives::U256::from_limbs(self.limbs) == revm::primitives::U256::from_limbs(other.limbs)
    }

    /// `>` on the ruint `U256` values with these limbs.
    #[verifier::external_body]
    pub(crate) fn greater_than(&self, other: &Word256) -> (res: bool)
        ensures
            res == (self.value() > other.value()),
    {
        revm::primitives::U256::from_limbs(self.limbs) > revm::primitives::U256::from_limbs(other.limbs)
    }

    /// `-` on the ruint `U256` values with these limbs; it wraps below zero,
    /// which the `requires` rules out, so the difference is exact.
    #[verifier::external_body]
    pub(crate) fn minus(&self, other: &Word256) -> (res: Word256)
        requires
            self.value() >= other.value(),
        ensures
            res.value() == self.value() - other.value(),
    {
        let diff = revm::primitives::U256::from_limbs(self.limbs) - revm::primitives::U256::from_limbs(other.limbs);
        Word256 { limbs: diff.into_limbs() }
    }
}

impl Addr {
    /// The all-zero address.
    pub fn zero() -> (res: Addr)
        ensures
            res.bytes@ == Seq::new(20, |i: int| 0u8),
    {
        let res = Addr { bytes: [0u8; 20] };
        assert(res.bytes@ =~= Seq::new(20, |i: int| 0u8));
        res
    }

    pub open spec fn is_zero_spec(&self) -> bool {
        forall|i: int| 0 <= i < 20 ==> #[trigger] self.bytes@[i] == 0u8
    }

    /// Whether every byte of the address is zero.
    pub fn is_zero(&self) -> (res: bool)
        ensures
            res == self.is_zero_spec(),
    {
        let mut i: usize = 0;
        while i < 20
            invariant
                0 <= i <= 20,
                forall|j: int| 0 <= j < i ==> #[trigger] self.bytes@[j] == 0u8,
            decreases 20 - i,
        {
            if self.bytes[i] != 0 {
                return false;
            }
            i = i + 1;
        }
        true
    }

    /// Whether two addresses hold the same bytes.
    pub fn same_as(&self, other: &Addr) -> (res: bool)
        ensures
            res == (self.bytes@ == other.bytes@),
    {
        let mut i: usize = 0;
        while i < 20
            invariant
                0 <= i <= 20,
                forall|j: int| 0 <= j < i ==> #[trigger] self.bytes@[j] == other.bytes@[j],
            decreases 20 - i,
        {
            if self.bytes[i] != other.bytes[i] {
                return false;
            }
            i = i + 1;
        }
        assert(self.bytes@ =~= other.bytes@);
        true
    }
}

impl Hash32 {
    /// The all-zero hash.
    pub fn zero() -> (res: Hash32)
        ensures
            res.bytes@ == Seq::new(32, |i: int| 0u8),
    {
        let res = Hash32 { bytes: [0u8; 32] };
        assert(res.bytes@ =~= Seq::new(32, |i: int| 0u8));
        res
    }

    /// Whether every byte of the hash is zero.
    pub fn is_zero(&self) -> (res: bool)
        ensures
            res == (self.bytes@ == Seq::new(32, |i: int| 0u8)),
    {
        let mut i: usize = 0;
        while i < 32
            invariant
                0 <= i <= 32,
                forall|j: int| 0 <= j < i ==> #[trigger] self.bytes@[j] == 0u8,
            decreases 32 - i,
        {
            if self.bytes[i] != 0 {
                assert(self.bytes@[i as int] != Seq::new(32, |k: int| 0u8)[i as int]);
                return false;
            }
            i = i + 1;
        }
        assert(self.bytes@ =~= Seq::new(32, |k: int| 0u8));
        true
    }

    /// Whether two hashes hold the same bytes.
    pub fn same_as(&self, other: &Hash32) -> (res: bool)
        ensures
            res == (self.bytes@ == other.bytes@),
    {
        let mut i: usize = 0;
        while i < 32
            invariant
                0 <= i <= 32,
                forall|j: int| 0 <= j < i ==> #[trigger] self.bytes@[j] == other.bytes@[j],
            decreases 32 - i,
        {
            if self.bytes[i] != other.bytes[i] {
                return false;
            }
            i = i + 1;
        }
        assert(self.bytes@ =~= other.bytes@);
        true
    }
}

} // verus!
