//! The fixed-width values that the chain is made of.

use vstd::prelude::*;

verus! {

/// A 256-bit hash, held as its two big-endian halves.
#[derive(Clone, Copy, Debug, PartialEq, Eq, Structural, PartialOrd, Ord, Hash)]
pub struct B256 {
    pub hi: u128,
    pub lo: u128,
}

impl B256 {
    /// The hash whose 32 bytes are all zero.
    pub open spec fn zero_hash() -> B256 {
        B256 { hi: 0, lo: 0 }
    }

    pub fn zero() -> (hash: B256)
        ensures
            hash == B256::zero_hash(),
    {
        B256 { hi: 0, lo: 0 }
    }

    pub fn is_zero(&self) -> (res: bool)
        ensures
            res == (*self == B256::zero_hash()),
    {
        self.hi == 0 && self.lo == 0
    }
}

impl Default for B256 {
    fn default() -> (hash: B256)
        ensures
            hash == B256::zero_hash(),
    {
        B256::zero()
    }
}

impl DeepView for B256 {
    type V = B256;

    open spec fn deep_view(&self) -> B256 {
        *self
    }
}

/// A 160-bit account address: its first four bytes, then the other sixteen,
/// each read big-endian.
#[derive(Clone, Copy, Debug, PartialEq, Eq, Structural, PartialOrd, Ord, Hash)]
pub struct Address {
    pub hi: u32,
    pub lo: u128,
}

impl DeepView for Address {
    type V = Address;

    open spec fn deep_view(&self) -> Address {
        *self
    }
}

/// A 256-bit unsigned integer, most significant half first.
#[derive(Clone, Copy, Debug, PartialEq, Eq, Structural, PartialOrd, Ord, Hash)]
pub struct U256 {
    pub hi: u128,
    pub lo: u128,
}

impl U256 {
    /// The number that the two halves stand for.
    pub open spec fn value(self) -> nat {
        (self.hi * 0x1_0000_0000_0000_0000_0000_0000_0000_0000 + self.lo) as nat
    }

    pub fn from_u64(n: u64) -> (res: U256)
        ensures
            res.value() == n,
            res.hi == 0 && res.lo == n,
    {
        U256 { hi: 0, lo: n as u128 }
    }
}

impl DeepView for U256 {
    type V = U256;

    open spec fn deep_view(&self) -> U256 {
        *self
    }
}

/// What can be copied out from behind a reference with nothing lost.
pub trait Duplicate: DeepView + Sized {
    fn duplicate(&self) -> (res: Self)
        ensures
            res.deep_view() == self.deep_view(),
    ;
}

impl Duplicate for B256 {
    fn duplicate(&self) -> (res: B256) {
        *self
    }
}

impl Duplicate for Address {
    fn duplicate(&self) -> (res: Address) {
        *self
    }
}

impl Duplicate for U256 {
    fn duplicate(&self) -> (res: U256) {
        *self
    }
}

impl<T: Duplicate> Duplicate for Option<T> {
    fn duplicate(&self) -> (res: Option<T>) {
        match self {
            Some(value) => Some(value.duplicate()),
            None => None,
        }
    }
}

impl<T: Duplicate> Duplicate for Vec<T> {
    fn duplicate(&self) -> (res: Vec<T>) {
        let mut res: Vec<T> = Vec::with_capacity(self.len());
        let mut i: usize = 0;
        while i < self.len()
            invariant
                i <= self@.len(),
                res@.len() == i,
                forall|j: int|
                    0 <= j < i ==> (#[trigger] res@[j]).deep_view() == self@[j].deep_view(),
            decreases self.len() - i,
        {
            res.push(self[i].duplicate());
            i += 1;
        }
        assert(res.deep_view() =~= self.deep_view());
        res
    }
}

/// The zero hash is the one with no bit set, and a hash, an address and a number
/// are their own models.
pub proof fn plain_values_are_their_own_models(hash: B256, address: Address, number: U256)
    ensures
        B256::zero_hash().hi == 0 && B256::zero_hash().lo == 0,
        hash.deep_view() == hash,
        address.deep_view() == address,
        number.deep_view() == number,
        number.value() == number.hi * 0x1_0000_0000_0000_0000_0000_0000_0000_0000 + number.lo,
{
}

} // verus!
