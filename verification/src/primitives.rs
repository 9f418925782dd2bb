//! Block heights and field elements.

use vstd::prelude::*;

verus! {

/// Height of a block in the chain.
#[derive(Clone, Copy, Debug, PartialEq, Eq, Structural, PartialOrd, Ord, Hash)]
pub struct BlockNumber(pub u64);

impl BlockNumber {
    /// The height of the first block.
    pub fn genesis() -> (g: BlockNumber)
        ensures
            g.0 == 0,
    {
        BlockNumber(0)
    }

    /// The wrapped height.
    pub fn get(&self) -> (n: u64)
        ensures
            n == self.0,
    {
        self.0
    }

    /// The height below this one, absent at genesis.
    pub open spec fn spec_parent(self) -> Option<BlockNumber> {
        parent_of(self.0)
    }

    /// The height below this one, or `None` at genesis.
    pub fn parent(&self) -> (p: Option<BlockNumber>)
        ensures
            p == self.spec_parent(),
    {
        if self.0 == 0 {
            None
        } else {
            Some(BlockNumber(self.0 - 1))
        }
    }

    /// The height above this one, or `None` where the height is the largest
    /// that 64 bits hold.
    pub fn next(&self) -> (n: Option<BlockNumber>)
        ensures
            self.0 < u64::MAX ==> n == Some(BlockNumber((self.0 + 1) as u64)),
            self.0 == u64::MAX ==> n is None,
    {
        if self.0 == u64::MAX {
            None
        } else {
            Some(BlockNumber(self.0 + 1))
        }
    }
}

/// The height below `n`, absent at genesis.
pub open spec fn parent_of(n: u64) -> Option<BlockNumber> {
    if n == 0 {
        None
    } else {
        Some(BlockNumber((n - 1) as u64))
    }
}

/// A field element, held as four 64-bit limbs, the most significant first.
/// The library compares field elements and hands them on; it does no
/// arithmetic on them.
#[derive(Clone, Copy, Debug, PartialEq, Eq, Structural, Hash)]
pub struct StarkHash {
    pub w3: u64,
    pub w2: u64,
    pub w1: u64,
    pub w0: u64,
}

impl StarkHash {
    /// The element zero.
    pub fn zero() -> (z: StarkHash)
        ensures
            z == Self::spec_zero(),
    {
        StarkHash { w3: 0, w2: 0, w1: 0, w0: 0 }
    }

    /// The element zero.
    pub open spec fn spec_zero() -> StarkHash {
        StarkHash { w3: 0, w2: 0, w1: 0, w0: 0 }
    }

    /// Whether this is the element zero.
    pub fn is_zero(&self) -> (z: bool)
        ensures
            z == (*self == Self::spec_zero()),
    {
        self.w3 == 0 && self.w2 == 0 && self.w1 == 0 && self.w0 == 0
    }
}

} // verus!
