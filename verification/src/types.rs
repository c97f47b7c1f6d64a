//! Basic chain-level value types shared across the pipeline.

use vstd::prelude::*;

verus! {

/// A 20-byte contract or account address, split into a 4-byte high part and
/// a 16-byte low part so that equality is plain field equality.
#[derive(Clone, Copy, PartialEq, Eq, Structural, Debug)]
pub struct Address {
    pub hi: u32,
    pub lo: u128,
}

impl Address {
    /// The all-zero address; used as the marker for the chain's native asset.
    pub fn zero() -> (r: Address)
        ensures
            r.hi == 0 && r.lo == 0,
    {
        Address { hi: 0, lo: 0 }
    }

    /// A short test-friendly constructor: the address whose low bits are `v`.
    pub fn from_low(v: u64) -> (r: Address)
        ensures
            r.hi == 0 && r.lo == v as u128,
    {
        Address { hi: 0, lo: v as u128 }
    }

    /// Address equality as an executable check.
    pub fn same(&self, other: &Address) -> (r: bool)
        ensures
            r == (*self == *other),
    {
        self.hi == other.hi && self.lo == other.lo
    }
}

/// Protocol attribution for a decoded call. Two registry bindings may share
/// one decode schema while keeping distinct protocol identities.
#[derive(Clone, Copy, PartialEq, Eq, Structural, Debug)]
pub enum Protocol {
    UniswapV2,
    UniswapV3,
    SushiSwapV2,
}

} // verus!
