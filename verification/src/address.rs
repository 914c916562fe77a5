//! Fixed-width account identifiers.

use vstd::prelude::*;

verus! {

/// A 160-bit account identifier, held as a high 32-bit word and a low
/// 128-bit word.
///
/// The all-zero value is the reserved null address: it can never legitimately
/// hold or move funds, and the ledger's mutating operations reject it wherever
/// a sender, receiver or spender is expected.
#[derive(Clone, Copy, PartialEq, Eq, Structural, Debug)]
pub struct Address {
    /// The 32 high-order bits of the identifier.
    pub hi: u32,
    /// The 128 low-order bits of the identifier.
    pub lo: u128,
}

impl Address {
    /// Whether this is the null (all-zero) address.
    pub open spec fn spec_is_zero(&self) -> bool {
        self.hi == 0 && self.lo == 0
    }

    /// Builds an identifier from its two words.
    pub fn new(hi: u32, lo: u128) -> (a: Address)
        ensures
            a == (Address { hi, lo }),
    {
        Address { hi, lo }
    }

    /// The null address.
    pub fn zero() -> (a: Address)
        ensures
            a == (Address { hi: 0u32, lo: 0u128 }),
            a.spec_is_zero(),
    {
        Address { hi: 0, lo: 0 }
    }

    /// Whether this is the null (all-zero) address.
    #[verifier::when_used_as_spec(spec_is_zero)]
    pub fn is_zero(&self) -> (r: bool)
        ensures
            r == self.spec_is_zero(),
    {
        self.hi == 0 && self.lo == 0
    }
}

} // verus!
