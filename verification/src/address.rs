use vstd::prelude::*;

verus! {

/// An account identifier: an opaque 160-bit value, compared only for
/// equality.
///
/// The ledger never inspects an address beyond comparing it with another,
/// so the 160 bits are held as two plain unsigned fields (32 + 128 bits).
#[derive(Clone, Copy, PartialEq, Eq, Structural, Debug)]
pub struct Address {
    /// The high 32 bits of the identifier.
    pub hi: u32,
    /// The low 128 bits of the identifier.
    pub lo: u128,
}

impl Address {
    /// The distinguished all-zero address, used as the mint/burn sentinel
    /// in `Transfer` events.
    pub open spec fn spec_zero() -> Address {
        Address { hi: 0, lo: 0 }
    }

    /// Returns the all-zero sentinel address.
    pub fn zero() -> (r: Address)
        ensures
            r == Address::spec_zero(),
    {
        Address { hi: 0, lo: 0 }
    }
}

} // verus!
