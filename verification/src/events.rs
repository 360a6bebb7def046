use vstd::prelude::*;
use crate::address::Address;

verus! {

/// A domain event produced by a successful operation, in the order the
/// operations ran. The surrounding environment is responsible for emitting
/// them; the core only records them.
#[derive(Clone, Copy, PartialEq, Eq, Structural, Debug)]
pub enum Event {
    /// Value moved from `from` to `to`. Mints use the all-zero sentinel as
    /// `from`; burns use it as `to`.
    Transfer { from: Address, to: Address, amount: u128 },
    /// `owner` set `spender`'s allowance to exactly `amount`.
    Approval { owner: Address, spender: Address, amount: u128 },
}

} // verus!
