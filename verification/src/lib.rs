//! The accounting core of a fungible-token ledger.
//!
//! The crate follows the standard balance/allowance model: a mapping of
//! addresses to balances together with a total-supply counter ([`ledger`]),
//! a mapping of `(owner, spender)` pairs to spending allowances
//! ([`allowance`]), and the public operation surface that composes the two
//! ([`token`]). Every operation is a single atomic state transition: a failed
//! call leaves the state exactly as it was, and the conservation invariant
//! (the sum of all balances equals the total supply) holds in every reachable
//! state.
//!
//! The surrounding execution environment is a collaborator, not part of the
//! core: it resolves the caller's identity, passes it in explicitly, and
//! emits the [`events::Event`] records that successful operations return.

pub mod address;
pub mod allowance;
pub mod errors;
pub mod events;
pub mod ledger;
pub mod token;
