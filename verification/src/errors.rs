use vstd::prelude::*;

verus! {

/// Errors of the balance ledger.
#[derive(Clone, Copy, PartialEq, Eq, Structural, Debug)]
pub enum LedgerError {
    /// A debit larger than the stored balance was requested.
    InsufficientBalance,
    /// A credit would push the total supply past `u128::MAX`.
    Overflow,
}

/// Errors of the allowance table.
#[derive(Clone, Copy, PartialEq, Eq, Structural, Debug)]
pub enum AllowanceError {
    /// A spend larger than the recorded allowance was requested.
    InsufficientAllowance,
}

/// Errors surfaced by the token operations.
#[derive(Clone, Copy, PartialEq, Eq, Structural, Debug)]
pub enum TokenError {
    /// A transfer or burn larger than the sender's balance was requested.
    InsufficientBalance,
    /// A delegated transfer larger than the recorded allowance was requested.
    InsufficientAllowance,
    /// A mint would push the total supply past `u128::MAX`.
    Overflow,
}

impl TokenError {
    /// How a ledger error appears in the token-level taxonomy.
    pub open spec fn spec_from_ledger(e: LedgerError) -> TokenError {
        match e {
            LedgerError::InsufficientBalance => TokenError::InsufficientBalance,
            LedgerError::Overflow => TokenError::Overflow,
        }
    }

    /// Maps a ledger error into the token-level taxonomy.
    pub fn from_ledger(e: LedgerError) -> (r: TokenError)
        ensures
            r == TokenError::spec_from_ledger(e),
    {
        match e {
            LedgerError::InsufficientBalance => TokenError::InsufficientBalance,
            LedgerError::Overflow => TokenError::Overflow,
        }
    }

    /// How an allowance error appears in the token-level taxonomy.
    pub open spec fn spec_from_allowance(e: AllowanceError) -> TokenError {
        match e {
            AllowanceError::InsufficientAllowance => TokenError::InsufficientAllowance,
        }
    }

    /// Maps an allowance error into the token-level taxonomy.
    pub fn from_allowance(e: AllowanceError) -> (r: TokenError)
        ensures
            r == TokenError::spec_from_allowance(e),
    {
        match e {
            AllowanceError::InsufficientAllowance => TokenError::InsufficientAllowance,
        }
    }
}

} // verus!
