//! Failures of a settlement run.

use vstd::prelude::*;

verus! {

/// Why a settlement run cannot go on.
#[derive(Clone, Copy, Debug, PartialEq, Eq)]
pub enum SettleError {
    /// No bump seed gives a program-derived address for the seeds.
    NoProgramAddress,
    /// The ledger answered a batch fetch with another number of accounts
    /// than addresses were asked for.
    AccountCountMismatch,
    /// An invoice account holds fewer bytes than its layout needs.
    TruncatedAccount,
    /// The pool account's data does not decode as a pool.
    InvalidPoolData,
    /// The pool has no derivative supply, so it has no conversion rate.
    ZeroSupply,
    /// An amount does not fit in 64 bits.
    AmountOverflow,
}

} // verus!
