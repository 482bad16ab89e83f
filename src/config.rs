//! The fixed identities of one deployment of the invoicing program and its
//! conversion pool.

use crate::address::Address;
use vstd::prelude::*;

verus! {

/// Deployment configuration: which accounts and programs a run talks to, and
/// how many recent periods it inspects.
#[derive(Clone, Copy, Debug, PartialEq, Eq)]
pub struct Deployment {
    /// Base identity from which the issuer-registry address is derived.
    pub invoicer_base: Address,
    /// The invoicing program, owner of every invoice account.
    pub invoicer_program: Address,
    /// The conversion pool account.
    pub stake_pool: Address,
    /// The program that runs the conversion pool.
    pub stake_pool_program: Address,
    /// Mint of the derivative asset.
    pub vsol_mint: Address,
    /// The token program that holds derivative-asset accounts.
    pub token_program: Address,
    /// Number of most recent periods whose invoices are inspected.
    pub lookback: u64,
}

} // verus!
