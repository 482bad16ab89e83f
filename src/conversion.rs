//! How much of the primary asset a run converts to cover a derivative-asset
//! target.

use crate::address::Address;
use crate::error::SettleError;
use vstd::prelude::*;

verus! {

/// A snapshot of the conversion pool.
#[derive(Clone, Copy, Debug, PartialEq, Eq)]
pub struct PoolState {
    /// Total primary-asset value backing the pool.
    pub total_lamports: u64,
    /// Derivative-asset units outstanding.
    pub pool_token_supply: u64,
    /// The pool's reserve account.
    pub reserve_stake: Address,
    /// The account that collects the pool manager's fees.
    pub manager_fee_account: Address,
    /// Mint of the derivative asset.
    pub pool_mint: Address,
}

/// What a run converts: `lamports` of the primary asset for the
/// `shortfall` of the derivative asset.
#[derive(Clone, Copy, Debug, PartialEq, Eq)]
pub struct Conversion {
    pub lamports: u64,
    pub shortfall: u64,
}

/// `a / b` rounded up.
pub open spec fn ceil_div(a: nat, b: nat) -> nat
    recommends
        b > 0,
{
    if a % b == 0 {
        a / b
    } else {
        a / b + 1
    }
}

/// The primary amount that buys `shortfall` derivative units from a pool
/// with the given reserve and supply.
pub open spec fn primary_for(reserve: u64, supply: u64, shortfall: nat) -> nat {
    ceil_div(reserve as nat * shortfall, supply as nat)
}

/// Every outcome of `required_primary_amount`, as a function of its inputs.
pub open spec fn conversion_result(pool: PoolState, balance: u64, target: u64) -> Result<
    Conversion,
    SettleError,
> {
    if balance >= target {
        Ok(Conversion { lamports: 0, shortfall: 0 })
    } else if pool.pool_token_supply == 0 {
        Err(SettleError::ZeroSupply)
    } else {
        let shortfall = (target - balance) as nat;
        let need = primary_for(pool.total_lamports, pool.pool_token_supply, shortfall);
        if need <= u64::MAX {
            Ok(Conversion { lamports: need as u64, shortfall: shortfall as u64 })
        } else {
            Err(SettleError::AmountOverflow)
        }
    }
}

/// The conversion that covers `target` derivative units when `balance` are
/// held already: none when the balance suffices, else the shortfall and the
/// primary amount that buys it, rounded up so the payments are never left
/// short. A pool without supply has no rate, and an amount that does not fit
/// in 64 bits is refused.
pub fn required_primary_amount(pool: &PoolState, balance: u64, target: u64) -> (r: Result<
    Conversion,
    SettleError,
>)
    ensures
        r == conversion_result(*pool, balance, target),
{
    if balance >= target {
        return Ok(Conversion { lamports: 0, shortfall: 0 });
    }
    if pool.pool_token_supply == 0 {
        return Err(SettleError::ZeroSupply);
    }
    let shortfall: u64 = target - balance;
    let reserve = pool.total_lamports as u128;
    let supply = pool.pool_token_supply as u128;
    assert(reserve * (shortfall as u128) <= u64::MAX as nat * u64::MAX as nat) by (nonlinear_arith)
        requires
            reserve <= u64::MAX,
            shortfall <= u64::MAX,
    ;
    let product: u128 = reserve * (shortfall as u128);
    let mut need: u128 = product / supply;
    if product % supply != 0 {
        need = need + 1;
    }
    if need > u64::MAX as u128 {
        return Err(SettleError::AmountOverflow);
    }
    Ok(Conversion { lamports: need as u64, shortfall })
}

/// The rounded-up quotient is the least amount whose value at the pool's
/// rate covers the shortfall: it covers it, and one unit less does not.
pub proof fn lemma_primary_amount_is_least(reserve: u64, supply: u64, shortfall: nat)
    requires
        supply > 0,
    ensures
        primary_for(reserve, supply, shortfall) * supply >= reserve * shortfall,
        primary_for(reserve, supply, shortfall) > 0 ==> (primary_for(reserve, supply, shortfall)
            - 1) * supply < reserve * shortfall,
{
    let a = reserve as nat * shortfall;
    let b = supply as nat;
    let q = a / b;
    let m = a % b;
    assert(a == q * b + m && 0 <= m < b) by (nonlinear_arith)
        requires
            b > 0,
            q == a / b,
            m == a % b,
    ;
    if m == 0 {
        assert(q * b >= a);
        if q > 0 {
            assert((q - 1) * b < a) by (nonlinear_arith)
                requires
                    a == q * b,
                    b > 0,
            ;
        }
    } else {
        assert((q + 1) * b >= a) by (nonlinear_arith)
            requires
                a == q * b + m,
                m < b,
        ;
        assert(q * b < a);
    }
}

/// What borsh decoding of a `spl_stake_pool::state::StakePool` from the
/// front of `data` yields, projected on the fields a run reads.
pub uninterp spec fn stake_pool_of(data: Seq<u8>) -> Option<PoolState>;

/// Relies on `BorshDeserialize::deserialize` for
/// `spl_stake_pool::state::StakePool`: decoding reads a prefix of the bytes
/// and depends on them alone.
#[verifier::external_body]
fn decode_stake_pool(data: &Vec<u8>) -> (r: Option<PoolState>)
    ensures
        r == stake_pool_of(data@),
{
    let mut bytes = data.as_slice();
    let pool: spl_stake_pool::state::StakePool = borsh::BorshDeserialize::deserialize(&mut bytes).ok()?;
    Some(PoolState {
        total_lamports: pool.total_lamports,
        pool_token_supply: pool.pool_token_supply,
        reserve_stake: Address { bytes: pool.reserve_stake.to_bytes() },
        manager_fee_account: Address { bytes: pool.manager_fee_account.to_bytes() },
        pool_mint: Address { bytes: pool.pool_mint.to_bytes() },
    })
}

/// Reads the pool snapshot from the pool account's raw data; data that does
/// not decode is refused.
pub fn read_pool_state(data: &Vec<u8>) -> (r: Result<PoolState, SettleError>)
    ensures
        match stake_pool_of(data@) {
            Some(p) => r == Ok::<PoolState, SettleError>(p),
            None => r == Err::<PoolState, SettleError>(SettleError::InvalidPoolData),
        },
{
    match decode_stake_pool(data) {
        Some(p) => Ok(p),
        None => Err(SettleError::InvalidPoolData),
    }
}

} // verus!
