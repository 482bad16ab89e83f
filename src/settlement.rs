//! The settlement plan: account creation, conversion, then one payment per
//! unpaid invoice.

use crate::address::Address;
use crate::codec::{le_bytes, u64_le_bytes};
use crate::config::Deployment;
use crate::conversion::{conversion_result, required_primary_amount, Conversion, PoolState};
use crate::error::SettleError;
use crate::instruction::{
    address_views, associated_token_address, associated_token_address_of, create_token_account_ix,
    create_token_account_ix_of, deposit_sol_ix, deposit_sol_ix_of, ix_views, withdraw_authority,
    withdraw_authority_of, AccountRef, Ix, IxView,
};
use crate::invoice::Invoice;
use vstd::prelude::*;

verus! {

/// The tag that opens the data of a payment instruction.
pub open spec fn pay_discriminator() -> Seq<u8> {
    seq![104u8, 6, 62, 239, 197, 206, 208, 220]
}

/// The payment of `inv` by `payer` from its derivative account
/// `payer_token` into the issuer's reserve `reserve`: the issuer (read
/// only), the invoice, the payer's account, the payer as sole signer, the
/// reserve and the token program, and as data the tag and the outstanding
/// balance in little-endian.
pub open spec fn payment_view(
    inv: Invoice,
    payer: Seq<u8>,
    payer_token: Seq<u8>,
    reserve: Seq<u8>,
    cfg: Deployment,
) -> IxView {
    (
        cfg.invoicer_program@,
        seq![
            (inv.invoicer@, false, false),
            (inv.invoice@, false, true),
            (payer_token, false, true),
            (payer, true, false),
            (reserve, false, true),
            (cfg.token_program@, false, false),
        ],
        pay_discriminator() + le_bytes(inv.balance_outstanding as nat, 8),
    )
}

/// Builds the instruction that pays the outstanding balance of `inv`.
pub fn payment_instruction(
    inv: &Invoice,
    payer: &Address,
    payer_token: &Address,
    reserve: &Address,
    cfg: &Deployment,
) -> (r: Ix)
    ensures
        r@ == payment_view(*inv, payer@, payer_token@, reserve@, *cfg),
{
    let mut data: Vec<u8> = vec![104u8, 6, 62, 239, 197, 206, 208, 220];
    let mut amount = u64_le_bytes(inv.balance_outstanding);
    data.append(&mut amount);
    let accounts: Vec<AccountRef> = vec![
        AccountRef { key: inv.invoicer, is_signer: false, is_writable: false },
        AccountRef { key: inv.invoice, is_signer: false, is_writable: true },
        AccountRef { key: *payer_token, is_signer: false, is_writable: true },
        AccountRef { key: *payer, is_signer: true, is_writable: false },
        AccountRef { key: *reserve, is_signer: false, is_writable: true },
        AccountRef { key: cfg.token_program, is_signer: false, is_writable: false },
    ];
    let r = Ix { program_id: cfg.invoicer_program, accounts, data };
    assert(r@.1 =~= payment_view(*inv, payer@, payer_token@, reserve@, *cfg).1);
    assert(r@.2 =~= payment_view(*inv, payer@, payer_token@, reserve@, *cfg).2);
    r
}

/// The sum of the originally billed amounts.
pub open spec fn sum_billed(invoices: Seq<Invoice>) -> nat
    decreases invoices.len(),
{
    if invoices.len() == 0 {
        0
    } else {
        sum_billed(invoices.drop_last()) + invoices.last().amount_vsol as nat
    }
}

proof fn lemma_sum_billed_monotone(invoices: Seq<Invoice>, i: int)
    requires
        0 <= i <= invoices.len(),
    ensures
        sum_billed(invoices.take(i)) <= sum_billed(invoices),
    decreases invoices.len() - i,
{
    if i < invoices.len() {
        lemma_sum_billed_monotone(invoices, i + 1);
        assert(invoices.take(i + 1).drop_last() =~= invoices.take(i));
    } else {
        assert(invoices.take(i) =~= invoices);
    }
}

/// The derivative amount a run must hold: the sum of what the invoices
/// originally billed (not what remains outstanding on them).
pub fn total_billed(invoices: &Vec<Invoice>) -> (r: Result<u64, SettleError>)
    ensures
        sum_billed(invoices@) <= u64::MAX ==> r == Ok::<u64, SettleError>(
            sum_billed(invoices@) as u64,
        ),
        sum_billed(invoices@) > u64::MAX ==> r == Err::<u64, SettleError>(
            SettleError::AmountOverflow,
        ),
{
    let mut total: u64 = 0;
    let mut i: usize = 0;
    while i < invoices.len()
        invariant
            i <= invoices@.len(),
            total == sum_billed(invoices@.take(i as int)),
        decreases invoices@.len() - i,
    {
        assert(invoices@.take(i + 1).drop_last() =~= invoices@.take(i as int));
        match total.checked_add(invoices[i].amount_vsol) {
            None => {
                proof {
                    lemma_sum_billed_monotone(invoices@, i + 1);
                }
                return Err(SettleError::AmountOverflow);
            },
            Some(t) => {
                total = t;
            },
        }
        i = i + 1;
    }
    assert(invoices@.take(i as int) =~= invoices@);
    Ok(total)
}

/// The addresses handed to `deposit_sol`, in its parameter order: pool
/// program, pool, withdraw authority, reserve, the payer funding the
/// deposit, the payer's derivative account (receiving the units and the
/// referral fee) and manager fee account, mint, token program.
pub open spec fn deposit_keys(pool: PoolState, payer: Seq<u8>, payer_token: Seq<u8>, cfg: Deployment) -> Seq<Seq<u8>> {
    seq![
        cfg.stake_pool_program@,
        cfg.stake_pool@,
        withdraw_authority_of(cfg.stake_pool_program@, cfg.stake_pool@),
        pool.reserve_stake@,
        payer,
        payer_token,
        pool.manager_fee_account@,
        payer_token,
        pool.pool_mint@,
        cfg.token_program@,
    ]
}

/// The account-creation step: present only when the payer has no
/// derivative account yet.
pub open spec fn creation_step(balance: Option<u64>, payer: Seq<u8>, cfg: Deployment) -> Seq<IxView> {
    if balance is None {
        seq![create_token_account_ix_of(seq![payer, payer, cfg.vsol_mint@, cfg.token_program@])]
    } else {
        Seq::empty()
    }
}

/// The conversion step: present only when there is a shortfall.
pub open spec fn conversion_step(c: Conversion, pool: PoolState, payer: Seq<u8>, cfg: Deployment) -> Seq<IxView> {
    if c.shortfall > 0 {
        let payer_token = associated_token_address_of(payer, cfg.vsol_mint@);
        seq![deposit_sol_ix_of(deposit_keys(pool, payer, payer_token, cfg), c.lamports)]
    } else {
        Seq::empty()
    }
}

/// One payment per invoice, in order, all into the reserve of the first
/// invoice's issuer.
pub open spec fn payment_steps(invoices: Seq<Invoice>, payer: Seq<u8>, cfg: Deployment) -> Seq<IxView> {
    let payer_token = associated_token_address_of(payer, cfg.vsol_mint@);
    let reserve = associated_token_address_of(invoices[0].invoicer@, cfg.vsol_mint@);
    Seq::new(invoices.len(), |k: int| payment_view(invoices[k], payer, payer_token, reserve, cfg))
}

/// The derivative balance the payer holds: none without an account.
pub open spec fn held(balance: Option<u64>) -> u64 {
    match balance {
        Some(b) => b,
        None => 0,
    }
}

/// Every outcome of `build_plan`, in terms of the plan's models.
pub open spec fn plan_result(
    invoices: Seq<Invoice>,
    payer: Seq<u8>,
    balance: Option<u64>,
    pool: PoolState,
    cfg: Deployment,
) -> Result<Seq<IxView>, SettleError> {
    if sum_billed(invoices) > u64::MAX {
        Err(SettleError::AmountOverflow)
    } else {
        match conversion_result(pool, held(balance), sum_billed(invoices) as u64) {
            Err(e) => Err(e),
            Ok(c) => Ok(
                creation_step(balance, payer, cfg) + conversion_step(c, pool, payer, cfg)
                    + payment_steps(invoices, payer, cfg),
            ),
        }
    }
}

/// A payer whose derivative balance already covers the billed total gets
/// no conversion in the plan.
pub proof fn lemma_no_conversion_when_covered(
    invoices: Seq<Invoice>,
    payer: Seq<u8>,
    balance: Option<u64>,
    pool: PoolState,
    cfg: Deployment,
)
    requires
        held(balance) >= sum_billed(invoices),
    ensures
        plan_result(invoices, payer, balance, pool, cfg) == Ok::<Seq<IxView>, SettleError>(
            creation_step(balance, payer, cfg) + payment_steps(invoices, payer, cfg),
        ),
{
    let c = Conversion { lamports: 0, shortfall: 0 };
    assert(conversion_step(c, pool, payer, cfg) =~= Seq::<IxView>::empty());
    assert(creation_step(balance, payer, cfg) + Seq::<IxView>::empty() =~= creation_step(
        balance,
        payer,
        cfg,
    ));
}

/// The plan's models, or the error.
pub open spec fn plan_views(r: Result<Vec<Ix>, SettleError>) -> Result<Seq<IxView>, SettleError> {
    match r {
        Ok(v) => Ok(ix_views(v@)),
        Err(e) => Err(e),
    }
}

/// The derivative-asset account of `payer`.
pub fn payer_token_account(payer: &Address, cfg: &Deployment) -> (r: Address)
    ensures
        r@ == associated_token_address_of(payer@, cfg.vsol_mint@),
{
    associated_token_address(payer, &cfg.vsol_mint)
}

/// Builds the settlement plan of `payer` for `invoices`. `balance` is what
/// the payer's derivative account holds, or nothing when the account does
/// not exist yet, in which case the plan opens it first. When the balance
/// is short of the billed total, a conversion follows that covers the
/// difference at the pool's rate. Then comes one payment per invoice.
pub fn build_plan(
    invoices: &Vec<Invoice>,
    payer: &Address,
    balance: Option<u64>,
    pool: &PoolState,
    cfg: &Deployment,
) -> (r: Result<Vec<Ix>, SettleError>)
    ensures
        plan_views(r) == plan_result(invoices@, payer@, balance, *pool, *cfg),
{
    let target = match total_billed(invoices) {
        Err(e) => {
            return Err(e);
        },
        Ok(t) => t,
    };
    let have: u64 = match balance {
        Some(b) => b,
        None => 0,
    };
    let conversion = match required_primary_amount(pool, have, target) {
        Err(e) => {
            return Err(e);
        },
        Ok(c) => c,
    };
    let payer_token = payer_token_account(payer, cfg);
    let mut plan: Vec<Ix> = Vec::new();
    if balance.is_none() {
        plan.push(create_token_account_ix(payer, payer, &cfg.vsol_mint, &cfg.token_program));
    }
    if conversion.shortfall > 0 {
        let authority = withdraw_authority(&cfg.stake_pool_program, &cfg.stake_pool);
        let keys: Vec<Address> = vec![
            cfg.stake_pool_program,
            cfg.stake_pool,
            authority,
            pool.reserve_stake,
            *payer,
            payer_token,
            pool.manager_fee_account,
            payer_token,
            pool.pool_mint,
            cfg.token_program,
        ];
        assert(address_views(keys@) =~= deposit_keys(*pool, payer@, payer_token@, *cfg));
        plan.push(deposit_sol_ix(&keys, conversion.lamports));
    }
    let ghost prefix = ix_views(plan@);
    assert(prefix =~= creation_step(balance, payer@, *cfg) + conversion_step(
        conversion,
        *pool,
        payer@,
        *cfg,
    ));
    if invoices.len() > 0 {
        let reserve = associated_token_address(&invoices[0].invoicer, &cfg.vsol_mint);
        let ghost steps = payment_steps(invoices@, payer@, *cfg);
        let mut i: usize = 0;
        while i < invoices.len()
            invariant
                i <= invoices@.len(),
                invoices@.len() > 0,
                payer_token@ == associated_token_address_of(payer@, cfg.vsol_mint@),
                reserve@ == associated_token_address_of(invoices@[0].invoicer@, cfg.vsol_mint@),
                steps == payment_steps(invoices@, payer@, *cfg),
                ix_views(plan@) =~= prefix + steps.take(i as int),
            decreases invoices@.len() - i,
        {
            let ix = payment_instruction(&invoices[i], payer, &payer_token, &reserve, cfg);
            let ghost before = plan@;
            let ghost v = ix@;
            assert(steps[i as int] == v);
            plan.push(ix);
            assert(ix_views(plan@) =~= ix_views(before).push(v));
            assert(steps.take(i + 1) =~= steps.take(i as int).push(v));
            assert(ix_views(plan@) =~= prefix + steps.take(i + 1));
            i = i + 1;
        }
        assert(steps.take(i as int) =~= steps);
    } else {
        assert(payment_steps(invoices@, payer@, *cfg) =~= Seq::<IxView>::empty());
    }
    Ok(plan)
}

} // verus!
