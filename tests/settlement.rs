use vault_invoices::address::Address;
use vault_invoices::batch::{split_into_batches, SubmitAction, Submission, BATCH_SIZE};
use vault_invoices::config::Deployment;
use vault_invoices::conversion::{read_pool_state, required_primary_amount, Conversion, PoolState};
use vault_invoices::error::SettleError;
use vault_invoices::invoice::Invoice;
use vault_invoices::settlement::{build_plan, payer_token_account, payment_instruction};

fn addr(b: u8) -> Address {
    Address { bytes: [b; 32] }
}

fn deployment() -> Deployment {
    Deployment {
        invoicer_base: addr(1),
        invoicer_program: addr(2),
        stake_pool: addr(3),
        stake_pool_program: addr(4),
        vsol_mint: addr(5),
        token_program: addr(6),
        lookback: 20,
    }
}

fn pool(reserve: u64, supply: u64) -> PoolState {
    PoolState {
        total_lamports: reserve,
        pool_token_supply: supply,
        reserve_stake: addr(20),
        manager_fee_account: addr(21),
        pool_mint: addr(5),
    }
}

fn invoice(epoch: u64, amount: u64, balance: u64) -> Invoice {
    Invoice { invoicer: addr(7), invoice: addr(epoch as u8), epoch, amount_vsol: amount, balance_outstanding: balance }
}

#[test]
fn conversion_rounds_up() {
    let c = required_primary_amount(&pool(1_000_000, 900_000), 0, 1_000).unwrap();
    assert_eq!(c, Conversion { lamports: 1_112, shortfall: 1_000 });
}

#[test]
fn conversion_counts_held_balance() {
    let c = required_primary_amount(&pool(1_000_000, 900_000), 500, 1_500).unwrap();
    assert_eq!(c, Conversion { lamports: 1_112, shortfall: 1_000 });
}

#[test]
fn conversion_exact_rate_has_no_rounding() {
    let c = required_primary_amount(&pool(2_000, 1_000), 0, 7).unwrap();
    assert_eq!(c, Conversion { lamports: 14, shortfall: 7 });
}

#[test]
fn conversion_not_needed_when_covered() {
    assert_eq!(required_primary_amount(&pool(1, 0), 10, 10), Ok(Conversion { lamports: 0, shortfall: 0 }));
    assert_eq!(required_primary_amount(&pool(5, 3), 11, 10), Ok(Conversion { lamports: 0, shortfall: 0 }));
}

#[test]
fn conversion_zero_supply_fails() {
    assert_eq!(required_primary_amount(&pool(1_000, 0), 0, 10), Err(SettleError::ZeroSupply));
}

#[test]
fn conversion_wide_product_does_not_overflow() {
    let c = required_primary_amount(&pool(u64::MAX, u64::MAX), 0, u64::MAX).unwrap();
    assert_eq!(c.lamports, u64::MAX);
    assert_eq!(required_primary_amount(&pool(u64::MAX, 1), 0, 2), Err(SettleError::AmountOverflow));
}

#[test]
fn conversion_is_least_covering_amount() {
    for (r, s, x) in [(1_000_000u64, 900_000u64, 1_000u64), (7, 3, 5), (1, 1_000, 1), (999, 1000, 1001)] {
        let c = required_primary_amount(&pool(r, s), 0, x).unwrap();
        let p = c.lamports as u128;
        assert!(p * s as u128 >= r as u128 * x as u128);
        assert!(p == 0 || (p - 1) * (s as u128) < r as u128 * x as u128);
    }
}

#[test]
fn thirteen_operations_make_three_batches() {
    let ops: Vec<u32> = (0..13).collect();
    let batches = split_into_batches(ops, BATCH_SIZE);
    let sizes: Vec<usize> = batches.iter().map(|b| b.len()).collect();
    assert_eq!(sizes, vec![5, 5, 3]);
    let flat: Vec<u32> = batches.into_iter().flatten().collect();
    assert_eq!(flat, (0..13).collect::<Vec<u32>>());
}

#[test]
fn batches_of_exact_multiple_and_empty() {
    let batches = split_into_batches((0..10).collect::<Vec<u32>>(), 5);
    assert_eq!(batches, vec![vec![0, 1, 2, 3, 4], vec![5, 6, 7, 8, 9]]);
    assert!(split_into_batches(Vec::<u32>::new(), 5).is_empty());
    assert_eq!(split_into_batches(vec![1u32], 5), vec![vec![1]]);
}

#[test]
fn payment_instruction_layout() {
    let cfg = deployment();
    let ix = payment_instruction(&invoice(100, 10, 0x0102), &addr(30), &addr(31), &addr(32), &cfg);
    assert_eq!(ix.program_id, addr(2));
    assert_eq!(ix.data, vec![104, 6, 62, 239, 197, 206, 208, 220, 0x02, 0x01, 0, 0, 0, 0, 0, 0]);
    let keys: Vec<(Address, bool, bool)> = ix.accounts.iter().map(|a| (a.key, a.is_signer, a.is_writable)).collect();
    assert_eq!(
        keys,
        vec![
            (addr(7), false, false),
            (addr(100), false, true),
            (addr(31), false, true),
            (addr(30), true, false),
            (addr(32), false, true),
            (addr(6), false, false),
        ]
    );
}

#[test]
fn payer_token_account_is_associated_address() {
    let cfg = deployment();
    let expected = spl_associated_token_account_client::address::get_associated_token_address(
        &solana_pubkey::Pubkey::new_from_array([30; 32]),
        &solana_pubkey::Pubkey::new_from_array([5; 32]),
    );
    let got = payer_token_account(&addr(30), &cfg);
    assert_eq!(got.bytes, expected.to_bytes());
    assert_ne!(got, addr(30));
}

#[test]
fn plan_without_account_or_balance() {
    let cfg = deployment();
    let invoices = vec![invoice(100, 10, 5), invoice(102, 30, 3)];
    let plan = build_plan(&invoices, &addr(30), None, &pool(1_000_000, 900_000), &cfg).unwrap();
    assert_eq!(plan.len(), 4);
    let ata_program = spl_associated_token_account_client::program::id().to_bytes();
    assert_eq!(plan[0].program_id.bytes, ata_program);
    // conversion of the billed total 40 at the pool's rate: ceil(40 * 10 / 9)
    assert_eq!(plan[1].program_id, addr(4));
    assert_eq!(plan[1].data, vec![14, 45, 0, 0, 0, 0, 0, 0, 0]);
    assert_eq!(plan[1].accounts.len(), 10);
    // pool, withdraw authority, reserve, funding payer, receiving account, ...
    assert_eq!(plan[1].accounts[0].key, addr(3));
    assert_eq!(plan[1].accounts[2].key, addr(20));
    assert_eq!((plan[1].accounts[3].key, plan[1].accounts[3].is_signer), (addr(30), true));
    let payer_token = payer_token_account(&addr(30), &cfg);
    assert_eq!(plan[1].accounts[4].key, payer_token);
    assert_eq!(plan[2].data[8..], 5u64.to_le_bytes());
    assert_eq!(plan[3].data[8..], 3u64.to_le_bytes());
    assert_eq!(plan[2].accounts[2].key, payer_token);
    let reserve = payer_token_account(&addr(7), &cfg);
    assert_eq!(plan[2].accounts[4].key, reserve);
    assert_eq!(plan[3].accounts[4].key, reserve);
}

#[test]
fn plan_with_covering_balance_has_no_conversion() {
    let cfg = deployment();
    let invoices = vec![invoice(100, 10, 5), invoice(102, 30, 3)];
    let plan = build_plan(&invoices, &addr(30), Some(40), &pool(1_000_000, 0), &cfg).unwrap();
    assert_eq!(plan.len(), 2);
    assert!(plan.iter().all(|ix| ix.program_id == addr(2)));
}

#[test]
fn plan_with_short_balance_converts_difference() {
    let cfg = deployment();
    let invoices = vec![invoice(100, 1_000, 1_000)];
    let plan = build_plan(&invoices, &addr(30), Some(0), &pool(1_000_000, 900_000), &cfg).unwrap();
    assert_eq!(plan.len(), 2);
    assert_eq!(plan[0].data[1..], 1_112u64.to_le_bytes());
}

#[test]
fn plan_with_zero_supply_fails() {
    let cfg = deployment();
    let invoices = vec![invoice(100, 10, 5)];
    assert_eq!(build_plan(&invoices, &addr(30), Some(0), &pool(10, 0), &cfg), Err(SettleError::ZeroSupply));
}

#[test]
fn pool_state_decodes_from_account_data() {
    let mut sp = spl_stake_pool::state::StakePool::default();
    sp.total_lamports = 1_000_000;
    sp.pool_token_supply = 900_000;
    sp.reserve_stake = [20u8; 32].into();
    sp.manager_fee_account = [21u8; 32].into();
    sp.pool_mint = [5u8; 32].into();
    let mut data = borsh::to_vec(&sp).unwrap();
    data.extend_from_slice(&[0u8; 64]);
    assert_eq!(read_pool_state(&data), Ok(pool(1_000_000, 900_000)));
    assert_eq!(read_pool_state(&vec![1, 2, 3]), Err(SettleError::InvalidPoolData));
}

#[test]
fn conversion_uses_pool_withdraw_authority() {
    let cfg = deployment();
    let invoices = vec![invoice(100, 10, 5)];
    let plan = build_plan(&invoices, &addr(30), Some(0), &pool(1_000_000, 900_000), &cfg).unwrap();
    let (authority, _) = spl_stake_pool::find_withdraw_authority_program_address(&[4u8; 32].into(), &[3u8; 32].into());
    assert_eq!(plan[0].accounts[1].key.bytes, authority.to_bytes());
    assert_ne!(plan[0].accounts[1].key, addr(3));
}

#[test]
fn plan_for_no_invoices_is_empty() {
    let cfg = deployment();
    let plan = build_plan(&Vec::new(), &addr(30), Some(0), &pool(1, 0), &cfg).unwrap();
    assert!(plan.is_empty());
}

#[test]
fn submission_sends_batches_in_order() {
    let mut run = Submission::new(3);
    for i in 0..3 {
        assert_eq!(run.next_action(), SubmitAction::Send(i));
        run.record(true);
    }
    assert_eq!(run.next_action(), SubmitAction::Done);
    assert_eq!(Submission::new(0).next_action(), SubmitAction::Done);
}

#[test]
fn submission_stops_at_first_failure() {
    let mut run = Submission::new(3);
    run.record(true);
    assert_eq!(run.next_action(), SubmitAction::Send(1));
    run.record(false);
    assert_eq!(run.next_action(), SubmitAction::Abort(1));
    assert_eq!(run.next_action(), SubmitAction::Abort(1));
}
