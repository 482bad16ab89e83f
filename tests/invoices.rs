use vault_invoices::address::{find_invoice_address, find_invoicer_address, invoice_addresses, Address};
use vault_invoices::config::Deployment;
use vault_invoices::error::SettleError;
use vault_invoices::invoice::{parse_invoice, select_outstanding, Invoice};
use vault_invoices::settlement::total_billed;

fn addr(b: u8) -> Address {
    Address { bytes: [b; 32] }
}

fn deployment() -> Deployment {
    Deployment {
        invoicer_base: addr(1),
        invoicer_program: addr(2),
        stake_pool: addr(3),
        stake_pool_program: addr(4),
        vsol_mint: addr(5),
        token_program: addr(6),
        lookback: 20,
    }
}

fn layout(issuer: u8, vote: u8, epoch: u64, amount: u64, balance: u64) -> Vec<u8> {
    let mut d = vec![9u8; 8];
    d.extend_from_slice(&[issuer; 32]);
    d.extend_from_slice(&[vote; 32]);
    d.extend_from_slice(&epoch.to_le_bytes());
    d.extend_from_slice(&amount.to_le_bytes());
    d.extend_from_slice(&balance.to_le_bytes());
    d
}

#[test]
fn decode_round_trip() {
    let data = layout(7, 8, 0x0102_0304_0506_0708, 1_000_000_000, 42);
    assert_eq!(data.len(), 96);
    let inv = parse_invoice(&addr(11), &data).unwrap();
    assert_eq!(inv.invoicer, addr(7));
    assert_eq!(inv.invoice, addr(11));
    assert_eq!(inv.epoch, 0x0102_0304_0506_0708);
    assert_eq!(inv.amount_vsol, 1_000_000_000);
    assert_eq!(inv.balance_outstanding, 42);
}

#[test]
fn decode_extreme_values() {
    let data = layout(255, 0, u64::MAX, 0, u64::MAX);
    let inv = parse_invoice(&addr(0), &data).unwrap();
    assert_eq!(inv.epoch, u64::MAX);
    assert_eq!(inv.amount_vsol, 0);
    assert_eq!(inv.balance_outstanding, u64::MAX);
}

#[test]
fn decode_ignores_trailing_bytes() {
    let mut data = layout(3, 4, 5, 6, 7);
    data.extend_from_slice(&[0xff; 10]);
    let inv = parse_invoice(&addr(1), &data).unwrap();
    assert_eq!((inv.epoch, inv.amount_vsol, inv.balance_outstanding), (5, 6, 7));
}

#[test]
fn decode_short_buffer_fails() {
    let data = layout(3, 4, 5, 6, 7);
    assert_eq!(parse_invoice(&addr(1), &data[..95].to_vec()), Err(SettleError::TruncatedAccount));
    assert_eq!(parse_invoice(&addr(1), &Vec::new()), Err(SettleError::TruncatedAccount));
}

#[test]
fn settled_invoices_are_dropped() {
    let addrs = vec![addr(100), addr(101), addr(102)];
    let accounts = vec![
        Some(layout(7, 8, 100, 10, 5)),
        Some(layout(7, 8, 101, 20, 0)),
        Some(layout(7, 8, 102, 30, 3)),
    ];
    let found = select_outstanding(&addrs, &accounts).unwrap();
    let periods: Vec<u64> = found.iter().map(|i| i.epoch).collect();
    assert_eq!(periods, vec![100, 102]);
    assert_eq!(found[0].invoice, addr(100));
    assert_eq!(found[1].invoice, addr(102));
    assert_eq!(found[0].balance_outstanding, 5);
    assert_eq!(found[1].balance_outstanding, 3);
    // the conversion target is the billed total, not the outstanding total
    assert_eq!(total_billed(&found), Ok(40));
}

#[test]
fn missing_accounts_are_dropped() {
    let addrs = vec![addr(1), addr(2)];
    let accounts = vec![None, Some(layout(7, 8, 2, 4, 4))];
    let found = select_outstanding(&addrs, &accounts).unwrap();
    assert_eq!(found.len(), 1);
    assert_eq!(found[0].epoch, 2);
}

#[test]
fn count_mismatch_fails() {
    let addrs = vec![addr(1), addr(2)];
    let accounts = vec![None];
    assert_eq!(select_outstanding(&addrs, &accounts), Err(SettleError::AccountCountMismatch));
}

#[test]
fn truncated_account_fails_selection() {
    let addrs = vec![addr(1), addr(2)];
    let accounts = vec![Some(layout(7, 8, 1, 4, 4)), Some(vec![0u8; 40])];
    assert_eq!(select_outstanding(&addrs, &accounts), Err(SettleError::TruncatedAccount));
}

#[test]
fn empty_window_selects_nothing() {
    let found = select_outstanding(&Vec::new(), &Vec::new()).unwrap();
    assert!(found.is_empty());
}

#[test]
fn total_billed_overflow() {
    let inv = Invoice { invoicer: addr(1), invoice: addr(2), epoch: 1, amount_vsol: u64::MAX, balance_outstanding: 1 };
    assert_eq!(total_billed(&vec![inv, inv]), Err(SettleError::AmountOverflow));
    assert_eq!(total_billed(&vec![inv]), Ok(u64::MAX));
    assert_eq!(total_billed(&Vec::new()), Ok(0));
}

#[test]
fn invoice_address_matches_program_derivation() {
    let cfg = deployment();
    let a = find_invoice_address(&addr(7), &addr(8), 100, &cfg).unwrap();
    let program = solana_pubkey::Pubkey::new_from_array(cfg.invoicer_program.bytes);
    let (expected, _) = solana_pubkey::Pubkey::find_program_address(
        &[b"invoice", &[7u8; 32], &[8u8; 32], &100u64.to_le_bytes()],
        &program,
    );
    assert_eq!(a.bytes, expected.to_bytes());
    let other = find_invoice_address(&addr(7), &addr(8), 101, &cfg).unwrap();
    assert_ne!(a, other);
}

#[test]
fn invoicer_address_matches_program_derivation() {
    let cfg = deployment();
    let a = find_invoicer_address(&cfg).unwrap();
    let program = solana_pubkey::Pubkey::new_from_array(cfg.invoicer_program.bytes);
    let (expected, _) = solana_pubkey::Pubkey::find_program_address(&[b"invoicer", &[1u8; 32]], &program);
    assert_eq!(a.bytes, expected.to_bytes());
}

#[test]
fn window_covers_recent_periods_oldest_first() {
    let cfg = deployment();
    let addrs = invoice_addresses(&addr(7), &addr(8), 100, &cfg).unwrap();
    assert_eq!(addrs.len(), 20);
    assert_eq!(addrs[0], find_invoice_address(&addr(7), &addr(8), 80, &cfg).unwrap());
    assert_eq!(addrs[19], find_invoice_address(&addr(7), &addr(8), 99, &cfg).unwrap());
}

#[test]
fn window_before_enough_periods_starts_at_zero() {
    let cfg = deployment();
    let addrs = invoice_addresses(&addr(7), &addr(8), 5, &cfg).unwrap();
    assert_eq!(addrs.len(), 5);
    assert_eq!(addrs[0], find_invoice_address(&addr(7), &addr(8), 0, &cfg).unwrap());
    assert!(invoice_addresses(&addr(7), &addr(8), 0, &cfg).unwrap().is_empty());
}
