//! Ledger instructions as plain values, and the instructions that the token
//! and pool programs' client libraries build.

use crate::address::Address;
use vstd::prelude::*;

verus! {

/// One account an instruction reads or writes.
#[derive(Clone, Copy, Debug, PartialEq, Eq)]
pub struct AccountRef {
    pub key: Address,
    pub is_signer: bool,
    pub is_writable: bool,
}

impl View for AccountRef {
    type V = (Seq<u8>, bool, bool);

    open spec fn view(&self) -> (Seq<u8>, bool, bool) {
        (self.key@, self.is_signer, self.is_writable)
    }
}

/// The model of an instruction: its program, its accounts and its data.
pub type IxView = (Seq<u8>, Seq<(Seq<u8>, bool, bool)>, Seq<u8>);

/// One instruction: the program it calls, the accounts in order, the data.
#[derive(Debug, PartialEq, Eq)]
pub struct Ix {
    pub program_id: Address,
    pub accounts: Vec<AccountRef>,
    pub data: Vec<u8>,
}

impl View for Ix {
    type V = IxView;

    open spec fn view(&self) -> IxView {
        (self.program_id@, self.accounts@.map_values(|a: AccountRef| a@), self.data@)
    }
}

/// The models of a list of instructions.
pub open spec fn ix_views(s: Seq<Ix>) -> Seq<IxView> {
    s.map_values(|i: Ix| i@)
}

/// The models of a list of addresses.
pub open spec fn address_views(s: Seq<Address>) -> Seq<Seq<u8>> {
    s.map_values(|a: Address| a@)
}

/// What `get_associated_token_address` returns for a wallet and a mint.
pub uninterp spec fn associated_token_address_of(wallet: Seq<u8>, mint: Seq<u8>) -> Seq<u8>;

/// Relies on `spl_associated_token_account_client::address::get_associated_token_address`:
/// a pure function of the wallet and the mint. The crate's source panics only
/// where no bump seed yields an address, which it treats as unreachable.
#[verifier::external_body]
pub(crate) fn associated_token_address(wallet: &Address, mint: &Address) -> (r: Address)
    ensures
        r@ == associated_token_address_of(wallet@, mint@),
{
    let pk = spl_associated_token_account_client::address::get_associated_token_address(
        &wallet.bytes.into(),
        &mint.bytes.into(),
    );
    Address { bytes: pk.to_bytes() }
}

/// What `find_withdraw_authority_program_address` returns as the address for
/// a pool program and a pool.
pub uninterp spec fn withdraw_authority_of(program: Seq<u8>, pool: Seq<u8>) -> Seq<u8>;

/// Relies on `spl_stake_pool::find_withdraw_authority_program_address`: a
/// pure function of the pool program and the pool. The crate's source panics
/// only where no bump seed yields an address, which it treats as unreachable.
#[verifier::external_body]
pub(crate) fn withdraw_authority(program: &Address, pool: &Address) -> (r: Address)
    ensures
        r@ == withdraw_authority_of(program@, pool@),
{
    let (pk, _) = spl_stake_pool::find_withdraw_authority_program_address(
        &program.bytes.into(),
        &pool.bytes.into(),
    );
    Address { bytes: pk.to_bytes() }
}

/// What `create_associated_token_account` builds for the funding account,
/// the wallet, the mint and the token program, in that order.
pub uninterp spec fn create_token_account_ix_of(keys: Seq<Seq<u8>>) -> IxView;

/// Relies on `spl_associated_token_account_client::instruction::create_associated_token_account`:
/// the instruction is a pure function of its four addresses.
#[verifier::external_body]
pub(crate) fn create_token_account_ix(funder: &Address, wallet: &Address, mint: &Address, token_program: &Address) -> (r: Ix)
    ensures
        r@ == create_token_account_ix_of(seq![funder@, wallet@, mint@, token_program@]),
{
    let ix = spl_associated_token_account_client::instruction::create_associated_token_account(
        &funder.bytes.into(),
        &wallet.bytes.into(),
        &mint.bytes.into(),
        &token_program.bytes.into(),
    );
    let accounts = ix.accounts.iter().map(|m| AccountRef { key: Address { bytes: m.pubkey.to_bytes() }, is_signer: m.is_signer, is_writable: m.is_writable });
    Ix { program_id: Address { bytes: ix.program_id.to_bytes() }, accounts: accounts.collect(), data: ix.data }
}

/// What `deposit_sol` builds for its ten addresses, in the order of its
/// parameters, and the deposited primary amount.
pub uninterp spec fn deposit_sol_ix_of(keys: Seq<Seq<u8>>, lamports: u64) -> IxView;

/// Relies on `spl_stake_pool::instruction::deposit_sol`: the instruction is a
/// pure function of its addresses and the amount.
#[verifier::external_body]
pub(crate) fn deposit_sol_ix(keys: &Vec<Address>, lamports: u64) -> (r: Ix)
    requires
        keys@.len() == 10,
    ensures
        r@ == deposit_sol_ix_of(address_views(keys@), lamports),
{
    let k: Vec<_> = keys.iter().map(|a| a.bytes.into()).collect();
    let ix = spl_stake_pool::instruction::deposit_sol(&k[0], &k[1], &k[2], &k[3], &k[4], &k[5], &k[6], &k[7], &k[8], &k[9], lamports);
    let accounts = ix.accounts.iter().map(|m| AccountRef { key: Address { bytes: m.pubkey.to_bytes() }, is_signer: m.is_signer, is_writable: m.is_writable });
    Ix { program_id: Address { bytes: ix.program_id.to_bytes() }, accounts: accounts.collect(), data: ix.data }
}

} // verus!
