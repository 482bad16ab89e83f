//! Invoice records: their binary layout and the selection of unpaid ones.

use crate::address::Address;
use crate::codec::{le_bytes, le_value, lemma_le_bytes_len, lemma_le_round_trip, pow256, read_u64_le};
use crate::error::SettleError;
use vstd::prelude::*;

verus! {

/// Number of bytes an invoice account must hold.
pub const INVOICE_LEN: usize = 96;

/// One period's claim of an issuer against a validator identity.
#[derive(Clone, Copy, Debug, PartialEq, Eq)]
pub struct Invoice {
    /// Issuer of the invoice.
    pub invoicer: Address,
    /// The account that holds the invoice.
    pub invoice: Address,
    /// Accounting period the invoice bills.
    pub epoch: u64,
    /// Derivative-asset amount originally billed.
    pub amount_vsol: u64,
    /// Derivative-asset amount still unpaid.
    pub balance_outstanding: u64,
}

/// The unsigned integer at `data[start..start + 8]`.
pub open spec fn field_u64(data: Seq<u8>, start: int) -> nat {
    le_value(data.subrange(start, start + 8))
}

/// `inv` is what the account at `pk` holding `data` records.
pub open spec fn decodes_to(inv: Invoice, pk: Seq<u8>, data: Seq<u8>) -> bool {
    &&& inv.invoicer@ == data.subrange(8, 40)
    &&& inv.invoice@ == pk
    &&& inv.epoch as nat == field_u64(data, 72)
    &&& inv.amount_vsol as nat == field_u64(data, 80)
    &&& inv.balance_outstanding as nat == field_u64(data, 88)
}

/// Decodes the invoice account at `pk` from its raw data: an 8-byte record
/// tag, the issuer, the validator identity, then period, billed amount and
/// outstanding balance as little-endian 64-bit integers. Data shorter than
/// the layout is refused.
pub fn parse_invoice(pk: &Address, data: &Vec<u8>) -> (r: Result<Invoice, SettleError>)
    ensures
        data@.len() < INVOICE_LEN <==> r is Err,
        r is Err ==> r == Err::<Invoice, SettleError>(SettleError::TruncatedAccount),
        r matches Ok(inv) ==> decodes_to(inv, pk@, data@),
{
    if data.len() < INVOICE_LEN {
        return Err(SettleError::TruncatedAccount);
    }
    let mut bytes = [0u8; 32];
    let mut j: usize = 0;
    while j < 32
        invariant
            j <= 32,
            data@.len() >= INVOICE_LEN,
            forall|k: int| 0 <= k < j ==> bytes@[k] == data@[8 + k],
        decreases 32 - j,
    {
        bytes[j] = data[8 + j];
        j = j + 1;
    }
    assert(bytes@ =~= data@.subrange(8, 40));
    Ok(Invoice {
        invoicer: Address { bytes },
        invoice: *pk,
        epoch: read_u64_le(data, 72),
        amount_vsol: read_u64_le(data, 80),
        balance_outstanding: read_u64_le(data, 88),
    })
}

/// The raw data of an invoice account with the given fields.
pub open spec fn invoice_layout(
    tag: Seq<u8>,
    issuer: Seq<u8>,
    vote: Seq<u8>,
    epoch: u64,
    amount: u64,
    balance: u64,
) -> Seq<u8> {
    tag + issuer + vote + le_bytes(epoch as nat, 8) + le_bytes(amount as nat, 8) + le_bytes(
        balance as nat,
        8,
    )
}

proof fn lemma_u64_fits(v: u64)
    ensures
        (v as nat) < pow256(8),
{
    reveal_with_fuel(pow256, 9);
}

/// Decoding the data laid out from an issuer, a period, a billed amount and
/// an outstanding balance gives exactly those values back.
pub proof fn lemma_decode_layout(
    inv: Invoice,
    pk: Seq<u8>,
    tag: Seq<u8>,
    issuer: Seq<u8>,
    vote: Seq<u8>,
    epoch: u64,
    amount: u64,
    balance: u64,
)
    requires
        tag.len() == 8,
        issuer.len() == 32,
        vote.len() == 32,
        decodes_to(inv, pk, invoice_layout(tag, issuer, vote, epoch, amount, balance)),
    ensures
        invoice_layout(tag, issuer, vote, epoch, amount, balance).len() == INVOICE_LEN,
        inv.invoicer@ == issuer,
        inv.invoice@ == pk,
        inv.epoch == epoch,
        inv.amount_vsol == amount,
        inv.balance_outstanding == balance,
{
    let d = invoice_layout(tag, issuer, vote, epoch, amount, balance);
    lemma_le_bytes_len(epoch as nat, 8);
    lemma_le_bytes_len(amount as nat, 8);
    lemma_le_bytes_len(balance as nat, 8);
    lemma_u64_fits(epoch);
    lemma_u64_fits(amount);
    lemma_u64_fits(balance);
    lemma_le_round_trip(epoch as nat, 8);
    lemma_le_round_trip(amount as nat, 8);
    lemma_le_round_trip(balance as nat, 8);
    assert(d.subrange(8, 40) =~= issuer);
    assert(d.subrange(72, 80) =~= le_bytes(epoch as nat, 8));
    assert(d.subrange(80, 88) =~= le_bytes(amount as nat, 8));
    assert(d.subrange(88, 96) =~= le_bytes(balance as nat, 8));
}

/// The account at `i` exists and is too short to be an invoice.
pub open spec fn truncated_at(accounts: Seq<Option<Vec<u8>>>, i: int) -> bool {
    accounts[i] matches Some(d) && d@.len() < INVOICE_LEN
}

/// The account at `i` exists and records an unpaid balance.
pub open spec fn unpaid_at(accounts: Seq<Option<Vec<u8>>>, i: int) -> bool {
    accounts[i] matches Some(d) && field_u64(d@, 88) > 0
}

/// Positions among the first `n` accounts that hold an unpaid invoice, in
/// increasing order.
pub open spec fn unpaid_positions(accounts: Seq<Option<Vec<u8>>>, n: nat) -> Seq<int>
    decreases n,
{
    if n == 0 {
        Seq::empty()
    } else {
        let before = unpaid_positions(accounts, (n - 1) as nat);
        if unpaid_at(accounts, n - 1) {
            before.push(n - 1)
        } else {
            before
        }
    }
}

/// The selected positions are in range and strictly increasing, so the
/// selection keeps the order of the addresses, and a position is selected
/// exactly when its account records an unpaid balance: settled invoices and
/// missing accounts are never selected.
pub proof fn lemma_unpaid_positions(accounts: Seq<Option<Vec<u8>>>, n: nat)
    ensures
        forall|k: int|
            0 <= k < unpaid_positions(accounts, n).len() ==> 0 <= #[trigger] unpaid_positions(
                accounts,
                n,
            )[k] < n,
        forall|j: int, k: int|
            0 <= j < k < unpaid_positions(accounts, n).len() ==> unpaid_positions(accounts, n)[j]
                < unpaid_positions(accounts, n)[k],
        forall|i: int|
            0 <= i < n ==> (unpaid_at(accounts, i) <==> unpaid_positions(accounts, n).contains(i)),
    decreases n,
{
    if n > 0 {
        let m = (n - 1) as nat;
        lemma_unpaid_positions(accounts, m);
        let prev = unpaid_positions(accounts, m);
        let pos = unpaid_positions(accounts, n);
        assert forall|i: int| 0 <= i < n implies (unpaid_at(accounts, i) <==> pos.contains(i)) by {
            if unpaid_at(accounts, m as int) {
                assert(pos == prev.push(m as int));
                if i < m {
                    if prev.contains(i) {
                        let w = choose|w: int| 0 <= w < prev.len() && prev[w] == i;
                        assert(pos[w] == i);
                    }
                    if pos.contains(i) {
                        let w = choose|w: int| 0 <= w < pos.len() && pos[w] == i;
                        assert(w < prev.len());
                        assert(prev[w] == i);
                    }
                } else {
                    assert(pos[pos.len() - 1] == i);
                }
            } else {
                assert(pos == prev);
            }
        }
    }
}

/// Turns the answer of a batch fetch into the unpaid invoices, in the order
/// of the addresses: `accounts[i]` is the data held at `addresses[i]`, or
/// nothing where no account exists. Missing accounts and settled invoices
/// are dropped. A count that differs from the addresses', or an account too
/// short to decode, fails the whole selection.
pub fn select_outstanding(addresses: &Vec<Address>, accounts: &Vec<Option<Vec<u8>>>) -> (r: Result<
    Vec<Invoice>,
    SettleError,
>)
    ensures
        r == Err::<Vec<Invoice>, SettleError>(SettleError::AccountCountMismatch) <==> accounts@.len()
            != addresses@.len(),
        r == Err::<Vec<Invoice>, SettleError>(SettleError::TruncatedAccount) <==> (accounts@.len()
            == addresses@.len() && exists|i: int|
            0 <= i < accounts@.len() && truncated_at(accounts@, i)),
        r is Err ==> r == Err::<Vec<Invoice>, SettleError>(SettleError::AccountCountMismatch)
            || r == Err::<Vec<Invoice>, SettleError>(SettleError::TruncatedAccount),
        r matches Ok(v) ==> {
            let pos = unpaid_positions(accounts@, accounts@.len());
            &&& v@.len() == pos.len()
            &&& forall|k: int|
                0 <= k < v@.len() ==> decodes_to(
                    #[trigger] v@[k],
                    addresses@[pos[k]]@,
                    accounts@[pos[k]]->0@,
                )
        },
        r matches Ok(v) ==> forall|k: int| 0 <= k < v@.len() ==> #[trigger] v@[k].balance_outstanding
            > 0,
{
    if accounts.len() != addresses.len() {
        return Err(SettleError::AccountCountMismatch);
    }
    let mut out: Vec<Invoice> = Vec::new();
    let mut i: usize = 0;
    while i < accounts.len()
        invariant
            i <= accounts@.len(),
            accounts@.len() == addresses@.len(),
            forall|j: int| 0 <= j < i ==> !truncated_at(accounts@, j),
            out@.len() == unpaid_positions(accounts@, i as nat).len(),
            forall|k: int|
                0 <= k < out@.len() ==> {
                    let p = unpaid_positions(accounts@, i as nat)[k];
                    &&& decodes_to(#[trigger] out@[k], addresses@[p]@, accounts@[p]->0@)
                    &&& out@[k].balance_outstanding > 0
                },
        decreases accounts@.len() - i,
    {
        let ghost before = out@;
        match &accounts[i] {
            None => {},
            Some(data) => {
                match parse_invoice(&addresses[i], data) {
                    Err(e) => {
                        assert(truncated_at(accounts@, i as int));
                        return Err(e);
                    },
                    Ok(inv) => {
                        if inv.balance_outstanding > 0 {
                            out.push(inv);
                        }
                    },
                }
            },
        }
        let ghost pos = unpaid_positions(accounts@, (i + 1) as nat);
        proof {
            let prev = unpaid_positions(accounts@, i as nat);
            if unpaid_at(accounts@, i as int) {
                assert(pos == prev.push(i as int));
            } else {
                assert(pos == prev);
            }
            assert forall|k: int| 0 <= k < out@.len() implies {
                let p = pos[k];
                &&& decodes_to(#[trigger] out@[k], addresses@[p]@, accounts@[p]->0@)
                &&& out@[k].balance_outstanding > 0
            } by {
                if k < before.len() {
                    assert(out@[k] == before[k]);
                    assert(pos[k] == prev[k]);
                }
            }
        }
        i = i + 1;
        assert(unpaid_positions(accounts@, i as nat) == pos);
    }
    Ok(out)
}

} // verus!
