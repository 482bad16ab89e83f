//! Account addresses and the program-derived addresses of the invoicing
//! program.

use crate::codec::{le_bytes, u64_le_bytes};
use crate::config::Deployment;
use crate::error::SettleError;
use vstd::prelude::*;
use vstd::slice::slice_to_vec;

verus! {

/// A 32-byte account address.
#[derive(Clone, Copy, Debug, PartialEq, Eq)]
pub struct Address {
    pub bytes: [u8; 32],
}

impl View for Address {
    type V = Seq<u8>;

    open spec fn view(&self) -> Seq<u8> {
        self.bytes@
    }
}

/// `r` holds the address `expected` names, and nothing when it names none.
pub open spec fn address_matches(r: Option<Address>, expected: Option<Seq<u8>>) -> bool {
    match expected {
        Some(a) => r matches Some(x) && x@ == a,
        None => r is None,
    }
}

/// What `Pubkey::try_find_program_address` returns for a list of seeds and a
/// program id: the derived address's bytes, or nothing when no bump seed gives
/// an address off the curve.
pub uninterp spec fn program_address_of(seeds: Seq<Seq<u8>>, program: Seq<u8>) -> Option<Seq<u8>>;

/// Relies on `solana_pubkey::Pubkey::try_find_program_address`: a pure
/// function of the seeds and the program id.
#[verifier::external_body]
fn try_find_program_address(seeds: &Vec<Vec<u8>>, program: &Address) -> (r: Option<Address>)
    requires
        seeds@.len() < 16,
        forall|i: int| 0 <= i < seeds@.len() ==> (#[trigger] seeds@[i])@.len() <= 32,
    ensures
        address_matches(r, program_address_of(seeds@.map_values(|s: Vec<u8>| s@), program@)),
{
    let parts: Vec<&[u8]> = seeds.iter().map(|s| s.as_slice()).collect();
    let found = solana_pubkey::Pubkey::try_find_program_address(&parts, &program.bytes.into());
    found.map(|(pk, _)| Address { bytes: pk.to_bytes() })
}

/// The seed tag of the issuer-registry address, the bytes of "invoicer".
pub open spec fn invoicer_tag() -> Seq<u8> {
    seq![105u8, 110, 118, 111, 105, 99, 101, 114]
}

/// The seed tag of an invoice address, the bytes of "invoice".
pub open spec fn invoice_tag() -> Seq<u8> {
    seq![105u8, 110, 118, 111, 105, 99, 101]
}

/// Seeds of the issuer-registry address.
pub open spec fn invoicer_seeds(base: Seq<u8>) -> Seq<Seq<u8>> {
    seq![invoicer_tag(), base]
}

/// Seeds of the address of the invoice of `invoicer` against `vote` for
/// period `epoch`.
pub open spec fn invoice_seeds(invoicer: Seq<u8>, vote: Seq<u8>, epoch: u64) -> Seq<Seq<u8>> {
    seq![invoice_tag(), invoicer, vote, le_bytes(epoch as nat, 8)]
}

/// The address of the issuer registry of a deployment.
pub fn find_invoicer_address(cfg: &Deployment) -> (r: Option<Address>)
    ensures
        address_matches(r, program_address_of(invoicer_seeds(cfg.invoicer_base@), cfg.invoicer_program@)),
{
    let tag: Vec<u8> = vec![105u8, 110, 118, 111, 105, 99, 101, 114];
    let seeds: Vec<Vec<u8>> = vec![tag, slice_to_vec(cfg.invoicer_base.bytes.as_slice())];
    assert(seeds@.map_values(|s: Vec<u8>| s@) =~= invoicer_seeds(cfg.invoicer_base@));
    assert(forall|i: int| 0 <= i < 2 ==> (#[trigger] seeds@[i])@.len() <= 32) by {
        assert(seeds@[0]@.len() == 8);
    }
    try_find_program_address(&seeds, &cfg.invoicer_program)
}

/// The address of the invoice of `invoicer` against the validator identity
/// `vote` for period `epoch`.
pub fn find_invoice_address(invoicer: &Address, vote: &Address, epoch: u64, cfg: &Deployment) -> (r:
    Option<Address>)
    ensures
        address_matches(r, program_address_of(invoice_seeds(invoicer@, vote@, epoch), cfg.invoicer_program@)),
{
    let tag: Vec<u8> = vec![105u8, 110, 118, 111, 105, 99, 101];
    let seeds: Vec<Vec<u8>> = vec![
        tag,
        slice_to_vec(invoicer.bytes.as_slice()),
        slice_to_vec(vote.bytes.as_slice()),
        u64_le_bytes(epoch),
    ];
    assert(seeds@.map_values(|s: Vec<u8>| s@) =~= invoice_seeds(invoicer@, vote@, epoch));
    assert(forall|i: int| 0 <= i < 4 ==> (#[trigger] seeds@[i])@.len() <= 32) by {
        assert(seeds@[0]@.len() == 7);
    }
    try_find_program_address(&seeds, &cfg.invoicer_program)
}

/// First period of the lookback window that ends before `current`: the
/// window holds the `lookback` most recent periods, or every period from
/// zero when fewer have passed.
pub open spec fn window_start(current: u64, lookback: u64) -> u64 {
    if current >= lookback {
        (current - lookback) as u64
    } else {
        0
    }
}

/// Every period of the window before `current` has an invoice address.
pub open spec fn window_derivable(invoicer: Seq<u8>, vote: Seq<u8>, current: u64, cfg: Deployment) -> bool {
    forall|e: u64|
        window_start(current, cfg.lookback) <= e < current ==> (#[trigger] program_address_of(
            invoice_seeds(invoicer, vote, e),
            cfg.invoicer_program@,
        )) is Some
}

/// The invoice addresses of `invoicer` against `vote` for the periods of the
/// lookback window before `current_epoch`, oldest first.
pub fn invoice_addresses(invoicer: &Address, vote: &Address, current_epoch: u64, cfg: &Deployment) -> (r:
    Result<Vec<Address>, SettleError>)
    ensures
        r is Ok <==> window_derivable(invoicer@, vote@, current_epoch, *cfg),
        r is Err ==> r == Err::<Vec<Address>, SettleError>(SettleError::NoProgramAddress),
        r matches Ok(v) ==> {
            let start = window_start(current_epoch, cfg.lookback);
            &&& v@.len() == current_epoch - start
            &&& forall|k: int|
                0 <= k < v@.len() ==> program_address_of(
                    invoice_seeds(invoicer@, vote@, (start + k) as u64),
                    cfg.invoicer_program@,
                ) == Some((#[trigger] v@[k])@)
        },
{
    let start: u64 = if current_epoch >= cfg.lookback {
        current_epoch - cfg.lookback
    } else {
        0
    };
    let mut out: Vec<Address> = Vec::new();
    let mut e: u64 = start;
    while e < current_epoch
        invariant
            start == window_start(current_epoch, cfg.lookback),
            start <= e <= current_epoch,
            out@.len() == e - start,
            forall|k: int|
                0 <= k < out@.len() ==> program_address_of(
                    invoice_seeds(invoicer@, vote@, (start + k) as u64),
                    cfg.invoicer_program@,
                ) == Some((#[trigger] out@[k])@),
            forall|f: u64|
                start <= f < e ==> (#[trigger] program_address_of(
                    invoice_seeds(invoicer@, vote@, f),
                    cfg.invoicer_program@,
                )) is Some,
        decreases current_epoch - e,
    {
        match find_invoice_address(invoicer, vote, e, cfg) {
            None => {
                return Err(SettleError::NoProgramAddress);
            },
            Some(a) => {
                out.push(a);
            },
        }
        proof {
            assert(((start + (out@.len() - 1)) as u64) == e);
        }
        e = e + 1;
    }
    Ok(out)
}

} // verus!
