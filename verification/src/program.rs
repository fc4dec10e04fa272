//! The entry points of the bridge: each takes the raw asset code, derives
//! the authority address from it and acts on the ledger.

use vstd::prelude::*;
use crate::address::Address;
use crate::code::ExternalAssetCode;
use crate::derivation::Namespace;
use crate::error::BridgeError;
use crate::instructions::mint_wrapped_asset::{
    controlled_mint, mint_authorized, MintWrappedAssetInstruction,
};
use crate::instructions::setup_mint_once::{
    authority_setup, setup_authority, SetupMintOnceInstruction,
};
use crate::ledger::Ledger;
use crate::state::{follows, LedgerState};

verus! {

/// What [`setup_mint`] does to the ledger.
pub open spec fn setup_mint_outcome(
    s: LedgerState,
    ns: Namespace,
    accounts: SetupMintOnceInstruction,
    code: Seq<u8>,
    authority: Seq<u8>,
) -> Result<LedgerState, BridgeError> {
    if code.len() != 12 {
        Err(BridgeError::InvalidCodeLength)
    } else {
        authority_setup(s, ns.derived(code), accounts, authority)
    }
}

/// What [`mint_wrapped_asset`] does to the ledger.
pub open spec fn mint_wrapped_asset_outcome(
    s: LedgerState,
    ns: Namespace,
    accounts: MintWrappedAssetInstruction,
    code: Seq<u8>,
    amount: u64,
) -> Result<LedgerState, BridgeError> {
    if code.len() != 12 {
        Err(BridgeError::InvalidCodeLength)
    } else {
        controlled_mint(s, ns.derived(code), accounts, amount)
    }
}

/// Sets up the authority record of the asset `code` under the control of
/// `controlling_authority`. The first setup of a code creates the record;
/// every later one succeeds and changes nothing. A setup that fails changes
/// nothing either.
pub fn setup_mint(
    ledger: &mut Ledger,
    ns: &Namespace,
    accounts: &SetupMintOnceInstruction,
    code: &[u8],
    controlling_authority: &Address,
) -> (r: Result<(), BridgeError>)
    ensures
        follows(
            old(ledger)@,
            final(ledger)@,
            r,
            setup_mint_outcome(old(ledger)@, *ns, *accounts, code@, controlling_authority@),
        ),
        final(ledger)@.wf(),
{
    ledger.well_formed();
    let code = match ExternalAssetCode::from_slice(code) {
        Ok(code) => code,
        Err(e) => {
            return Err(e);
        },
    };
    match crate::derivation::derive(ns, &code) {
        Ok(proof) => setup_authority(ledger, &proof, accounts, controlling_authority),
        Err(e) => Err(e),
    }
}

/// Mints `amount` units of the asset `code` to the receiver. Anyone may ask
/// for any code; the mint goes through only against the record that the
/// code derives. A mint that fails changes nothing.
pub fn mint_wrapped_asset(
    ledger: &mut Ledger,
    ns: &Namespace,
    accounts: &MintWrappedAssetInstruction,
    code: &[u8],
    amount: u64,
) -> (r: Result<(), BridgeError>)
    ensures
        follows(
            old(ledger)@,
            final(ledger)@,
            r,
            mint_wrapped_asset_outcome(old(ledger)@, *ns, *accounts, code@, amount),
        ),
        final(ledger)@.wf(),
{
    ledger.well_formed();
    let code = match ExternalAssetCode::from_slice(code) {
        Ok(code) => code,
        Err(e) => {
            return Err(e);
        },
    };
    match crate::derivation::derive(ns, &code) {
        Ok(proof) => mint_authorized(ledger, &proof, accounts, amount),
        Err(e) => Err(e),
    }
}

} // verus!
