//! Authority setup: the record of an asset is created once, on first use.

use vstd::prelude::*;
use crate::address::Address;
use crate::derivation::SigningProof;
use crate::error::BridgeError;
use crate::ledger::{AuthorityRecord, Ledger};
use crate::state::{follows, LedgerState, WRAPPED_ASSET_DECIMALS};

verus! {

/// The accounts a setup is given.
#[derive(Clone, Copy, Debug, PartialEq, Eq)]
pub struct SetupMintOnceInstruction {
    /// The account named as the asset's authority record.
    pub mint: Address,
    /// The signer that pays for the record.
    pub payer: Address,
    /// What the payer holds.
    pub payer_funds: u64,
    /// What the creation of a record costs.
    pub rent: u64,
}

impl SetupMintOnceInstruction {
    /// The accounts of a setup.
    pub fn new(mint: Address, payer: Address, payer_funds: u64, rent: u64) -> (accounts:
        SetupMintOnceInstruction)
        ensures
            accounts == (SetupMintOnceInstruction { mint, payer, payer_funds, rent }),
    {
        SetupMintOnceInstruction { mint, payer, payer_funds, rent }
    }

    /// The payer can fund the creation of a record.
    pub open spec fn funded(self) -> bool {
        self.payer_funds >= self.rent
    }
}

/// What a setup asks of the ledger.
#[derive(Clone, Copy, Debug, PartialEq, Eq)]
pub enum SetupAction {
    /// The record exists: leave the ledger as it is.
    Keep,
    /// Create this record, funded by the payer.
    Create(AuthorityRecord),
}

impl SetupAction {
    /// The ledger after the action was carried out.
    pub open spec fn applied(self, s: LedgerState) -> LedgerState {
        match self {
            SetupAction::Keep => s,
            SetupAction::Create(record) => s.with_record(
                record.address@,
                record.authority@,
                record.bump,
            ),
        }
    }
}

/// The record that a first setup creates at `address`.
pub open spec fn fresh(address: Address, authority: Address, bump: u8) -> AuthorityRecord {
    AuthorityRecord { address, decimals: WRAPPED_ASSET_DECIMALS, authority, bump, supply: 0 }
}

/// What a setup decides, given the derived address and bump and whether a
/// record exists at that address.
pub open spec fn setup_decision(
    address: Address,
    bump: u8,
    accounts: SetupMintOnceInstruction,
    authority: Address,
    configured: bool,
) -> Result<SetupAction, BridgeError> {
    if accounts.mint@ != address@ {
        Err(BridgeError::DerivationMismatch)
    } else if configured {
        Ok(SetupAction::Keep)
    } else if !accounts.funded() {
        Err(BridgeError::InsufficientFunds)
    } else {
        Ok(SetupAction::Create(fresh(address, authority, bump)))
    }
}

/// What a setup does to the ledger, given what the code derives. The named
/// account must be the derived address. Where a record exists there the setup
/// succeeds and changes nothing: the authority offered is not looked at, so
/// control stays with the authority of the call that created the record.
/// Otherwise the payer must be able to fund the record, which is then created
/// with the authority offered.
pub open spec fn authority_setup(
    s: LedgerState,
    derived: Option<(Seq<u8>, u8)>,
    accounts: SetupMintOnceInstruction,
    authority: Seq<u8>,
) -> Result<LedgerState, BridgeError> {
    match derived {
        None => Err(BridgeError::DerivationExhausted),
        Some((address, bump)) => if accounts.mint@ != address {
            Err(BridgeError::DerivationMismatch)
        } else if s.configured(address) {
            Ok(s)
        } else if !accounts.funded() {
            Err(BridgeError::InsufficientFunds)
        } else {
            Ok(s.with_record(address, authority, bump))
        },
    }
}

/// Carrying out what a setup decides is what a setup does to the ledger.
pub proof fn lemma_setup_decision_applies(
    s: LedgerState,
    address: Address,
    bump: u8,
    accounts: SetupMintOnceInstruction,
    authority: Address,
)
    ensures
        authority_setup(s, Some((address@, bump)), accounts, authority@) == match setup_decision(
            address,
            bump,
            accounts,
            authority,
            s.configured(address@),
        ) {
            Ok(action) => Ok::<LedgerState, BridgeError>(action.applied(s)),
            Err(e) => Err(e),
        },
{
}

/// Decides a setup from what was observed of the ledger: whether a record
/// exists at the address that `proof` signs for.
pub fn decide_setup(
    proof: &SigningProof,
    accounts: &SetupMintOnceInstruction,
    authority: &Address,
    configured: bool,
) -> (r: Result<SetupAction, BridgeError>)
    ensures
        r == setup_decision(
            proof.spec_address(),
            proof.spec_bump(),
            *accounts,
            *authority,
            configured,
        ),
{
    let address = proof.address();
    if accounts.mint != address {
        Err(BridgeError::DerivationMismatch)
    } else if configured {
        Ok(SetupAction::Keep)
    } else if accounts.payer_funds < accounts.rent {
        Err(BridgeError::InsufficientFunds)
    } else {
        Ok(
            SetupAction::Create(
                AuthorityRecord {
                    address,
                    decimals: WRAPPED_ASSET_DECIMALS,
                    authority: *authority,
                    bump: proof.bump(),
                    supply: 0,
                },
            ),
        )
    }
}

/// Sets up the authority record that `proof` signs for, under the control of
/// `authority`, unless the record exists.
pub fn setup_authority(
    ledger: &mut Ledger,
    proof: &SigningProof,
    accounts: &SetupMintOnceInstruction,
    authority: &Address,
) -> (r: Result<(), BridgeError>)
    ensures
        follows(
            old(ledger)@,
            final(ledger)@,
            r,
            authority_setup(old(ledger)@, proof.outcome(), *accounts, authority@),
        ),
        final(ledger)@.wf(),
{
    let address = proof.address();
    let configured = ledger.record(&address).is_some();
    proof {
        lemma_setup_decision_applies(
            ledger@,
            proof.spec_address(),
            proof.spec_bump(),
            *accounts,
            *authority,
        );
    }
    match decide_setup(proof, accounts, authority, configured) {
        Ok(SetupAction::Keep) => Ok(()),
        Ok(SetupAction::Create(_)) => {
            ledger.init_record(proof, authority);
            Ok(())
        },
        Err(e) => Err(e),
    }
}

} // verus!
