//! Controlled mint: units of a wrapped asset are issued against the record
//! that the asset's code derives, and against no other.

use vstd::prelude::*;
use crate::address::Address;
use crate::derivation::SigningProof;
use crate::error::BridgeError;
use crate::ledger::Ledger;
use crate::state::{follows, LedgerState};

verus! {

/// The accounts a mint is given.
#[derive(Clone, Copy, Debug, PartialEq, Eq)]
pub struct MintWrappedAssetInstruction {
    /// The account named as the asset's authority record.
    pub mint: Address,
    /// The receiver, whose account for the asset is credited.
    pub receiver: Address,
}

impl MintWrappedAssetInstruction {
    /// The accounts of a mint.
    pub fn new(mint: Address, receiver: Address) -> (accounts: MintWrappedAssetInstruction)
        ensures
            accounts == (MintWrappedAssetInstruction { mint, receiver }),
    {
        MintWrappedAssetInstruction { mint, receiver }
    }
}

/// What a mint asks of the ledger: to issue `amount` units of the asset of
/// the record at `mint` to `receiver`, signed for by the proof.
#[derive(Clone, Copy, Debug, PartialEq, Eq)]
pub struct MintAction {
    pub mint: Address,
    pub receiver: Address,
    pub amount: u64,
}

impl MintAction {
    /// The ledger after the action was carried out.
    pub open spec fn applied(self, s: LedgerState) -> LedgerState {
        s.credited(self.mint@, self.receiver@, self.amount as nat)
    }
}

/// What has been minted of the asset of the record at `address`; nothing to
/// say where no record exists there.
pub open spec fn supply_at(s: LedgerState, address: Seq<u8>) -> Option<nat> {
    if s.configured(address) {
        Some(s.records[address].supply)
    } else {
        None
    }
}

/// What a mint decides, given the derived address and the supply of the
/// record there, if one exists.
pub open spec fn mint_decision(
    address: Address,
    accounts: MintWrappedAssetInstruction,
    amount: u64,
    supply: Option<nat>,
) -> Result<MintAction, BridgeError> {
    match supply {
        None => Err(BridgeError::AuthorityNotFound),
        Some(minted) => if accounts.mint@ != address@ {
            Err(BridgeError::DerivationMismatch)
        } else if minted + amount > u64::MAX {
            Err(BridgeError::Overflow)
        } else {
            Ok(MintAction { mint: address, receiver: accounts.receiver, amount })
        },
    }
}

/// The supply as a mathematical value.
pub open spec fn supply_view(supply: Option<u64>) -> Option<nat> {
    match supply {
        Some(minted) => Some(minted as nat),
        None => None,
    }
}

/// What a mint does to the ledger, given what the code derives. A record
/// must exist at the derived address, the named account must be that
/// address, and the supply must have room for the amount; then the
/// receiver's account is credited, and created if it was absent.
pub open spec fn controlled_mint(
    s: LedgerState,
    derived: Option<(Seq<u8>, u8)>,
    accounts: MintWrappedAssetInstruction,
    amount: u64,
) -> Result<LedgerState, BridgeError> {
    match derived {
        None => Err(BridgeError::DerivationExhausted),
        Some((address, bump)) => if !s.configured(address) {
            Err(BridgeError::AuthorityNotFound)
        } else if accounts.mint@ != address {
            Err(BridgeError::DerivationMismatch)
        } else {
            s.mint_to(address, accounts.receiver@, amount as nat)
        },
    }
}

/// Carrying out what a mint decides is what a mint does to the ledger.
pub proof fn lemma_mint_decision_applies(
    s: LedgerState,
    address: Address,
    bump: u8,
    accounts: MintWrappedAssetInstruction,
    amount: u64,
)
    ensures
        controlled_mint(s, Some((address@, bump)), accounts, amount) == match mint_decision(
            address,
            accounts,
            amount,
            supply_at(s, address@),
        ) {
            Ok(action) => Ok::<LedgerState, BridgeError>(action.applied(s)),
            Err(e) => Err(e),
        },
{
}

/// Decides a mint from what was observed of the ledger: the supply of the
/// record at the address that `proof` signs for, if a record exists there.
pub fn decide_mint(
    proof: &SigningProof,
    accounts: &MintWrappedAssetInstruction,
    amount: u64,
    supply: Option<u64>,
) -> (r: Result<MintAction, BridgeError>)
    ensures
        r == mint_decision(proof.spec_address(), *accounts, amount, supply_view(supply)),
{
    let address = proof.address();
    match supply {
        None => Err(BridgeError::AuthorityNotFound),
        Some(minted) => {
            if accounts.mint != address {
                Err(BridgeError::DerivationMismatch)
            } else if amount > u64::MAX - minted {
                Err(BridgeError::Overflow)
            } else {
                Ok(MintAction { mint: address, receiver: accounts.receiver, amount })
            }
        },
    }
}

/// Issues `amount` units of the asset that `proof` signs for to the
/// receiver, signing with the proof in place of a private key.
pub fn mint_authorized(
    ledger: &mut Ledger,
    proof: &SigningProof,
    accounts: &MintWrappedAssetInstruction,
    amount: u64,
) -> (r: Result<(), BridgeError>)
    ensures
        follows(
            old(ledger)@,
            final(ledger)@,
            r,
            controlled_mint(old(ledger)@, proof.outcome(), *accounts, amount),
        ),
        final(ledger)@.wf(),
{
    let address = proof.address();
    let supply = match ledger.record(&address) {
        Some(record) => Some(record.supply),
        None => None,
    };
    proof {
        lemma_mint_decision_applies(
            ledger@,
            proof.spec_address(),
            proof.spec_bump(),
            *accounts,
            amount,
        );
    }
    match decide_mint(proof, accounts, amount, supply) {
        Ok(action) => ledger.mint_to(proof, &action.receiver, action.amount),
        Err(e) => Err(e),
    }
}

} // verus!
