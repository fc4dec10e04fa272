//! The ledger as a mathematical value: which authority records exist, and
//! what each token account holds.

use vstd::prelude::*;
use crate::error::BridgeError;

verus! {

/// The decimal precision of every wrapped asset, fixed when its authority
/// record is created.
pub const WRAPPED_ASSET_DECIMALS: u8 = 7;

/// What an authority record holds besides its address.
pub struct RecordState {
    /// The decimal precision of the asset.
    pub decimals: u8,
    /// The address of the M-of-N group that controls the record.
    pub authority: Seq<u8>,
    /// The bump under which the record's address was derived.
    pub bump: u8,
    /// The units of the asset minted so far.
    pub supply: nat,
}

/// The state of the ledger: the authority records by address, and the
/// balances of the token accounts by record address and owner.
pub struct LedgerState {
    pub records: Map<Seq<u8>, RecordState>,
    pub balances: Map<(Seq<u8>, Seq<u8>), nat>,
}

impl LedgerState {
    /// The ledger with no record and no account.
    pub open spec fn empty() -> LedgerState {
        LedgerState { records: Map::empty(), balances: Map::empty() }
    }

    /// An authority record exists at `address`.
    pub open spec fn configured(self, address: Seq<u8>) -> bool {
        self.records.contains_key(address)
    }

    /// The owner has a token account for the asset of the record at `mint`.
    pub open spec fn has_account(self, mint: Seq<u8>, owner: Seq<u8>) -> bool {
        self.balances.contains_key((mint, owner))
    }

    /// What the owner holds of the asset of the record at `mint`; nothing
    /// where the owner has no account for it.
    pub open spec fn balance(self, mint: Seq<u8>, owner: Seq<u8>) -> nat {
        if self.has_account(mint, owner) {
            self.balances[(mint, owner)]
        } else {
            0
        }
    }

    /// Every account belongs to an existing record and holds no more than
    /// was minted of its asset, and every supply fits in 64 bits.
    pub open spec fn wf(self) -> bool {
        &&& forall|m: Seq<u8>| #[trigger]
            self.records.contains_key(m) ==> self.records[m].supply <= u64::MAX
        &&& forall|m: Seq<u8>, o: Seq<u8>| #[trigger]
            self.balances.contains_key((m, o)) ==> self.records.contains_key(m)
                && self.balances[(m, o)] <= self.records[m].supply
    }

    /// The record that a first setup creates: nothing minted yet, the fixed
    /// precision, and the given controlling authority.
    pub open spec fn fresh_record(authority: Seq<u8>, bump: u8) -> RecordState {
        RecordState { decimals: WRAPPED_ASSET_DECIMALS, authority, bump, supply: 0 }
    }

    /// The ledger with a fresh record at `address`.
    pub open spec fn with_record(self, address: Seq<u8>, authority: Seq<u8>, bump: u8)
        -> LedgerState {
        LedgerState {
            records: self.records.insert(address, Self::fresh_record(authority, bump)),
            balances: self.balances,
        }
    }

    /// The ledger after `amount` units of the asset of the record at `mint`
    /// were issued to `owner`: the supply and the owner's balance grow by
    /// `amount`, the owner's account is created if it was absent, and
    /// nothing else changes.
    pub open spec fn credited(self, mint: Seq<u8>, owner: Seq<u8>, amount: nat) -> LedgerState {
        let record = self.records[mint];
        LedgerState {
            records: self.records.insert(
                mint,
                RecordState { supply: record.supply + amount, ..record },
            ),
            balances: self.balances.insert((mint, owner), self.balance(mint, owner) + amount),
        }
    }

    /// What the ledger does when asked to create a record at `address`: an
    /// existing record is left as it is, whatever authority is offered.
    pub open spec fn init_record(self, address: Seq<u8>, authority: Seq<u8>, bump: u8)
        -> LedgerState {
        if self.configured(address) {
            self
        } else {
            self.with_record(address, authority, bump)
        }
    }

    /// What the ledger does when asked to issue `amount` units of the asset
    /// of the record at `mint` to `owner`.
    pub open spec fn mint_to(self, mint: Seq<u8>, owner: Seq<u8>, amount: nat) -> Result<
        LedgerState,
        BridgeError,
    > {
        if !self.configured(mint) {
            Err(BridgeError::AuthorityNotFound)
        } else if self.records[mint].supply + amount > u64::MAX {
            Err(BridgeError::Overflow)
        } else {
            Ok(self.credited(mint, owner, amount))
        }
    }
}

/// An operation that ended in `r` took the ledger from `before` to `after`
/// as `want` says: to the new state on success, and nowhere on failure.
pub open spec fn follows(
    before: LedgerState,
    after: LedgerState,
    r: Result<(), BridgeError>,
    want: Result<LedgerState, BridgeError>,
) -> bool {
    match want {
        Ok(s) => r is Ok && after == s,
        Err(e) => r == Err::<(), BridgeError>(e) && after == before,
    }
}

} // verus!
