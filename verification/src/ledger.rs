//! The token ledger that the bridge mints against: authority records and
//! token accounts, held as plain values.

use vstd::prelude::*;
use crate::address::Address;
use crate::derivation::SigningProof;
use crate::error::BridgeError;
use crate::state::{follows, LedgerState, RecordState, WRAPPED_ASSET_DECIMALS};
use crate::table::{
    distinct_keys, lacks_key, lemma_table_at, lemma_table_lacks, lemma_table_push,
    lemma_table_update, slot, table,
};

verus! {

/// The issuing authority of one wrapped asset.
#[derive(Clone, Copy, Debug, PartialEq, Eq)]
pub struct AuthorityRecord {
    /// The address derived from the asset's code.
    pub address: Address,
    /// The decimal precision of the asset.
    pub decimals: u8,
    /// The M-of-N group that controls the record.
    pub authority: Address,
    /// The bump under which the address was derived.
    pub bump: u8,
    /// The units minted so far.
    pub supply: u64,
}

impl AuthorityRecord {
    /// What the record holds, as a mathematical value.
    pub open spec fn state(self) -> RecordState {
        RecordState {
            decimals: self.decimals,
            authority: self.authority@,
            bump: self.bump,
            supply: self.supply as nat,
        }
    }
}

/// A receiver's account for one wrapped asset.
#[derive(Clone, Copy, Debug, PartialEq, Eq)]
pub struct TokenAccount {
    /// The address of the asset's authority record.
    pub mint: Address,
    /// The receiver that owns the account.
    pub owner: Address,
    /// The units the account holds.
    pub amount: u64,
}

/// A record is found by its address.
pub open spec fn record_key() -> spec_fn(AuthorityRecord) -> Seq<u8> {
    |r: AuthorityRecord| r.address@
}

/// What the state holds of a record.
pub open spec fn record_val() -> spec_fn(AuthorityRecord) -> RecordState {
    |r: AuthorityRecord| r.state()
}

/// An account is found by the record of its asset and its owner.
pub open spec fn account_key() -> spec_fn(TokenAccount) -> (Seq<u8>, Seq<u8>) {
    |a: TokenAccount| (a.mint@, a.owner@)
}

/// What the state holds of an account: its balance.
pub open spec fn account_val() -> spec_fn(TokenAccount) -> nat {
    |a: TokenAccount| a.amount as nat
}

/// The account belongs to one of the records and holds no more than was
/// minted of that record's asset.
pub open spec fn backed(records: Seq<AuthorityRecord>, account: TokenAccount) -> bool {
    exists|k: int|
        0 <= k < records.len() && (#[trigger] records[k]).address@ == account.mint@
            && account.amount <= records[k].supply
}

/// What the ledger keeps true of its records and accounts.
pub open spec fn consistent(records: Seq<AuthorityRecord>, accounts: Seq<TokenAccount>) -> bool {
    &&& distinct_keys(records, record_key())
    &&& distinct_keys(accounts, account_key())
    &&& forall|j: int| 0 <= j < accounts.len() ==> backed(records, #[trigger] accounts[j])
}

/// The state that records and accounts stand for.
pub open spec fn state_of(records: Seq<AuthorityRecord>, accounts: Seq<TokenAccount>)
    -> LedgerState {
    LedgerState {
        records: table(records, record_key(), record_val()),
        balances: table(accounts, account_key(), account_val()),
    }
}

/// A consistent ledger stands for a well-formed state.
pub proof fn lemma_consistent_wf(records: Seq<AuthorityRecord>, accounts: Seq<TokenAccount>)
    requires
        consistent(records, accounts),
    ensures
        state_of(records, accounts).wf(),
{
    let s = state_of(records, accounts);
    assert forall|m: Seq<u8>| #[trigger] s.records.contains_key(m) implies s.records[m].supply
        <= u64::MAX by {
        let k = slot(records, record_key(), m);
        assert(record_key()(records[k]) == m);
        lemma_table_at(records, record_key(), record_val(), k);
    }
    assert forall|m: Seq<u8>, o: Seq<u8>| #[trigger]
        s.balances.contains_key((m, o)) implies s.records.contains_key(m) && s.balances[(m, o)]
        <= s.records[m].supply by {
        let j = slot(accounts, account_key(), (m, o));
        assert(account_key()(accounts[j]) == (m, o));
        lemma_table_at(accounts, account_key(), account_val(), j);
        assert(backed(records, accounts[j]));
        let k = choose|k: int|
            0 <= k < records.len() && (#[trigger] records[k]).address@ == accounts[j].mint@
                && accounts[j].amount <= records[k].supply;
        lemma_table_at(records, record_key(), record_val(), k);
    }
}

/// A new record at an unused address keeps the ledger consistent.
pub proof fn lemma_consistent_record(
    records: Seq<AuthorityRecord>,
    accounts: Seq<TokenAccount>,
    record: AuthorityRecord,
)
    requires
        consistent(records, accounts),
        lacks_key(records, record_key(), record.address@),
    ensures
        consistent(records.push(record), accounts),
{
    lemma_table_push(records, record_key(), record_val(), record);
    let grown = records.push(record);
    assert forall|j: int| 0 <= j < accounts.len() implies backed(
        grown,
        #[trigger] accounts[j],
    ) by {
        assert(backed(records, accounts[j]));
        let k = choose|k: int|
            0 <= k < records.len() && (#[trigger] records[k]).address@ == accounts[j].mint@
                && accounts[j].amount <= records[k].supply;
        assert(grown[k] == records[k]);
    }
}

/// A supply that grows keeps the ledger consistent.
pub proof fn lemma_consistent_supply(
    records: Seq<AuthorityRecord>,
    accounts: Seq<TokenAccount>,
    i: int,
    record: AuthorityRecord,
)
    requires
        consistent(records, accounts),
        0 <= i < records.len(),
        record.address == records[i].address,
        record.supply >= records[i].supply,
    ensures
        consistent(records.update(i, record), accounts),
{
    lemma_table_update(records, record_key(), record_val(), i, record);
    let changed = records.update(i, record);
    assert forall|j: int| 0 <= j < accounts.len() implies backed(
        changed,
        #[trigger] accounts[j],
    ) by {
        assert(backed(records, accounts[j]));
        let k = choose|k: int|
            0 <= k < records.len() && (#[trigger] records[k]).address@ == accounts[j].mint@
                && accounts[j].amount <= records[k].supply;
        assert(changed[k].address@ == records[k].address@);
        assert(changed[k].supply >= records[k].supply);
    }
}

/// An account may change what it holds, and a new account may be opened,
/// as long as a record backs it.
pub proof fn lemma_consistent_account(
    records: Seq<AuthorityRecord>,
    accounts: Seq<TokenAccount>,
    at: Option<int>,
    account: TokenAccount,
)
    requires
        consistent(records, accounts),
        backed(records, account),
        match at {
            Some(j) => 0 <= j < accounts.len() && account_key()(accounts[j]) == account_key()(
                account,
            ),
            None => lacks_key(accounts, account_key(), account_key()(account)),
        },
    ensures
        match at {
            Some(j) => consistent(records, accounts.update(j, account)),
            None => consistent(records, accounts.push(account)),
        },
{
    match at {
        Some(j) => {
            lemma_table_update(accounts, account_key(), account_val(), j, account);
            let changed = accounts.update(j, account);
            assert forall|k: int| 0 <= k < changed.len() implies backed(
                records,
                #[trigger] changed[k],
            ) by {
                if k != j {
                    assert(backed(records, accounts[k]));
                }
            }
        },
        None => {
            lemma_table_push(accounts, account_key(), account_val(), account);
            let grown = accounts.push(account);
            assert forall|k: int| 0 <= k < grown.len() implies backed(
                records,
                #[trigger] grown[k],
            ) by {
                if k < accounts.len() {
                    assert(backed(records, accounts[k]));
                }
            }
        },
    }
}

/// The ledger: every authority record and every token account.
#[derive(Debug)]
pub struct Ledger {
    records: Vec<AuthorityRecord>,
    accounts: Vec<TokenAccount>,
}

impl View for Ledger {
    type V = LedgerState;

    closed spec fn view(&self) -> LedgerState {
        state_of(self.records@, self.accounts@)
    }
}

impl Ledger {
    #[verifier::type_invariant]
    closed spec fn inv(&self) -> bool {
        consistent(self.records@, self.accounts@)
    }

    /// The ledger with no record and no account.
    pub fn new() -> (ledger: Ledger)
        ensures
            ledger@ == LedgerState::empty(),
            ledger@.wf(),
    {
        let ledger = Ledger { records: Vec::new(), accounts: Vec::new() };
        proof {
            assert(ledger@.records =~= Map::empty());
            assert(ledger@.balances =~= Map::empty());
            lemma_consistent_wf(ledger.records@, ledger.accounts@);
        }
        ledger
    }

    /// States what holds of every ledger: it stands for a well-formed state.
    /// There is nothing to compute.
    pub fn well_formed(&self)
        ensures
            self@.wf(),
    {
        proof {
            use_type_invariant(self);
            lemma_consistent_wf(self.records@, self.accounts@);
        }
    }

    /// Moves the records and accounts out, leaving the ledger empty.
    fn take(&mut self) -> (parts: (Vec<AuthorityRecord>, Vec<TokenAccount>))
        ensures
            parts.0@ == old(self).records@,
            parts.1@ == old(self).accounts@,
            consistent(parts.0@, parts.1@),
    {
        proof {
            use_type_invariant(&*self);
        }
        let mut accounts: Vec<TokenAccount> = Vec::new();
        let mut records: Vec<AuthorityRecord> = Vec::new();
        core::mem::swap(&mut self.accounts, &mut accounts);
        core::mem::swap(&mut self.records, &mut records);
        (records, accounts)
    }

    /// The position of the record at `address`, if there is one.
    fn find_record(&self, address: &Address) -> (at: Option<usize>)
        ensures
            match at {
                Some(i) => i < self.records@.len() && self.records@[i as int].address@
                    == address@,
                None => lacks_key(self.records@, record_key(), address@),
            },
    {
        let mut i: usize = 0;
        while i < self.records.len()
            invariant
                i <= self.records@.len(),
                forall|j: int| 0 <= j < i ==> record_key()(#[trigger] self.records@[j]) != address@,
            decreases self.records@.len() - i,
        {
            if self.records[i].address == *address {
                return Some(i);
            }
            i += 1;
        }
        None
    }

    /// The position of the owner's account for the asset at `mint`, if there
    /// is one.
    fn find_account(&self, mint: &Address, owner: &Address) -> (at: Option<usize>)
        ensures
            match at {
                Some(j) => j < self.accounts@.len() && self.accounts@[j as int].mint@ == mint@
                    && self.accounts@[j as int].owner@ == owner@,
                None => lacks_key(self.accounts@, account_key(), (mint@, owner@)),
            },
    {
        let mut j: usize = 0;
        while j < self.accounts.len()
            invariant
                j <= self.accounts@.len(),
                forall|k: int|
                    0 <= k < j ==> account_key()(#[trigger] self.accounts@[k]) != (mint@, owner@),
            decreases self.accounts@.len() - j,
        {
            if self.accounts[j].mint == *mint && self.accounts[j].owner == *owner {
                return Some(j);
            }
            j += 1;
        }
        None
    }

    /// The authority record at `address`: present exactly when the address
    /// is configured, and then with what the state holds there.
    pub fn record(&self, address: &Address) -> (r: Option<AuthorityRecord>)
        ensures
            self@.wf(),
            r is Some <==> self@.configured(address@),
            r matches Some(record) ==> record.address == *address && record.state()
                == self@.records[address@],
    {
        proof {
            use_type_invariant(self);
            lemma_consistent_wf(self.records@, self.accounts@);
        }
        match self.find_record(address) {
            Some(i) => {
                proof {
                    lemma_table_at(self.records@, record_key(), record_val(), i as int);
                    Address::lemma_view_injective(self.records@[i as int].address, *address);
                }
                Some(self.records[i])
            },
            None => {
                proof {
                    lemma_table_lacks(self.records@, record_key(), record_val(), address@);
                }
                None
            },
        }
    }

    /// Whether the owner has an account for the asset at `mint`.
    pub fn has_account(&self, mint: &Address, owner: &Address) -> (r: bool)
        ensures
            r == self@.has_account(mint@, owner@),
    {
        proof {
            use_type_invariant(self);
        }
        match self.find_account(mint, owner) {
            Some(j) => {
                proof {
                    lemma_table_at(self.accounts@, account_key(), account_val(), j as int);
                }
                true
            },
            None => {
                proof {
                    lemma_table_lacks(
                        self.accounts@,
                        account_key(),
                        account_val(),
                        (mint@, owner@),
                    );
                }
                false
            },
        }
    }

    /// What the owner holds of the asset at `mint`: nothing where the owner
    /// has no account for it.
    pub fn balance(&self, mint: &Address, owner: &Address) -> (b: u64)
        ensures
            b == self@.balance(mint@, owner@),
    {
        proof {
            use_type_invariant(self);
        }
        match self.find_account(mint, owner) {
            Some(j) => {
                proof {
                    lemma_table_at(self.accounts@, account_key(), account_val(), j as int);
                }
                self.accounts[j].amount
            },
            None => {
                proof {
                    lemma_table_lacks(
                        self.accounts@,
                        account_key(),
                        account_val(),
                        (mint@, owner@),
                    );
                }
                0
            },
        }
    }
    /// Creates the record that `proof` signs for, unless it exists: a record
    /// that is there already is left as it is, whatever authority is offered.
    /// Returns whether a record was created.
    pub fn init_record(&mut self, proof: &SigningProof, authority: &Address) -> (created: bool)
        ensures
            final(self)@ == old(self)@.init_record(
                proof.spec_address()@,
                authority@,
                proof.spec_bump(),
            ),
            created == !old(self)@.configured(proof.spec_address()@),
            final(self)@.wf(),
    {
        proof {
            use_type_invariant(&*self);
            lemma_consistent_wf(self.records@, self.accounts@);
        }
        let address = proof.address();
        match self.find_record(&address) {
            Some(i) => {
                proof {
                    lemma_table_at(self.records@, record_key(), record_val(), i as int);
                }
                false
            },
            None => {
                let record = AuthorityRecord {
                    address,
                    decimals: WRAPPED_ASSET_DECIMALS,
                    authority: *authority,
                    bump: proof.bump(),
                    supply: 0,
                };
                proof {
                    lemma_table_lacks(self.records@, record_key(), record_val(), address@);
                    lemma_table_push(self.records@, record_key(), record_val(), record);
                    lemma_consistent_record(self.records@, self.accounts@, record);
                    lemma_consistent_wf(self.records@.push(record), self.accounts@);
                }
                let (mut records, accounts) = self.take();
                records.push(record);
                *self = Ledger { records, accounts };
                true
            },
        }
    }

    /// Issues `amount` units of the asset that `proof` signs for to `owner`,
    /// opening the owner's account if there is none. Fails with
    /// `AuthorityNotFound` where no record exists at the proof's address and
    /// with `Overflow` where the supply would pass 64 bits; a failed call
    /// changes nothing.
    pub fn mint_to(&mut self, proof: &SigningProof, owner: &Address, amount: u64) -> (r: Result<
        (),
        BridgeError,
    >)
        ensures
            follows(
                old(self)@,
                final(self)@,
                r,
                old(self)@.mint_to(proof.spec_address()@, owner@, amount as nat),
            ),
            final(self)@.wf(),
    {
        proof {
            use_type_invariant(&*self);
            lemma_consistent_wf(self.records@, self.accounts@);
        }
        let mint = proof.address();
        let i = match self.find_record(&mint) {
            Some(i) => i,
            None => {
                proof {
                    lemma_table_lacks(self.records@, record_key(), record_val(), mint@);
                }
                return Err(BridgeError::AuthorityNotFound);
            },
        };
        let record = self.records[i];
        proof {
            lemma_table_at(self.records@, record_key(), record_val(), i as int);
        }
        if amount > u64::MAX - record.supply {
            return Err(BridgeError::Overflow);
        }
        let at = self.find_account(&mint, owner);
        let held: u64 = match at {
            Some(j) => self.accounts[j].amount,
            None => 0,
        };
        let grown = AuthorityRecord { supply: record.supply + amount, ..record };
        let ghost spot: Option<int> = match at {
            Some(j) => Some(j as int),
            None => None,
        };
        proof {
            match at {
                Some(j) => {
                    lemma_table_at(self.accounts@, account_key(), account_val(), j as int);
                    assert(backed(self.records@, self.accounts@[j as int]));
                    let k = choose|k: int|
                        0 <= k < self.records@.len() && (#[trigger] self.records@[k]).address@
                            == self.accounts@[j as int].mint@ && self.accounts@[j as int].amount
                            <= self.records@[k].supply;
                    if k != i as int {
                        if k < i {
                            assert(record_key()(self.records@[k]) != record_key()(
                                self.records@[i as int],
                            ));
                        } else {
                            assert(record_key()(self.records@[i as int]) != record_key()(
                                self.records@[k],
                            ));
                        }
                    }
                },
                None => {
                    lemma_table_lacks(
                        self.accounts@,
                        account_key(),
                        account_val(),
                        (mint@, owner@),
                    );
                },
            }
            assert(held <= record.supply);
            lemma_table_update(self.records@, record_key(), record_val(), i as int, grown);
            lemma_consistent_supply(self.records@, self.accounts@, i as int, grown);
        }
        let account = TokenAccount { mint, owner: *owner, amount: held + amount };
        proof {
            let changed = self.records@.update(i as int, grown);
            assert(changed[i as int].address@ == account.mint@);
            assert(backed(changed, account));
            lemma_consistent_account(changed, self.accounts@, spot, account);
            match spot {
                Some(j) => {
                    lemma_table_update(self.accounts@, account_key(), account_val(), j, account);
                    lemma_consistent_wf(changed, self.accounts@.update(j, account));
                },
                None => {
                    lemma_table_push(self.accounts@, account_key(), account_val(), account);
                    lemma_consistent_wf(changed, self.accounts@.push(account));
                },
            }
        }
        let (mut records, mut accounts) = self.take();
        records.set(i, grown);
        match at {
            Some(j) => {
                accounts.set(j, account);
            },
            None => {
                accounts.push(account);
            },
        }
        *self = Ledger { records, accounts };
        Ok(())
    }
}

} // verus!
