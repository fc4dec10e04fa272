//! What holds of the bridge across calls.

use vstd::prelude::*;
use crate::derivation::{derive_outcome, Namespace, SigningProof};
use crate::error::BridgeError;
use crate::instructions::mint_wrapped_asset::{controlled_mint, MintWrappedAssetInstruction};
use crate::instructions::setup_mint_once::{authority_setup, SetupMintOnceInstruction};
use crate::program::{mint_wrapped_asset_outcome, setup_mint_outcome};
use crate::state::LedgerState;

verus! {

/// Derivation is deterministic: two derivations from the same namespace and
/// code end alike, either both in a proof for the same address and bump or
/// both in the same failure.
pub proof fn lemma_derivation_deterministic(
    ns: Namespace,
    code: Seq<u8>,
    first: Result<SigningProof, BridgeError>,
    second: Result<SigningProof, BridgeError>,
)
    requires
        derive_outcome(ns.derived(code), first),
        derive_outcome(ns.derived(code), second),
    ensures
        first is Ok <==> second is Ok,
        first is Ok ==> first->Ok_0.outcome() == second->Ok_0.outcome(),
        first is Ok ==> first->Ok_0.spec_address() == second->Ok_0.spec_address()
            && first->Ok_0.spec_bump() == second->Ok_0.spec_bump(),
        first is Err ==> first->Err_0 == second->Err_0,
{
    if first is Ok {
        let a = first->Ok_0.spec_address();
        let b = second->Ok_0.spec_address();
        assert(a@ == b@);
        crate::address::Address::lemma_view_injective(a, b);
    }
}

/// Setup and mint derive alike: for one namespace and one code, both act on
/// the same address.
pub proof fn lemma_setup_and_mint_agree(
    s: LedgerState,
    ns: Namespace,
    setup: SetupMintOnceInstruction,
    mint: MintWrappedAssetInstruction,
    code: Seq<u8>,
    authority: Seq<u8>,
    amount: u64,
)
    requires
        setup_mint_outcome(s, ns, setup, code, authority) is Ok,
        mint_wrapped_asset_outcome(s, ns, mint, code, amount) is Ok,
    ensures
        setup.mint == mint.mint,
        ns.derived(code) matches Some((address, _)) && address == mint.mint@,
{
    crate::address::Address::lemma_view_injective(setup.mint, mint.mint);
}

/// Setup is idempotent: after a setup that succeeded, a second setup of the
/// same code with the same authority succeeds and leaves the ledger as the
/// first left it, whatever the payer then holds. The code's record exists,
/// and the first setup added no record but that one.
pub proof fn lemma_setup_idempotent(
    s: LedgerState,
    ns: Namespace,
    first: SetupMintOnceInstruction,
    second: SetupMintOnceInstruction,
    code: Seq<u8>,
    authority: Seq<u8>,
)
    requires
        first.mint == second.mint,
        setup_mint_outcome(s, ns, first, code, authority) is Ok,
    ensures
        ({
            let once = setup_mint_outcome(s, ns, first, code, authority)->Ok_0;
            &&& setup_mint_outcome(once, ns, second, code, authority) == Ok::<
                LedgerState,
                BridgeError,
            >(once)
            &&& once.configured(first.mint@)
            &&& once.records.dom() =~= s.records.dom().insert(first.mint@)
            &&& once.balances == s.balances
        }),
{
}

/// Control is assigned once: a setup of a code whose record exists succeeds
/// and changes nothing, whatever authority it offers, so the record stays
/// under the authority of the setup that created it.
pub proof fn lemma_setup_keeps_control(
    s: LedgerState,
    ns: Namespace,
    accounts: SetupMintOnceInstruction,
    code: Seq<u8>,
    authority: Seq<u8>,
)
    requires
        code.len() == 12,
        ns.derived(code) is Some,
        accounts.mint@ == ns.derived(code)->Some_0.0,
        s.configured(accounts.mint@),
    ensures
        setup_mint_outcome(s, ns, accounts, code, authority) == Ok::<LedgerState, BridgeError>(s),
{
}

/// A first setup creates the record with the authority offered, the fixed
/// precision and nothing minted.
pub proof fn lemma_first_setup_creates(
    s: LedgerState,
    ns: Namespace,
    accounts: SetupMintOnceInstruction,
    code: Seq<u8>,
    authority: Seq<u8>,
)
    requires
        !s.configured(accounts.mint@),
        setup_mint_outcome(s, ns, accounts, code, authority) is Ok,
    ensures
        ({
            let once = setup_mint_outcome(s, ns, accounts, code, authority)->Ok_0;
            &&& once.records[accounts.mint@].authority == authority
            &&& once.records[accounts.mint@].decimals == crate::state::WRAPPED_ASSET_DECIMALS
            &&& once.records[accounts.mint@].supply == 0
            &&& ns.derived(code) == Some((accounts.mint@, once.records[accounts.mint@].bump))
        }),
{
}

/// No mint before setup: where the code derives an address at which no
/// record exists, a mint fails with `AuthorityNotFound`, whatever account it
/// names, and so changes nothing.
pub proof fn lemma_mint_needs_setup(
    s: LedgerState,
    ns: Namespace,
    accounts: MintWrappedAssetInstruction,
    code: Seq<u8>,
    amount: u64,
)
    requires
        code.len() == 12,
        ns.derived(code) is Some,
        !s.configured(ns.derived(code)->Some_0.0),
    ensures
        mint_wrapped_asset_outcome(s, ns, accounts, code, amount) == Err::<
            LedgerState,
            BridgeError,
        >(BridgeError::AuthorityNotFound),
{
}

/// The authorization boundary: where the code's record exists, a mint that
/// names any other account fails with `DerivationMismatch`, and so changes
/// nothing. Who the receiver is plays no part.
pub proof fn lemma_mint_rejects_foreign_account(
    s: LedgerState,
    ns: Namespace,
    accounts: MintWrappedAssetInstruction,
    code: Seq<u8>,
    amount: u64,
)
    requires
        code.len() == 12,
        ns.derived(code) is Some,
        s.configured(ns.derived(code)->Some_0.0),
        accounts.mint@ != ns.derived(code)->Some_0.0,
    ensures
        mint_wrapped_asset_outcome(s, ns, accounts, code, amount) == Err::<
            LedgerState,
            BridgeError,
        >(BridgeError::DerivationMismatch),
{
}

/// A mint that names an account other than the derived address never
/// succeeds, whether or not the code's record exists.
pub proof fn lemma_foreign_account_never_mints(
    s: LedgerState,
    ns: Namespace,
    accounts: MintWrappedAssetInstruction,
    code: Seq<u8>,
    amount: u64,
)
    requires
        ns.derived(code) is None || accounts.mint@ != ns.derived(code)->Some_0.0,
    ensures
        mint_wrapped_asset_outcome(s, ns, accounts, code, amount) is Err,
{
}

/// When a mint succeeds: exactly when the code is twelve bytes long and
/// derives the named account, a record exists there, and the supply has room
/// for the amount.
pub proof fn lemma_mint_succeeds_iff(
    s: LedgerState,
    ns: Namespace,
    accounts: MintWrappedAssetInstruction,
    code: Seq<u8>,
    amount: u64,
)
    ensures
        mint_wrapped_asset_outcome(s, ns, accounts, code, amount) is Ok <==> {
            &&& code.len() == 12
            &&& ns.derived(code) is Some
            &&& ns.derived(code)->Some_0.0 == accounts.mint@
            &&& s.configured(accounts.mint@)
            &&& s.records[accounts.mint@].supply + amount <= u64::MAX
        },
{
}

/// A mint credits exactly the amount: the receiver's balance and the supply
/// grow by it, the record is otherwise as it was, no other record and no
/// other balance changes, and no account but the receiver's is created.
pub proof fn lemma_mint_credits_exactly(
    s: LedgerState,
    ns: Namespace,
    accounts: MintWrappedAssetInstruction,
    code: Seq<u8>,
    amount: u64,
)
    requires
        mint_wrapped_asset_outcome(s, ns, accounts, code, amount) is Ok,
    ensures
        ({
            let after = mint_wrapped_asset_outcome(s, ns, accounts, code, amount)->Ok_0;
            let mint = accounts.mint@;
            let receiver = accounts.receiver@;
            &&& after.balance(mint, receiver) == s.balance(mint, receiver) + amount
            &&& after.has_account(mint, receiver)
            &&& after.records.dom() =~= s.records.dom()
            &&& after.records[mint].supply == s.records[mint].supply + amount
            &&& after.records[mint].authority == s.records[mint].authority
            &&& after.records[mint].decimals == s.records[mint].decimals
            &&& after.records[mint].bump == s.records[mint].bump
            &&& forall|m: Seq<u8>| m != mint ==> after.records[m] == s.records[m]
            &&& forall|m: Seq<u8>, o: Seq<u8>|
                (m, o) != (mint, receiver) ==> after.balance(m, o) == s.balance(m, o)
                    && after.has_account(m, o) == s.has_account(m, o)
        }),
{
}

/// Mints add up: after two mints in a row to one receiver that both
/// succeeded, the receiver holds what it held before, the first amount and
/// the second; a receiver that had no account holds exactly their sum.
pub proof fn lemma_mints_add_up(
    s: LedgerState,
    ns: Namespace,
    accounts: MintWrappedAssetInstruction,
    code: Seq<u8>,
    first: u64,
    second: u64,
)
    requires
        mint_wrapped_asset_outcome(s, ns, accounts, code, first) is Ok,
        mint_wrapped_asset_outcome(
            mint_wrapped_asset_outcome(s, ns, accounts, code, first)->Ok_0,
            ns,
            accounts,
            code,
            second,
        ) is Ok,
    ensures
        ({
            let once = mint_wrapped_asset_outcome(s, ns, accounts, code, first)->Ok_0;
            let twice = mint_wrapped_asset_outcome(once, ns, accounts, code, second)->Ok_0;
            let mint = accounts.mint@;
            let receiver = accounts.receiver@;
            &&& twice.balance(mint, receiver) == s.balance(mint, receiver) + first + second
            &&& !s.has_account(mint, receiver) ==> twice.balance(mint, receiver) == first
                + second
            &&& twice.records[mint].supply == s.records[mint].supply + first + second
        }),
{
}

/// When two mints in a row succeed: exactly when the first alone would and
/// the supply has room for both amounts.
pub proof fn lemma_two_mints_succeed_iff(
    s: LedgerState,
    ns: Namespace,
    accounts: MintWrappedAssetInstruction,
    code: Seq<u8>,
    first: u64,
    second: u64,
)
    requires
        mint_wrapped_asset_outcome(s, ns, accounts, code, first) is Ok,
    ensures
        mint_wrapped_asset_outcome(
            mint_wrapped_asset_outcome(s, ns, accounts, code, first)->Ok_0,
            ns,
            accounts,
            code,
            second,
        ) is Ok <==> s.records[accounts.mint@].supply + first + second <= u64::MAX,
{
}

/// Setup keeps a well-formed ledger well-formed.
pub proof fn lemma_setup_preserves_wf(
    s: LedgerState,
    derived: Option<(Seq<u8>, u8)>,
    accounts: SetupMintOnceInstruction,
    authority: Seq<u8>,
)
    requires
        s.wf(),
        authority_setup(s, derived, accounts, authority) is Ok,
    ensures
        authority_setup(s, derived, accounts, authority)->Ok_0.wf(),
{
}

/// A mint keeps a well-formed ledger well-formed.
pub proof fn lemma_mint_preserves_wf(
    s: LedgerState,
    derived: Option<(Seq<u8>, u8)>,
    accounts: MintWrappedAssetInstruction,
    amount: u64,
)
    requires
        s.wf(),
        controlled_mint(s, derived, accounts, amount) is Ok,
    ensures
        controlled_mint(s, derived, accounts, amount)->Ok_0.wf(),
{
    let after = controlled_mint(s, derived, accounts, amount)->Ok_0;
    let mint = accounts.mint@;
    let receiver = accounts.receiver@;
    assert forall|m: Seq<u8>, o: Seq<u8>| #[trigger]
        after.balances.contains_key((m, o)) implies after.records.contains_key(m)
        && after.balances[(m, o)] <= after.records[m].supply by {
        if (m, o) != (mint, receiver) {
            assert(s.balances.contains_key((m, o)));
        } else if s.balances.contains_key((m, o)) {
            assert(s.balances[(m, o)] <= s.records[m].supply);
        }
    }
}

/// Configured is for good: no setup and no mint removes a record or changes
/// who controls it, its precision or its bump, and no supply shrinks.
pub proof fn lemma_records_persist(
    s: LedgerState,
    ns: Namespace,
    setup: SetupMintOnceInstruction,
    mint: MintWrappedAssetInstruction,
    code: Seq<u8>,
    authority: Seq<u8>,
    amount: u64,
    address: Seq<u8>,
)
    requires
        s.configured(address),
    ensures
        setup_mint_outcome(s, ns, setup, code, authority) matches Ok(after) ==> after.configured(
            address,
        ) && after.records[address] == s.records[address],
        mint_wrapped_asset_outcome(s, ns, mint, code, amount) matches Ok(after)
            ==> after.configured(address) && after.records[address].authority
            == s.records[address].authority && after.records[address].decimals
            == s.records[address].decimals && after.records[address].bump
            == s.records[address].bump && after.records[address].supply
            >= s.records[address].supply,
{
}

} // verus!
