use std::str::FromStr;

use anchor_lang::prelude::Pubkey;
use charon::address::Address;
use charon::code::ExternalAssetCode;
use charon::derivation::{Namespace, SigningProof};
use charon::error::BridgeError;
use charon::ledger::Ledger;
use charon::state::WRAPPED_ASSET_DECIMALS;
use charon::{mint_wrapped_asset, setup_mint, MintWrappedAssetInstruction, SetupMintOnceInstruction};

const CODE: &[u8; 12] = b"USDSTLR12345";
const OTHER_CODE: &[u8; 12] = b"EURSTLR67890";
const RENT: u64 = 1_461_600;

fn program() -> Address {
    let id = Pubkey::from_str("ArWpEgPv1eM8m7tU1L8hVN1Zh4vXQLi7kC4wko9SSmB1").unwrap();
    Address::new(id.to_bytes())
}

fn namespace() -> Namespace {
    Namespace::new(b"charon".to_vec(), program())
}

fn proof_for(code: &[u8; 12]) -> SigningProof {
    charon::derivation::derive(&namespace(), &ExternalAssetCode::new(*code)).unwrap()
}

fn wallet(n: u8) -> Address {
    Address::new([n; 32])
}

fn setup_accounts(mint: Address) -> SetupMintOnceInstruction {
    SetupMintOnceInstruction::new(mint, wallet(1), RENT, RENT)
}

fn configured() -> (Ledger, Address) {
    let mut ledger = Ledger::new();
    let mint = proof_for(CODE).address();
    setup_mint(&mut ledger, &namespace(), &setup_accounts(mint), CODE, &wallet(77)).unwrap();
    (ledger, mint)
}

#[test]
fn derive_matches_the_ledger_rule() {
    let proof = proof_for(CODE);
    let id = Pubkey::new_from_array(program().to_bytes());
    let (key, bump) = Pubkey::find_program_address(&[b"charon", CODE], &id);
    assert_eq!(proof.address().to_bytes(), key.to_bytes());
    assert_eq!(proof.bump(), bump);
    let again = Pubkey::create_program_address(&[b"charon", CODE, &[proof.bump()]], &id).unwrap();
    assert_eq!(proof.address().to_bytes(), again.to_bytes());
}

#[test]
fn derive_is_none_of_its_inputs() {
    let proof = proof_for(CODE);
    assert_ne!(proof.address(), program());
    assert_ne!(proof.address(), proof_for(OTHER_CODE).address());
    let elsewhere = Namespace::new(b"styx".to_vec(), program());
    let other = charon::derivation::derive(&elsewhere, &ExternalAssetCode::new(*CODE)).unwrap();
    assert_ne!(proof.address(), other.address());
}

#[test]
fn derive_is_deterministic() {
    let first = proof_for(CODE);
    let second = proof_for(CODE);
    assert_eq!(first.address(), second.address());
    assert_eq!(first.bump(), second.bump());
    assert_eq!(first.code(), ExternalAssetCode::new(*CODE));
}

#[test]
fn derive_fails_on_a_tag_longer_than_a_seed() {
    let ns = Namespace::new(vec![b'c'; 33], program());
    let r = charon::derivation::derive(&ns, &ExternalAssetCode::new(*CODE));
    assert_eq!(r.err(), Some(BridgeError::DerivationExhausted));
    let longest = Namespace::new(vec![b'c'; 32], program());
    assert!(charon::derivation::derive(&longest, &ExternalAssetCode::new(*CODE)).is_ok());
}

#[test]
fn signer_seeds_are_tag_code_and_bump() {
    let proof = proof_for(CODE);
    let seeds = proof.signer_seeds();
    assert_eq!(seeds, vec![b"charon".to_vec(), CODE.to_vec(), vec![proof.bump()]]);
}

#[test]
fn code_is_read_from_twelve_bytes_only() {
    assert_eq!(ExternalAssetCode::from_slice(CODE), Ok(ExternalAssetCode::new(*CODE)));
    assert_eq!(ExternalAssetCode::from_slice(&CODE[..11]), Err(BridgeError::InvalidCodeLength));
    assert_eq!(ExternalAssetCode::from_slice(&[0u8; 13]), Err(BridgeError::InvalidCodeLength));
    assert_eq!(ExternalAssetCode::from_slice(&[]), Err(BridgeError::InvalidCodeLength));
    assert_eq!(ExternalAssetCode::new(*CODE).to_bytes(), *CODE);
}

#[test]
fn code_text_is_present_for_text_only() {
    assert_eq!(ExternalAssetCode::new(*CODE).text(), Some(String::from("USDSTLR12345")));
    assert_eq!(ExternalAssetCode::new([0xff; 12]).text(), None);
}

#[test]
fn addresses_compare_by_bytes() {
    let mut bytes = [3u8; 32];
    assert_eq!(Address::new(bytes), wallet(3));
    bytes[31] = 4;
    assert_ne!(Address::new(bytes), wallet(3));
    assert_eq!(Address::new(bytes).to_bytes(), bytes);
}

#[test]
fn errors_have_distinct_codes_and_names() {
    let all = [
        BridgeError::InvalidCodeLength,
        BridgeError::DerivationExhausted,
        BridgeError::DerivationMismatch,
        BridgeError::InsufficientFunds,
        BridgeError::AuthorityNotFound,
        BridgeError::Overflow,
    ];
    let codes: Vec<u32> = all.iter().map(|e| e.code()).collect();
    assert_eq!(codes, vec![6000, 6001, 6002, 6003, 6004, 6005]);
    let names: Vec<&str> = all.iter().map(|e| e.name()).collect();
    assert_eq!(
        names,
        vec![
            "InvalidCodeLength",
            "DerivationExhausted",
            "DerivationMismatch",
            "InsufficientFunds",
            "AuthorityNotFound",
            "Overflow",
        ]
    );
}

#[test]
fn new_ledger_is_empty() {
    let ledger = Ledger::new();
    let mint = proof_for(CODE).address();
    assert_eq!(ledger.record(&mint), None);
    assert!(!ledger.has_account(&mint, &wallet(2)));
    assert_eq!(ledger.balance(&mint, &wallet(2)), 0);
}

#[test]
fn first_setup_creates_the_record() {
    let (ledger, mint) = configured();
    let record = ledger.record(&mint).unwrap();
    assert_eq!(record.address, mint);
    assert_eq!(record.authority, wallet(77));
    assert_eq!(record.decimals, 7);
    assert_eq!(record.decimals, WRAPPED_ASSET_DECIMALS);
    assert_eq!(record.bump, proof_for(CODE).bump());
    assert_eq!(record.supply, 0);
    assert_eq!(ledger.record(&proof_for(OTHER_CODE).address()), None);
}

#[test]
fn setup_twice_is_setup_once() {
    let (mut ledger, mint) = configured();
    let once = ledger.record(&mint);
    let r = setup_mint(&mut ledger, &namespace(), &setup_accounts(mint), CODE, &wallet(77));
    assert_eq!(r, Ok(()));
    assert_eq!(ledger.record(&mint), once);
}

#[test]
fn second_setup_needs_no_funds() {
    let (mut ledger, mint) = configured();
    let broke = SetupMintOnceInstruction::new(mint, wallet(1), 0, RENT);
    assert_eq!(setup_mint(&mut ledger, &namespace(), &broke, CODE, &wallet(77)), Ok(()));
}

#[test]
fn second_setup_does_not_change_control() {
    let (mut ledger, mint) = configured();
    let r = setup_mint(&mut ledger, &namespace(), &setup_accounts(mint), CODE, &wallet(78));
    assert_eq!(r, Ok(()));
    assert_eq!(ledger.record(&mint).unwrap().authority, wallet(77));
}

#[test]
fn setup_rejects_a_short_code() {
    let mut ledger = Ledger::new();
    let mint = proof_for(CODE).address();
    let r = setup_mint(&mut ledger, &namespace(), &setup_accounts(mint), &CODE[..11], &wallet(77));
    assert_eq!(r, Err(BridgeError::InvalidCodeLength));
    assert_eq!(ledger.record(&mint), None);
}

#[test]
fn setup_rejects_a_foreign_account() {
    let mut ledger = Ledger::new();
    let forged = wallet(9);
    let r = setup_mint(&mut ledger, &namespace(), &setup_accounts(forged), CODE, &wallet(77));
    assert_eq!(r, Err(BridgeError::DerivationMismatch));
    assert_eq!(ledger.record(&forged), None);
    assert_eq!(ledger.record(&proof_for(CODE).address()), None);
}

#[test]
fn setup_needs_a_funded_payer() {
    let mut ledger = Ledger::new();
    let mint = proof_for(CODE).address();
    let poor = SetupMintOnceInstruction::new(mint, wallet(1), RENT - 1, RENT);
    let r = setup_mint(&mut ledger, &namespace(), &poor, CODE, &wallet(77));
    assert_eq!(r, Err(BridgeError::InsufficientFunds));
    assert_eq!(ledger.record(&mint), None);
    let r = setup_mint(&mut ledger, &namespace(), &setup_accounts(mint), CODE, &wallet(77));
    assert_eq!(r, Ok(()));
}

#[test]
fn setup_fails_where_nothing_derives() {
    let mut ledger = Ledger::new();
    let ns = Namespace::new(vec![0u8; 40], program());
    let r = setup_mint(&mut ledger, &ns, &setup_accounts(wallet(9)), CODE, &wallet(77));
    assert_eq!(r, Err(BridgeError::DerivationExhausted));
}

#[test]
fn mint_before_setup_fails() {
    let mut ledger = Ledger::new();
    let mint = proof_for(CODE).address();
    let accounts = MintWrappedAssetInstruction::new(mint, wallet(2));
    let r = mint_wrapped_asset(&mut ledger, &namespace(), &accounts, CODE, 1000);
    assert_eq!(r, Err(BridgeError::AuthorityNotFound));
    assert_eq!(ledger.balance(&mint, &wallet(2)), 0);
    assert!(!ledger.has_account(&mint, &wallet(2)));
}

#[test]
fn mint_of_an_unconfigured_code_fails_beside_a_configured_one() {
    let (mut ledger, _) = configured();
    let other = proof_for(OTHER_CODE).address();
    let accounts = MintWrappedAssetInstruction::new(other, wallet(2));
    let r = mint_wrapped_asset(&mut ledger, &namespace(), &accounts, OTHER_CODE, 1000);
    assert_eq!(r, Err(BridgeError::AuthorityNotFound));
    assert_eq!(ledger.balance(&other, &wallet(2)), 0);
}

#[test]
fn mints_add_up() {
    let (mut ledger, mint) = configured();
    let accounts = MintWrappedAssetInstruction::new(mint, wallet(2));
    assert_eq!(mint_wrapped_asset(&mut ledger, &namespace(), &accounts, CODE, 31), Ok(()));
    assert_eq!(mint_wrapped_asset(&mut ledger, &namespace(), &accounts, CODE, 11), Ok(()));
    assert_eq!(ledger.balance(&mint, &wallet(2)), 42);
    assert_eq!(ledger.record(&mint).unwrap().supply, 42);
}

#[test]
fn mint_touches_one_balance() {
    let (mut ledger, mint) = configured();
    let to_a = MintWrappedAssetInstruction::new(mint, wallet(2));
    let to_b = MintWrappedAssetInstruction::new(mint, wallet(3));
    mint_wrapped_asset(&mut ledger, &namespace(), &to_a, CODE, 5).unwrap();
    mint_wrapped_asset(&mut ledger, &namespace(), &to_b, CODE, 7).unwrap();
    assert_eq!(ledger.balance(&mint, &wallet(2)), 5);
    assert_eq!(ledger.balance(&mint, &wallet(3)), 7);
    assert_eq!(ledger.record(&mint).unwrap().supply, 12);
    assert!(ledger.has_account(&mint, &wallet(2)));
    assert!(!ledger.has_account(&mint, &wallet(4)));
}

#[test]
fn mint_rejects_a_forged_account() {
    let (mut ledger, mint) = configured();
    let forged = MintWrappedAssetInstruction::new(wallet(9), wallet(3));
    let r = mint_wrapped_asset(&mut ledger, &namespace(), &forged, CODE, 1000);
    assert_eq!(r, Err(BridgeError::DerivationMismatch));
    assert_eq!(ledger.balance(&mint, &wallet(3)), 0);
    assert_eq!(ledger.balance(&wallet(9), &wallet(3)), 0);
    assert_eq!(ledger.record(&mint).unwrap().supply, 0);
}

#[test]
fn mint_rejects_the_record_of_another_code() {
    let (mut ledger, mint) = configured();
    let other = proof_for(OTHER_CODE).address();
    setup_mint(&mut ledger, &namespace(), &setup_accounts(other), OTHER_CODE, &wallet(77)).unwrap();
    let crossed = MintWrappedAssetInstruction::new(other, wallet(3));
    let r = mint_wrapped_asset(&mut ledger, &namespace(), &crossed, CODE, 1000);
    assert_eq!(r, Err(BridgeError::DerivationMismatch));
    assert_eq!(ledger.balance(&mint, &wallet(3)), 0);
    assert_eq!(ledger.balance(&other, &wallet(3)), 0);
}

#[test]
fn mint_rejects_a_long_code() {
    let (mut ledger, mint) = configured();
    let accounts = MintWrappedAssetInstruction::new(mint, wallet(2));
    let r = mint_wrapped_asset(&mut ledger, &namespace(), &accounts, b"USDSTLR123456", 1);
    assert_eq!(r, Err(BridgeError::InvalidCodeLength));
    assert_eq!(ledger.balance(&mint, &wallet(2)), 0);
}

#[test]
fn mint_fails_where_nothing_derives() {
    let (mut ledger, mint) = configured();
    let ns = Namespace::new(vec![1u8; 33], program());
    let accounts = MintWrappedAssetInstruction::new(mint, wallet(2));
    let r = mint_wrapped_asset(&mut ledger, &ns, &accounts, CODE, 1);
    assert_eq!(r, Err(BridgeError::DerivationExhausted));
    assert_eq!(ledger.balance(&mint, &wallet(2)), 0);
}

#[test]
fn mint_stops_at_the_representable_supply() {
    let (mut ledger, mint) = configured();
    let to_a = MintWrappedAssetInstruction::new(mint, wallet(2));
    let to_b = MintWrappedAssetInstruction::new(mint, wallet(3));
    assert_eq!(mint_wrapped_asset(&mut ledger, &namespace(), &to_a, CODE, u64::MAX - 1), Ok(()));
    let r = mint_wrapped_asset(&mut ledger, &namespace(), &to_b, CODE, 2);
    assert_eq!(r, Err(BridgeError::Overflow));
    assert_eq!(ledger.balance(&mint, &wallet(3)), 0);
    assert!(!ledger.has_account(&mint, &wallet(3)));
    assert_eq!(ledger.record(&mint).unwrap().supply, u64::MAX - 1);
    assert_eq!(mint_wrapped_asset(&mut ledger, &namespace(), &to_b, CODE, 1), Ok(()));
    assert_eq!(ledger.balance(&mint, &wallet(3)), 1);
    assert_eq!(ledger.balance(&mint, &wallet(2)), u64::MAX - 1);
    assert_eq!(mint_wrapped_asset(&mut ledger, &namespace(), &to_b, CODE, 0), Ok(()));
    assert_eq!(mint_wrapped_asset(&mut ledger, &namespace(), &to_b, CODE, 1), Err(BridgeError::Overflow));
}

#[test]
fn ledger_mints_only_for_an_existing_record() {
    let mut ledger = Ledger::new();
    let proof = proof_for(CODE);
    assert_eq!(ledger.mint_to(&proof, &wallet(2), 5), Err(BridgeError::AuthorityNotFound));
    assert!(ledger.init_record(&proof, &wallet(77)));
    assert!(!ledger.init_record(&proof, &wallet(78)));
    assert_eq!(ledger.record(&proof.address()).unwrap().authority, wallet(77));
    assert_eq!(ledger.mint_to(&proof, &wallet(2), 5), Ok(()));
    assert_eq!(ledger.balance(&proof.address(), &wallet(2)), 5);
}

#[test]
fn setup_then_mint_scenario() {
    let ns = namespace();
    let mut ledger = Ledger::new();
    let multisig = wallet(77);
    let record = proof_for(CODE).address();
    let a = wallet(10);
    let b = wallet(11);

    assert_eq!(setup_mint(&mut ledger, &ns, &setup_accounts(record), CODE, &multisig), Ok(()));
    let created = ledger.record(&record).unwrap();
    assert_eq!(created.authority, multisig);

    assert_eq!(setup_mint(&mut ledger, &ns, &setup_accounts(record), CODE, &multisig), Ok(()));
    assert_eq!(ledger.record(&record), Some(created));

    let to_a = MintWrappedAssetInstruction::new(record, a);
    assert_eq!(mint_wrapped_asset(&mut ledger, &ns, &to_a, CODE, 1000), Ok(()));
    assert_eq!(ledger.balance(&record, &a), 1000);

    assert_eq!(mint_wrapped_asset(&mut ledger, &ns, &to_a, CODE, 500), Ok(()));
    assert_eq!(ledger.balance(&record, &a), 1500);

    let forged = wallet(66);
    let to_b = MintWrappedAssetInstruction::new(forged, b);
    assert_eq!(
        mint_wrapped_asset(&mut ledger, &ns, &to_b, CODE, 1000),
        Err(BridgeError::DerivationMismatch)
    );
    assert_eq!(ledger.balance(&record, &b), 0);
    assert_eq!(ledger.balance(&forged, &b), 0);
    assert_eq!(ledger.balance(&record, &a), 1500);
}
