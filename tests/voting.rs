use std::str::FromStr;

use anchor_lang::prelude::Pubkey;
use votingdapp::address::{candidate_address, derive_address, poll_address};
use votingdapp::error::VotingError;
use votingdapp::instructions::{initialize_candidate, initialize_poll, InitializeCandidate, InitializePoll};
use votingdapp::ledger::{AccountData, Ledger};
use votingdapp::state::{code_units, Candidate, Poll};

const PROGRAM: &str = "AsjZ3kWAUSQRNt2pZVeJkywhZ6gpLpHZmJjduPmKZDZZ";
const PAYER: [u8; 32] = [7u8; 32];
const POLL_RENT: u64 = (128 + 324) * 6960;
const CANDIDATE_RENT: u64 = (128 + 52) * 6960;

fn program_id() -> [u8; 32] {
    Pubkey::from_str(PROGRAM).unwrap().to_bytes()
}

fn funded_ledger(lamports: u64) -> Ledger {
    let mut ledger = Ledger::new(program_id());
    ledger.open_wallet(PAYER, lamports).unwrap();
    ledger
}

fn poll_ctx() -> InitializePoll {
    InitializePoll { signer: PAYER }
}

fn candidate_ctx() -> InitializeCandidate {
    InitializeCandidate { signer: PAYER }
}

fn lamports_of(ledger: &Ledger, address: &[u8; 32]) -> u64 {
    ledger.account(address).unwrap().lamports
}

#[test]
fn scenario_poll_and_candidates() {
    let mut ledger = funded_ledger(1_000_000_000);
    let poll = initialize_poll(&mut ledger, &poll_ctx(), 1, "Favorite language?".to_string(), 1000, 2000)
        .unwrap();
    match &ledger.account(&poll).unwrap().data {
        AccountData::Poll(p) => {
            assert_eq!(p.poll_id, 1);
            assert_eq!(p.description, "Favorite language?");
            assert_eq!(p.poll_start, 1000);
            assert_eq!(p.poll_end, 2000);
            assert_eq!(p.candidate_amount, 0);
        }
        other => panic!("expected a poll, found {:?}", other),
    }
    let rust = initialize_candidate(&mut ledger, &candidate_ctx(), 1, "Rust".to_string()).unwrap();
    match &ledger.account(&rust).unwrap().data {
        AccountData::Candidate(c) => {
            assert_eq!(c.candidate_name, "Rust");
            assert_eq!(c.candidate_votes, 0);
        }
        other => panic!("expected a candidate, found {:?}", other),
    }
    assert_eq!(
        initialize_candidate(&mut ledger, &candidate_ctx(), 1, "Rust".to_string()),
        Err(VotingError::AddressAlreadyOccupied)
    );
    assert_eq!(
        initialize_candidate(&mut ledger, &candidate_ctx(), 2, "Go".to_string()),
        Err(VotingError::PollNotFound)
    );
}

#[test]
fn same_poll_id_twice() {
    let mut ledger = funded_ledger(1_000_000_000);
    let first = initialize_poll(&mut ledger, &poll_ctx(), 42, "first".to_string(), 0, 10);
    assert!(first.is_ok());
    let second = initialize_poll(&mut ledger, &poll_ctx(), 42, "second".to_string(), 5, 6);
    assert_eq!(second, Err(VotingError::AddressAlreadyOccupied));
    match &ledger.account(&first.unwrap()).unwrap().data {
        AccountData::Poll(p) => assert_eq!(p.description, "first"),
        other => panic!("expected a poll, found {:?}", other),
    }
    assert_eq!(lamports_of(&ledger, &PAYER), 1_000_000_000 - POLL_RENT);
}

#[test]
fn distinct_poll_ids_both_succeed() {
    let mut ledger = funded_ledger(1_000_000_000);
    let a = initialize_poll(&mut ledger, &poll_ctx(), 1, "a".to_string(), 0, 0).unwrap();
    let b = initialize_poll(&mut ledger, &poll_ctx(), 2, "b".to_string(), 0, 0).unwrap();
    assert_ne!(a, b);
}

#[test]
fn poll_rent_is_moved_from_payer() {
    let mut ledger = funded_ledger(10_000_000);
    let poll = initialize_poll(&mut ledger, &poll_ctx(), 3, "q".to_string(), 0, 0).unwrap();
    assert_eq!(POLL_RENT, 3_145_920);
    assert_eq!(lamports_of(&ledger, &poll), POLL_RENT);
    assert_eq!(ledger.account(&poll).unwrap().space, 324);
    assert_eq!(lamports_of(&ledger, &PAYER), 10_000_000 - POLL_RENT);
    let candidate = initialize_candidate(&mut ledger, &candidate_ctx(), 3, "x".to_string()).unwrap();
    assert_eq!(lamports_of(&ledger, &candidate), CANDIDATE_RENT);
    assert_eq!(ledger.account(&candidate).unwrap().space, 52);
    assert_eq!(lamports_of(&ledger, &PAYER), 10_000_000 - POLL_RENT - CANDIDATE_RENT);
}

#[test]
fn description_too_long_is_rejected() {
    let mut ledger = funded_ledger(1_000_000_000);
    let long = "x".repeat(281);
    assert_eq!(
        initialize_poll(&mut ledger, &poll_ctx(), 5, long, 0, 0),
        Err(VotingError::ValidationError)
    );
    let address = poll_address(5, &program_id()).unwrap().address;
    assert!(ledger.account(&address).is_none());
    assert_eq!(lamports_of(&ledger, &PAYER), 1_000_000_000);
}

#[test]
fn description_of_limit_length_is_accepted() {
    let mut ledger = funded_ledger(1_000_000_000);
    assert!(initialize_poll(&mut ledger, &poll_ctx(), 5, "x".repeat(280), 0, 0).is_ok());
}

#[test]
fn description_counts_code_units() {
    let mut ledger = funded_ledger(1_000_000_000);
    assert_eq!(
        initialize_poll(&mut ledger, &poll_ctx(), 6, "é".repeat(141), 0, 0),
        Err(VotingError::ValidationError)
    );
    assert!(initialize_poll(&mut ledger, &poll_ctx(), 6, "é".repeat(140), 0, 0).is_ok());
}

#[test]
fn candidate_name_too_long_is_rejected() {
    let mut ledger = funded_ledger(1_000_000_000);
    initialize_poll(&mut ledger, &poll_ctx(), 7, "p".to_string(), 0, 0).unwrap();
    assert_eq!(
        initialize_candidate(&mut ledger, &candidate_ctx(), 7, "n".repeat(33)),
        Err(VotingError::ValidationError)
    );
    assert!(initialize_candidate(&mut ledger, &candidate_ctx(), 7, "n".repeat(32)).is_ok());
}

#[test]
fn candidate_before_poll_is_rejected() {
    let mut ledger = funded_ledger(1_000_000_000);
    assert_eq!(
        initialize_candidate(&mut ledger, &candidate_ctx(), 8, "Rust".to_string()),
        Err(VotingError::PollNotFound)
    );
    assert_eq!(lamports_of(&ledger, &PAYER), 1_000_000_000);
}

#[test]
fn candidate_of_wallet_address_is_rejected() {
    let mut ledger = funded_ledger(1_000_000_000);
    let address = poll_address(9, &program_id()).unwrap().address;
    ledger.open_wallet(address, 5).unwrap();
    assert_eq!(
        initialize_candidate(&mut ledger, &candidate_ctx(), 9, "Rust".to_string()),
        Err(VotingError::PollNotFound)
    );
}

#[test]
fn same_name_in_two_polls() {
    let mut ledger = funded_ledger(1_000_000_000);
    initialize_poll(&mut ledger, &poll_ctx(), 1, "one".to_string(), 0, 0).unwrap();
    initialize_poll(&mut ledger, &poll_ctx(), 2, "two".to_string(), 0, 0).unwrap();
    let a = initialize_candidate(&mut ledger, &candidate_ctx(), 1, "Rust".to_string()).unwrap();
    let b = initialize_candidate(&mut ledger, &candidate_ctx(), 2, "Rust".to_string()).unwrap();
    assert_ne!(a, b);
}

#[test]
fn insufficient_funds() {
    let mut ledger = funded_ledger(POLL_RENT - 1);
    assert_eq!(
        initialize_poll(&mut ledger, &poll_ctx(), 1, "q".to_string(), 0, 0),
        Err(VotingError::InsufficientFunds)
    );
    let address = poll_address(1, &program_id()).unwrap().address;
    assert!(ledger.account(&address).is_none());
    assert_eq!(lamports_of(&ledger, &PAYER), POLL_RENT - 1);
}

#[test]
fn exact_funds_suffice() {
    let mut ledger = funded_ledger(POLL_RENT);
    assert!(initialize_poll(&mut ledger, &poll_ctx(), 1, "q".to_string(), 0, 0).is_ok());
    assert_eq!(lamports_of(&ledger, &PAYER), 0);
}

#[test]
fn unknown_payer_has_no_funds() {
    let mut ledger = Ledger::new(program_id());
    let ctx = InitializePoll { signer: [1u8; 32] };
    assert_eq!(
        initialize_poll(&mut ledger, &ctx, 1, "q".to_string(), 0, 0),
        Err(VotingError::InsufficientFunds)
    );
}

#[test]
fn candidate_insufficient_funds() {
    let mut ledger = funded_ledger(POLL_RENT + CANDIDATE_RENT - 1);
    initialize_poll(&mut ledger, &poll_ctx(), 1, "q".to_string(), 0, 0).unwrap();
    assert_eq!(
        initialize_candidate(&mut ledger, &candidate_ctx(), 1, "Rust".to_string()),
        Err(VotingError::InsufficientFunds)
    );
}

#[test]
fn wallet_opened_twice() {
    let mut ledger = funded_ledger(5);
    assert_eq!(ledger.open_wallet(PAYER, 9), Err(VotingError::AddressAlreadyOccupied));
    assert_eq!(lamports_of(&ledger, &PAYER), 5);
}

#[test]
fn poll_address_matches_pubkey_derivation() {
    let program = Pubkey::from_str(PROGRAM).unwrap();
    let (key, bump) = Pubkey::find_program_address(&[&1u64.to_le_bytes()], &program);
    let derived = poll_address(1, &program_id()).unwrap();
    assert_eq!(derived.address, key.to_bytes());
    assert_eq!(derived.bump, bump);
    assert_ne!(derived.address, program_id());
}

#[test]
fn candidate_address_matches_pubkey_derivation() {
    let program = Pubkey::from_str(PROGRAM).unwrap();
    let (key, bump) = Pubkey::find_program_address(&[&1u64.to_le_bytes(), b"Rust"], &program);
    let derived = candidate_address(1, "Rust", &program_id()).unwrap();
    assert_eq!(derived.address, key.to_bytes());
    assert_eq!(derived.bump, bump);
}

#[test]
fn derivation_is_deterministic_and_distinct() {
    let id = program_id();
    assert_eq!(poll_address(1, &id).unwrap(), poll_address(1, &id).unwrap());
    assert_ne!(poll_address(1, &id).unwrap().address, poll_address(2, &id).unwrap().address);
    assert_eq!(candidate_address(1, "Go", &id).unwrap(), candidate_address(1, "Go", &id).unwrap());
    assert_ne!(
        candidate_address(1, "Go", &id).unwrap().address,
        candidate_address(1, "Rust", &id).unwrap().address
    );
    assert_ne!(candidate_address(1, "Go", &id).unwrap().address, poll_address(1, &id).unwrap().address);
}

#[test]
fn derivation_with_oversized_seed_is_exhausted() {
    let seeds = vec![vec![0u8; 33]];
    assert_eq!(derive_address(&seeds, &program_id()), Err(VotingError::DerivationExhausted));
}

#[test]
fn poll_new_validates_description() {
    let p = Poll::new(4, "d".to_string(), 1, 2).unwrap();
    assert_eq!(p.candidate_amount, 0);
    assert_eq!(p.poll_id, 4);
    assert_eq!(Poll::new(4, "d".repeat(281), 1, 2).unwrap_err(), VotingError::ValidationError);
}

#[test]
fn candidate_new_validates_name() {
    let c = Candidate::new("Go".to_string()).unwrap();
    assert_eq!(c.candidate_votes, 0);
    assert_eq!(c.candidate_name, "Go");
    assert_eq!(Candidate::new("é".repeat(17)).unwrap_err(), VotingError::ValidationError);
    assert!(Candidate::new("é".repeat(16)).is_ok());
}

#[test]
fn record_spaces() {
    assert_eq!(Poll::space(), 324);
    assert_eq!(Candidate::space(), 52);
    assert_eq!(Poll::INIT_SPACE, 316);
    assert_eq!(Candidate::INIT_SPACE, 44);
}

#[test]
fn code_units_of_text() {
    assert_eq!(code_units(""), 0);
    assert_eq!(code_units("abc"), 3);
    assert_eq!(code_units("é"), 2);
}

#[test]
fn ledger_keeps_program_id() {
    let ledger = Ledger::new(program_id());
    assert_eq!(ledger.program_id(), program_id());
    assert!(ledger.account(&PAYER).is_none());
}

#[test]
fn two_candidates_of_one_poll() {
    let mut ledger = funded_ledger(1_000_000_000);
    initialize_poll(&mut ledger, &poll_ctx(), 1, "q".to_string(), 0, 0).unwrap();
    let a = initialize_candidate(&mut ledger, &candidate_ctx(), 1, "Rust".to_string()).unwrap();
    let b = initialize_candidate(&mut ledger, &candidate_ctx(), 1, "Go".to_string()).unwrap();
    assert_ne!(a, b);
    match &ledger.account(&a).unwrap().data {
        AccountData::Candidate(c) => assert_eq!(c.candidate_name, "Rust"),
        other => panic!("expected a candidate, found {:?}", other),
    }
}
