use vstd::prelude::*;

use crate::address::{candidate_address, candidate_seeds, poll_address, poll_seeds, program_address};
use crate::error::VotingError;
use crate::ledger::{allocate_outcome, AccountData, AccountDataView, Ledger, LedgerView};
use crate::state::{
    new_candidate, new_poll, text_len, Candidate, Poll, DISCRIMINATOR_LEN, MAX_CANDIDATE_NAME_LEN,
    MAX_DESCRIPTION_LEN,
};

verus! {

/// The accounts that creating a poll is handed: the payer who signed.
#[derive(Clone, Copy, Debug)]
pub struct InitializePoll {
    pub signer: [u8; 32],
}

/// The accounts that creating a candidate is handed: the payer who signed.
#[derive(Clone, Copy, Debug)]
pub struct InitializeCandidate {
    pub signer: [u8; 32],
}

/// Bytes of a poll account.
pub open spec fn poll_space() -> nat {
    (DISCRIMINATOR_LEN + Poll::INIT_SPACE) as nat
}

/// Bytes of a candidate account.
pub open spec fn candidate_space() -> nat {
    (DISCRIMINATOR_LEN + Candidate::INIT_SPACE) as nat
}

/// An allocation's outcome, with `address` returned on success.
pub open spec fn with_address(o: (LedgerView, Result<(), VotingError>), address: Seq<u8>) -> (
    LedgerView,
    Result<Seq<u8>, VotingError>,
) {
    match o.1 {
        Ok(_) => (o.0, Ok(address)),
        Err(e) => (o.0, Err(e)),
    }
}

/// A returned address as a sequence of bytes.
pub open spec fn address_result(r: Result<[u8; 32], VotingError>) -> Result<Seq<u8>, VotingError> {
    match r {
        Ok(a) => Ok(a@),
        Err(e) => Err(e),
    }
}

/// Whether a poll record stands at `address`.
pub open spec fn holds_poll(l: LedgerView, address: Seq<u8>) -> bool {
    l.accounts.contains_key(address) && l.accounts[address].data is Poll
}

/// The ledger after `signer` asked for the poll `poll_id`, and the result:
/// the description is checked, the poll's address derived, and a poll with
/// no candidates allocated there.
pub open spec fn initialize_poll_outcome(
    l: LedgerView,
    signer: Seq<u8>,
    poll_id: u64,
    description: Seq<char>,
    poll_start: u64,
    poll_end: u64,
) -> (LedgerView, Result<Seq<u8>, VotingError>) {
    if text_len(description) > MAX_DESCRIPTION_LEN {
        (l, Err(VotingError::ValidationError))
    } else {
        match program_address(poll_seeds(poll_id), l.program_id) {
            None => (l, Err(VotingError::DerivationExhausted)),
            Some((a, _)) => with_address(
                allocate_outcome(
                    l,
                    signer,
                    a,
                    poll_space(),
                    AccountDataView::Poll(new_poll(poll_id, description, poll_start, poll_end)),
                ),
                a,
            ),
        }
    }
}

/// The ledger after `signer` asked for the candidate `candidate_name` of the
/// poll `poll_id`, and the result: the poll must exist, the name is checked,
/// and a candidate with no votes allocated at the address derived from both.
pub open spec fn initialize_candidate_outcome(
    l: LedgerView,
    signer: Seq<u8>,
    poll_id: u64,
    candidate_name: Seq<char>,
) -> (LedgerView, Result<Seq<u8>, VotingError>) {
    match program_address(poll_seeds(poll_id), l.program_id) {
        None => (l, Err(VotingError::DerivationExhausted)),
        Some((p, _)) => if !holds_poll(l, p) {
            (l, Err(VotingError::PollNotFound))
        } else if text_len(candidate_name) > MAX_CANDIDATE_NAME_LEN {
            (l, Err(VotingError::ValidationError))
        } else {
            match program_address(candidate_seeds(poll_id, candidate_name), l.program_id) {
                None => (l, Err(VotingError::DerivationExhausted)),
                Some((a, _)) => with_address(
                    allocate_outcome(
                        l,
                        signer,
                        a,
                        candidate_space(),
                        AccountDataView::Candidate(new_candidate(candidate_name)),
                    ),
                    a,
                ),
            }
        },
    }
}

/// Creates the poll `poll_id` at its derived address, paid for by the
/// signer, and returns that address. Nothing changes on failure.
pub fn initialize_poll(
    ledger: &mut Ledger,
    ctx: &InitializePoll,
    poll_id: u64,
    description: String,
    poll_start: u64,
    poll_end: u64,
) -> (r: Result<[u8; 32], VotingError>)
    requires
        old(ledger).wf(),
    ensures
        final(ledger).wf(),
        (final(ledger)@, address_result(r)) == initialize_poll_outcome(
            old(ledger)@,
            ctx.signer@,
            poll_id,
            description@,
            poll_start,
            poll_end,
        ),
{
    let poll = match Poll::new(poll_id, description, poll_start, poll_end) {
        Ok(p) => p,
        Err(e) => {
            return Err(e);
        },
    };
    let program_id = ledger.program_id();
    let pda = match poll_address(poll_id, &program_id) {
        Ok(p) => p,
        Err(e) => {
            return Err(e);
        },
    };
    match ledger.allocate(&ctx.signer, pda.address, Poll::space(), AccountData::Poll(poll)) {
        Ok(()) => Ok(pda.address),
        Err(e) => Err(e),
    }
}

/// Creates the candidate `candidate_name` of the existing poll `poll_id` at
/// its derived address, paid for by the signer, and returns that address.
/// Nothing changes on failure.
pub fn initialize_candidate(
    ledger: &mut Ledger,
    ctx: &InitializeCandidate,
    poll_id: u64,
    candidate_name: String,
) -> (r: Result<[u8; 32], VotingError>)
    requires
        old(ledger).wf(),
    ensures
        final(ledger).wf(),
        (final(ledger)@, address_result(r)) == initialize_candidate_outcome(
            old(ledger)@,
            ctx.signer@,
            poll_id,
            candidate_name@,
        ),
{
    let program_id = ledger.program_id();
    let parent = match poll_address(poll_id, &program_id) {
        Ok(p) => p,
        Err(e) => {
            return Err(e);
        },
    };
    match ledger.account(&parent.address) {
        Some(account) => match account.data {
            AccountData::Poll(_) => {},
            _ => {
                return Err(VotingError::PollNotFound);
            },
        },
        None => {
            return Err(VotingError::PollNotFound);
        },
    }
    let candidate = match Candidate::new(candidate_name) {
        Ok(c) => c,
        Err(e) => {
            return Err(e);
        },
    };
    let pda = match candidate_address(poll_id, candidate.candidate_name.as_str(), &program_id) {
        Ok(p) => p,
        Err(e) => {
            return Err(e);
        },
    };
    match ledger.allocate(&ctx.signer, pda.address, Candidate::space(), AccountData::Candidate(candidate)) {
        Ok(()) => Ok(pda.address),
        Err(e) => Err(e),
    }
}

/// A poll id is taken once: after a poll was created, asking again for the
/// same id, by any payer and with any description that fits, fails with
/// `AddressAlreadyOccupied` and leaves the ledger as it was.
pub proof fn lemma_poll_created_once(
    l: LedgerView,
    signer: Seq<u8>,
    poll_id: u64,
    description: Seq<char>,
    poll_start: u64,
    poll_end: u64,
    other_signer: Seq<u8>,
    other_description: Seq<char>,
    other_start: u64,
    other_end: u64,
)
    requires
        initialize_poll_outcome(l, signer, poll_id, description, poll_start, poll_end).1 is Ok,
        text_len(other_description) <= MAX_DESCRIPTION_LEN,
    ensures
        ({
            let after = initialize_poll_outcome(l, signer, poll_id, description, poll_start, poll_end).0;
            initialize_poll_outcome(after, other_signer, poll_id, other_description, other_start, other_end)
                == (after, Err::<Seq<u8>, VotingError>(VotingError::AddressAlreadyOccupied))
        }),
{
}

/// A candidate name is taken once within a poll: after a candidate was
/// created, asking again for the same poll and name, by any payer, fails
/// with `AddressAlreadyOccupied` and leaves the ledger as it was.
pub proof fn lemma_candidate_created_once(
    l: LedgerView,
    signer: Seq<u8>,
    poll_id: u64,
    candidate_name: Seq<char>,
    other_signer: Seq<u8>,
)
    requires
        initialize_candidate_outcome(l, signer, poll_id, candidate_name).1 is Ok,
    ensures
        ({
            let after = initialize_candidate_outcome(l, signer, poll_id, candidate_name).0;
            initialize_candidate_outcome(after, other_signer, poll_id, candidate_name)
                == (after, Err::<Seq<u8>, VotingError>(VotingError::AddressAlreadyOccupied))
        }),
{
}

/// A description longer than `MAX_DESCRIPTION_LEN` code units is rejected
/// with `ValidationError`, and no record is created.
pub proof fn lemma_long_description_rejected(
    l: LedgerView,
    signer: Seq<u8>,
    poll_id: u64,
    description: Seq<char>,
    poll_start: u64,
    poll_end: u64,
)
    requires
        text_len(description) > MAX_DESCRIPTION_LEN,
    ensures
        initialize_poll_outcome(l, signer, poll_id, description, poll_start, poll_end) == (
            l,
            Err::<Seq<u8>, VotingError>(VotingError::ValidationError),
        ),
{
}

/// A candidate name longer than `MAX_CANDIDATE_NAME_LEN` code units is
/// rejected with `ValidationError` once the poll exists, and no record is
/// created.
pub proof fn lemma_long_candidate_name_rejected(
    l: LedgerView,
    signer: Seq<u8>,
    poll_id: u64,
    candidate_name: Seq<char>,
)
    requires
        text_len(candidate_name) > MAX_CANDIDATE_NAME_LEN,
        program_address(poll_seeds(poll_id), l.program_id) matches Some((p, _)) && holds_poll(l, p),
    ensures
        initialize_candidate_outcome(l, signer, poll_id, candidate_name) == (
            l,
            Err::<Seq<u8>, VotingError>(VotingError::ValidationError),
        ),
{
}

/// A candidate of a poll that does not exist is rejected with
/// `PollNotFound`, and no record is created.
pub proof fn lemma_candidate_needs_poll(
    l: LedgerView,
    signer: Seq<u8>,
    poll_id: u64,
    candidate_name: Seq<char>,
)
    requires
        program_address(poll_seeds(poll_id), l.program_id) matches Some((p, _)) && !holds_poll(l, p),
    ensures
        initialize_candidate_outcome(l, signer, poll_id, candidate_name) == (
            l,
            Err::<Seq<u8>, VotingError>(VotingError::PollNotFound),
        ),
{
}

/// Two polls created one after the other stand at distinct addresses, and
/// the first is still there after the second.
pub proof fn lemma_polls_distinct(
    l: LedgerView,
    signer: Seq<u8>,
    poll_id: u64,
    description: Seq<char>,
    poll_start: u64,
    poll_end: u64,
    other_signer: Seq<u8>,
    other_id: u64,
    other_description: Seq<char>,
    other_start: u64,
    other_end: u64,
)
    requires
        initialize_poll_outcome(l, signer, poll_id, description, poll_start, poll_end).1 is Ok,
        ({
            let after = initialize_poll_outcome(l, signer, poll_id, description, poll_start, poll_end).0;
            initialize_poll_outcome(after, other_signer, other_id, other_description, other_start, other_end).1 is Ok
        }),
    ensures
        ({
            let first = initialize_poll_outcome(l, signer, poll_id, description, poll_start, poll_end);
            let second = initialize_poll_outcome(first.0, other_signer, other_id, other_description, other_start, other_end);
            &&& first.1->Ok_0 != second.1->Ok_0
            &&& holds_poll(second.0, first.1->Ok_0)
            &&& poll_id != other_id
        }),
{
}

/// Two candidates created one after the other stand at distinct addresses,
/// and differ in their poll or their name.
pub proof fn lemma_candidates_distinct(
    l: LedgerView,
    signer: Seq<u8>,
    poll_id: u64,
    candidate_name: Seq<char>,
    other_signer: Seq<u8>,
    other_id: u64,
    other_name: Seq<char>,
)
    requires
        initialize_candidate_outcome(l, signer, poll_id, candidate_name).1 is Ok,
        initialize_candidate_outcome(
            initialize_candidate_outcome(l, signer, poll_id, candidate_name).0,
            other_signer,
            other_id,
            other_name,
        ).1 is Ok,
    ensures
        ({
            let first = initialize_candidate_outcome(l, signer, poll_id, candidate_name);
            let second = initialize_candidate_outcome(first.0, other_signer, other_id, other_name);
            &&& first.1->Ok_0 != second.1->Ok_0
            &&& !(poll_id == other_id && candidate_name == other_name)
        }),
{
}

} // verus!
