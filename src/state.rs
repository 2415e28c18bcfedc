use vstd::prelude::*;
use vstd::utf8::encode_utf8;

use crate::error::VotingError;

verus! {

/// Bytes at the head of every record that tell its kind.
pub const DISCRIMINATOR_LEN: usize = 8;

/// Most UTF-8 code units a poll's description may hold.
pub const MAX_DESCRIPTION_LEN: usize = 280;

/// Most UTF-8 code units a candidate's name may hold.
pub const MAX_CANDIDATE_NAME_LEN: usize = 32;

/// Length of a text in UTF-8 code units.
pub open spec fn text_len(s: Seq<char>) -> nat {
    encode_utf8(s).len()
}

/// Length of `s` in UTF-8 code units.
pub fn code_units(s: &str) -> (r: usize)
    ensures
        r == text_len(s@),
{
    s.as_bytes().len()
}

/// A poll: its metadata and the number of its candidates.
#[derive(Clone, Debug)]
pub struct Poll {
    pub poll_id: u64,
    pub description: String,
    pub poll_start: u64,
    pub poll_end: u64,
    pub candidate_amount: u64,
}

pub struct PollView {
    pub poll_id: u64,
    pub description: Seq<char>,
    pub poll_start: u64,
    pub poll_end: u64,
    pub candidate_amount: u64,
}

impl View for Poll {
    type V = PollView;

    open spec fn view(&self) -> PollView {
        PollView {
            poll_id: self.poll_id,
            description: self.description@,
            poll_start: self.poll_start,
            poll_end: self.poll_end,
            candidate_amount: self.candidate_amount,
        }
    }
}

/// The poll that creating `poll_id` with these fields yields, if its
/// description fits.
pub open spec fn new_poll(poll_id: u64, description: Seq<char>, poll_start: u64, poll_end: u64) -> PollView {
    PollView { poll_id, description, poll_start, poll_end, candidate_amount: 0 }
}

impl Poll {
    /// Room the fields take at most: the id, the description with its
    /// four-byte length prefix, the two timestamps and the candidate count.
    pub const INIT_SPACE: usize = 8 + 4 + 280 + 8 + 8 + 8;

    /// Builds a poll with no candidates, or fails with `ValidationError` when
    /// the description is longer than `MAX_DESCRIPTION_LEN` code units.
    pub fn new(poll_id: u64, description: String, poll_start: u64, poll_end: u64) -> (r: Result<Poll, VotingError>)
        ensures
            r is Ok <==> text_len(description@) <= MAX_DESCRIPTION_LEN,
            r matches Ok(p) ==> p@ == new_poll(poll_id, description@, poll_start, poll_end),
            r matches Err(e) ==> e == VotingError::ValidationError,
    {
        if code_units(description.as_str()) > MAX_DESCRIPTION_LEN {
            return Err(VotingError::ValidationError);
        }
        Ok(Poll { poll_id, description, poll_start, poll_end, candidate_amount: 0 })
    }

    /// Bytes an account needs to hold a poll: the discriminator and the fields.
    pub fn space() -> (r: usize)
        ensures
            r == DISCRIMINATOR_LEN + Poll::INIT_SPACE,
    {
        DISCRIMINATOR_LEN + Poll::INIT_SPACE
    }
}

/// A candidate of a poll and its tally.
#[derive(Clone, Debug)]
pub struct Candidate {
    pub candidate_name: String,
    pub candidate_votes: u64,
}

pub struct CandidateView {
    pub candidate_name: Seq<char>,
    pub candidate_votes: u64,
}

impl View for Candidate {
    type V = CandidateView;

    open spec fn view(&self) -> CandidateView {
        CandidateView { candidate_name: self.candidate_name@, candidate_votes: self.candidate_votes }
    }
}

/// The candidate that creating `candidate_name` yields, if the name fits.
pub open spec fn new_candidate(candidate_name: Seq<char>) -> CandidateView {
    CandidateView { candidate_name, candidate_votes: 0 }
}

impl Candidate {
    /// Room the fields take at most: the name with its four-byte length
    /// prefix and the tally.
    pub const INIT_SPACE: usize = 4 + 32 + 8;

    /// Builds a candidate with no votes, or fails with `ValidationError` when
    /// the name is longer than `MAX_CANDIDATE_NAME_LEN` code units.
    pub fn new(candidate_name: String) -> (r: Result<Candidate, VotingError>)
        ensures
            r is Ok <==> text_len(candidate_name@) <= MAX_CANDIDATE_NAME_LEN,
            r matches Ok(c) ==> c@ == new_candidate(candidate_name@),
            r matches Err(e) ==> e == VotingError::ValidationError,
    {
        if code_units(candidate_name.as_str()) > MAX_CANDIDATE_NAME_LEN {
            return Err(VotingError::ValidationError);
        }
        Ok(Candidate { candidate_name, candidate_votes: 0 })
    }

    /// Bytes an account needs to hold a candidate: the discriminator and the
    /// fields.
    pub fn space() -> (r: usize)
        ensures
            r == DISCRIMINATOR_LEN + Candidate::INIT_SPACE,
    {
        DISCRIMINATOR_LEN + Candidate::INIT_SPACE
    }
}

} // verus!
