use anchor_lang::prelude::Pubkey;
use vstd::bytes::{spec_u64_to_le_bytes, u64_to_le_bytes, lemma_auto_spec_u64_to_from_le_bytes};
use vstd::prelude::*;
use vstd::utf8::{encode_utf8, encode_utf8_decode_utf8};

use crate::error::VotingError;

verus! {

/// What `Pubkey::try_find_program_address` returns for the given seeds and
/// program id: the derived address and its bump seed, or nothing.
pub uninterp spec fn program_address(seeds: Seq<Seq<u8>>, program_id: Seq<u8>) -> Option<(Seq<u8>, u8)>;

/// The seeds of a poll's address: the poll id in little-endian order.
pub open spec fn poll_seeds(poll_id: u64) -> Seq<Seq<u8>> {
    seq![spec_u64_to_le_bytes(poll_id)]
}

/// The seeds of a candidate's address: the poll id in little-endian order,
/// then the candidate's name as UTF-8.
pub open spec fn candidate_seeds(poll_id: u64, candidate_name: Seq<char>) -> Seq<Seq<u8>> {
    seq![spec_u64_to_le_bytes(poll_id), encode_utf8(candidate_name)]
}

/// A derived address and the bump seed that moved it off the curve.
#[derive(Clone, Copy, Debug, PartialEq, Eq)]
pub struct ProgramAddress {
    pub address: [u8; 32],
    pub bump: u8,
}

/// Relies on `Pubkey::try_find_program_address`: a function of the seeds and
/// the program id alone (a SHA-256 digest tried against each bump seed).
#[verifier::external_body]
fn find_program_address(seeds: &Vec<Vec<u8>>, program_id: &[u8; 32]) -> (r: Option<([u8; 32], u8)>)
    ensures
        match r {
            Some((a, b)) => program_address(seeds.deep_view(), program_id@) == Some((a@, b)),
            None => program_address(seeds.deep_view(), program_id@) is None,
        },
{
    let parts: Vec<&[u8]> = seeds.iter().map(|s| s.as_slice()).collect();
    let program = Pubkey::new_from_array(*program_id);
    Pubkey::try_find_program_address(&parts, &program).map(|(k, b)| (k.to_bytes(), b))
}

/// Derives the address for `seeds` under `program_id`.
pub fn derive_address(seeds: &Vec<Vec<u8>>, program_id: &[u8; 32]) -> (r: Result<ProgramAddress, VotingError>)
    ensures
        match program_address(seeds.deep_view(), program_id@) {
            Some((a, b)) => r matches Ok(p) && p.address@ == a && p.bump == b,
            None => r == Err::<ProgramAddress, VotingError>(VotingError::DerivationExhausted),
        },
{
    match find_program_address(seeds, program_id) {
        Some((address, bump)) => Ok(ProgramAddress { address, bump }),
        None => Err(VotingError::DerivationExhausted),
    }
}

/// The seeds of the poll `poll_id`.
pub fn poll_seed_bytes(poll_id: u64) -> (r: Vec<Vec<u8>>)
    ensures
        r.deep_view() == poll_seeds(poll_id),
{
    let id = u64_to_le_bytes(poll_id);
    assert(id.deep_view() =~= id@);
    let mut r: Vec<Vec<u8>> = Vec::new();
    r.push(id);
    assert(r.deep_view() =~= poll_seeds(poll_id));
    r
}

/// The seeds of the candidate `candidate_name` of the poll `poll_id`.
pub fn candidate_seed_bytes(poll_id: u64, candidate_name: &str) -> (r: Vec<Vec<u8>>)
    ensures
        r.deep_view() == candidate_seeds(poll_id, candidate_name@),
{
    let id = u64_to_le_bytes(poll_id);
    let name = vstd::slice::slice_to_vec(candidate_name.as_bytes());
    assert(id.deep_view() =~= id@);
    assert(name.deep_view() =~= name@);
    let mut r: Vec<Vec<u8>> = Vec::new();
    r.push(id);
    r.push(name);
    assert(r.deep_view() =~= candidate_seeds(poll_id, candidate_name@));
    r
}

/// Derives the address of the poll `poll_id`.
pub fn poll_address(poll_id: u64, program_id: &[u8; 32]) -> (r: Result<ProgramAddress, VotingError>)
    ensures
        match program_address(poll_seeds(poll_id), program_id@) {
            Some((a, b)) => r matches Ok(p) && p.address@ == a && p.bump == b,
            None => r == Err::<ProgramAddress, VotingError>(VotingError::DerivationExhausted),
        },
{
    let seeds = poll_seed_bytes(poll_id);
    derive_address(&seeds, program_id)
}

/// Derives the address of the candidate `candidate_name` of the poll `poll_id`.
pub fn candidate_address(poll_id: u64, candidate_name: &str, program_id: &[u8; 32]) -> (r: Result<ProgramAddress, VotingError>)
    ensures
        match program_address(candidate_seeds(poll_id, candidate_name@), program_id@) {
            Some((a, b)) => r matches Ok(p) && p.address@ == a && p.bump == b,
            None => r == Err::<ProgramAddress, VotingError>(VotingError::DerivationExhausted),
        },
{
    let seeds = candidate_seed_bytes(poll_id, candidate_name);
    derive_address(&seeds, program_id)
}

/// Distinct poll ids give distinct seeds, so a poll's address is a function
/// of its id and two polls share an address only if their ids agree.
pub proof fn lemma_poll_seeds_injective(a: u64, b: u64)
    ensures
        poll_seeds(a) == poll_seeds(b) <==> a == b,
{
    lemma_auto_spec_u64_to_from_le_bytes();
    if poll_seeds(a) == poll_seeds(b) {
        assert(poll_seeds(a)[0] == poll_seeds(b)[0]);
    }
}

/// Distinct (poll id, candidate name) pairs give distinct seeds, and a
/// candidate's seeds never coincide with a poll's.
pub proof fn lemma_candidate_seeds_injective(a: u64, name_a: Seq<char>, b: u64, name_b: Seq<char>)
    ensures
        candidate_seeds(a, name_a) == candidate_seeds(b, name_b) <==> (a == b && name_a == name_b),
        candidate_seeds(a, name_a) != poll_seeds(b),
{
    lemma_auto_spec_u64_to_from_le_bytes();
    if candidate_seeds(a, name_a) == candidate_seeds(b, name_b) {
        assert(candidate_seeds(a, name_a)[0] == candidate_seeds(b, name_b)[0]);
        assert(candidate_seeds(a, name_a)[1] == candidate_seeds(b, name_b)[1]);
        encode_utf8_decode_utf8(name_a);
        encode_utf8_decode_utf8(name_b);
    }
    assert(candidate_seeds(a, name_a).len() != poll_seeds(b).len());
}

} // verus!
