use vstd::prelude::*;
use crate::state::{Identity, IDENTITY_LENGTH};

verus! {

/// What the ledger's address derivation returns for a three-part seed
/// tuple under a program id: a 32-byte derived address together with the
/// bump that disambiguates it, or nothing in the statistically improbable
/// case that no bump yields a valid address (and whenever a seed exceeds
/// the derivation's 32-byte seed limit). The derivation is deterministic:
/// it depends on its arguments alone.
pub uninterp spec fn pda_of(
    seed_a: Seq<u8>,
    seed_b: Seq<u8>,
    seed_c: Seq<u8>,
    program: Seq<u8>,
) -> Option<(Seq<u8>, u8)>;

/// Relies on solana_program::pubkey::Pubkey::try_find_program_address: it
/// hashes the seeds, a candidate bump and the program id (SHA-256 under a
/// fixed domain marker), rejecting candidates that lie on the ed25519
/// curve, so its result is a function of the arguments alone; a returned
/// address is 32 bytes.
#[verifier::external_body]
fn derive_address(seed_a: &Vec<u8>, seed_b: &Vec<u8>, seed_c: &Vec<u8>, program: &Vec<u8>) -> (r:
    Option<(Vec<u8>, u8)>)
    requires
        program@.len() == IDENTITY_LENGTH,
    ensures
        match r {
            Some(v) => pda_of(seed_a@, seed_b@, seed_c@, program@) == Some((v.0@, v.1))
                && v.0@.len() == IDENTITY_LENGTH,
            None => pda_of(seed_a@, seed_b@, seed_c@, program@) is None,
        },
{
    let mut pid_bytes = [0u8; 32];
    pid_bytes.copy_from_slice(program.as_slice());
    let pid = solana_program::pubkey::Pubkey::new_from_array(pid_bytes);
    let seeds: [&[u8]; 3] = [seed_a.as_slice(), seed_b.as_slice(), seed_c.as_slice()];
    match solana_program::pubkey::Pubkey::try_find_program_address(&seeds, &pid) {
        Some((pk, bump)) => Some((pk.to_bytes().to_vec(), bump)),
        None => None,
    }
}

/// The seed prefix of poll addresses: the bytes of "poll".
pub open spec fn poll_seed() -> Seq<u8> {
    seq![112u8, 111u8, 108u8, 108u8]
}

/// The seed prefix of vote addresses: the bytes of "vote".
pub open spec fn vote_seed() -> Seq<u8> {
    seq![118u8, 111u8, 116u8, 101u8]
}

fn poll_seed_bytes() -> (r: Vec<u8>)
    ensures
        r@ == poll_seed(),
{
    let mut v: Vec<u8> = Vec::new();
    v.push(112);
    v.push(111);
    v.push(108);
    v.push(108);
    proof {
        assert(v@ =~= poll_seed());
    }
    v
}

fn vote_seed_bytes() -> (r: Vec<u8>)
    ensures
        r@ == vote_seed(),
{
    let mut v: Vec<u8> = Vec::new();
    v.push(118);
    v.push(111);
    v.push(116);
    v.push(101);
    proof {
        assert(v@ =~= vote_seed());
    }
    v
}

/// The storage address of the poll a creator makes under a given title.
pub open spec fn poll_pda(creator: Seq<u8>, title: Seq<u8>, program: Seq<u8>) -> Option<
    (Seq<u8>, u8),
> {
    pda_of(poll_seed(), creator, title, program)
}

/// The storage address of the vote a voter casts on a given poll. The
/// address is deterministic in (voter, poll), which is what makes it the
/// uniqueness key for one-vote-per-voter.
pub open spec fn vote_pda(voter: Seq<u8>, poll: Seq<u8>, program: Seq<u8>) -> Option<
    (Seq<u8>, u8),
> {
    pda_of(vote_seed(), voter, poll, program)
}

/// Derive the storage address for a poll from its creator and title.
pub fn derive_poll_address(creator: &Identity, title: &Vec<u8>, program: &Identity) -> (r: Option<
    (Identity, u8),
>)
    requires
        program.wf(),
    ensures
        match r {
            Some(v) => poll_pda(creator@, title@, program@) == Some((v.0@, v.1)) && v.0.wf(),
            None => poll_pda(creator@, title@, program@) is None,
        },
{
    let seed = poll_seed_bytes();
    match derive_address(&seed, &creator.bytes, title, &program.bytes) {
        Some((b, bump)) => Some((Identity { bytes: b }, bump)),
        None => None,
    }
}

/// Derive the storage address for a vote from its voter and poll address.
pub fn derive_vote_address(voter: &Identity, poll: &Identity, program: &Identity) -> (r: Option<
    (Identity, u8),
>)
    requires
        program.wf(),
    ensures
        match r {
            Some(v) => vote_pda(voter@, poll@, program@) == Some((v.0@, v.1)) && v.0.wf(),
            None => vote_pda(voter@, poll@, program@) is None,
        },
{
    let seed = vote_seed_bytes();
    match derive_address(&seed, &voter.bytes, &poll.bytes, &program.bytes) {
        Some((b, bump)) => Some((Identity { bytes: b }, bump)),
        None => None,
    }
}

} // verus!
