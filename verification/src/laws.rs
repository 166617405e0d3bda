use vstd::prelude::*;
use crate::codec::{
    lemma_poll_roundtrip, lemma_vote_roundtrip, spec_decode_poll, spec_encode_poll,
    spec_encode_vote,
};
use crate::error::{ProcError, VotingError};
use crate::processor::{
    created_poll, spec_cast_vote, spec_close_poll, spec_create_poll_full, system_program_id,
    AccountView,
};
use crate::state::{
    PollView, VoteView, IDENTITY_LENGTH, MAX_POLL_OPTIONS, MAX_POLL_OPTION_LENGTH,
    MAX_POLL_TITLE_LENGTH,
};

verus! {

/// For every valid creation input, the record a creation writes — read
/// back from its fixed-size allocation, whatever padding follows it —
/// is the created poll itself, and its counters are a zero vector of the
/// same length as its options.
pub proof fn law_created_poll_decodes(
    creator: Seq<u8>,
    title: Seq<u8>,
    options: Seq<Seq<u8>>,
    start_time: i64,
    end_time: i64,
    rest: Seq<u8>,
)
    requires
        creator.len() == IDENTITY_LENGTH,
        title.len() <= MAX_POLL_TITLE_LENGTH,
        1 <= options.len() <= MAX_POLL_OPTIONS,
        forall|i: int|
            0 <= i < options.len() ==> (#[trigger] options[i]).len() <= MAX_POLL_OPTION_LENGTH,
    ensures
        ({
            let p = created_poll(creator, title, options, start_time, end_time);
            &&& spec_decode_poll(spec_encode_poll(p) + rest) == Some(p)
            &&& p.vote_counts.len() == options.len()
            &&& forall|i: int| 0 <= i < p.vote_counts.len() ==> p.vote_counts[i] == 0u32
        }),
{
    let p = created_poll(creator, title, options, start_time, end_time);
    assert(p.encodable());
    lemma_poll_roundtrip(p, rest);
}

/// A creation whose window is empty — start time at or after end time —
/// always fails with PollTimeConstraintError, for any otherwise-valid
/// inputs.
pub proof fn law_rejects_empty_window(
    accounts: Seq<AccountView>,
    program: Seq<u8>,
    title: Seq<u8>,
    options: Seq<Seq<u8>>,
    start_time: i64,
    end_time: i64,
    current_time: i64,
)
    requires
        accounts.len() >= 3,
        accounts[0].is_signer,
        accounts[2].key == system_program_id(),
        title.len() <= MAX_POLL_TITLE_LENGTH,
        1 <= options.len() <= MAX_POLL_OPTIONS,
        forall|i: int|
            0 <= i < options.len() ==> (#[trigger] options[i]).len() <= MAX_POLL_OPTION_LENGTH,
        start_time >= end_time,
    ensures
        spec_create_poll_full(
            accounts,
            program,
            title,
            options,
            start_time,
            end_time,
            current_time,
        ) == Err::<crate::processor::EffectView, ProcError>(
            ProcError::Voting(VotingError::PollTimeConstraintError),
        ),
{
}

/// A creation whose start time lies before the current ledger time fails
/// with PollTimeConstraintError, for any otherwise-valid inputs.
pub proof fn law_rejects_past_start(
    accounts: Seq<AccountView>,
    program: Seq<u8>,
    title: Seq<u8>,
    options: Seq<Seq<u8>>,
    start_time: i64,
    end_time: i64,
    current_time: i64,
)
    requires
        accounts.len() >= 3,
        accounts[0].is_signer,
        accounts[2].key == system_program_id(),
        title.len() <= MAX_POLL_TITLE_LENGTH,
        1 <= options.len() <= MAX_POLL_OPTIONS,
        forall|i: int|
            0 <= i < options.len() ==> (#[trigger] options[i]).len() <= MAX_POLL_OPTION_LENGTH,
        start_time < end_time,
        start_time < current_time,
    ensures
        spec_create_poll_full(
            accounts,
            program,
            title,
            options,
            start_time,
            end_time,
            current_time,
        ) == Err::<crate::processor::EffectView, ProcError>(
            ProcError::Voting(VotingError::PollTimeConstraintError),
        ),
{
}

/// Casting a vote with an option index at or beyond the poll's option
/// count fails with InvalidVoteOption; no effect is produced, so the
/// stored counters are untouched.
pub proof fn law_rejects_bad_option(
    voter: AccountView,
    poll_acc: AccountView,
    vote_acc: AccountView,
    program: Seq<u8>,
    option_index: u32,
    current_time: i64,
)
    requires
        voter.is_signer,
        poll_acc.owner == program,
        spec_decode_poll(poll_acc.data) matches Some(p) && p.is_initialized
            && p.vote_counts.len() == p.options.len() && p.active_at(current_time)
            && option_index as int >= p.options.len(),
    ensures
        spec_cast_vote(voter, poll_acc, vote_acc, program, option_index, current_time) == Err::<
            crate::processor::EffectView,
            ProcError,
        >(ProcError::Voting(VotingError::InvalidVoteOption)),
{
}

/// A successful cast changes exactly one counter, by exactly one: the
/// written poll record decodes to the same poll with the chosen counter
/// incremented and every other field and counter unchanged.
pub proof fn law_vote_updates_one_counter(p: PollView, option_index: u32, rest: Seq<u8>)
    requires
        p.encodable(),
        p.vote_counts.len() == p.options.len(),
        (option_index as int) < p.options.len(),
        p.vote_counts[option_index as int] < u32::MAX,
    ensures
        ({
            let q = PollView {
                vote_counts: p.vote_counts.update(
                    option_index as int,
                    (p.vote_counts[option_index as int] + 1) as u32,
                ),
                ..p
            };
            &&& spec_decode_poll(spec_encode_poll(q) + rest) == Some(q)
            &&& q.vote_counts[option_index as int] == p.vote_counts[option_index as int] + 1
            &&& forall|i: int|
                0 <= i < p.vote_counts.len() && i != option_index ==> q.vote_counts[i]
                    == p.vote_counts[i]
            &&& q.title == p.title
            &&& q.options == p.options
            &&& q.authority == p.authority
            &&& q.start_time == p.start_time
            &&& q.end_time == p.end_time
        }),
{
    let q = PollView {
        vote_counts: p.vote_counts.update(
            option_index as int,
            (p.vote_counts[option_index as int] + 1) as u32,
        ),
        ..p
    };
    assert(q.encodable());
    lemma_poll_roundtrip(q, rest);
}

/// A second cast from the same voter against the same poll is rejected:
/// once the vote record written by the first cast sits funded at the vote
/// address, the same transition fails with UserAlreadyVoted, whatever
/// option it asks for; no effect is produced, so all counters stay as
/// they are.
pub proof fn law_second_vote_rejected(
    voter: AccountView,
    poll_acc: AccountView,
    vote_acc: AccountView,
    program: Seq<u8>,
    first: VoteView,
    option_index: u32,
    current_time: i64,
    rest: Seq<u8>,
)
    requires
        voter.is_signer,
        poll_acc.owner == program,
        voter.key.len() == IDENTITY_LENGTH,
        poll_acc.key.len() == IDENTITY_LENGTH,
        spec_decode_poll(poll_acc.data) matches Some(p) && p.is_initialized
            && p.vote_counts.len() == p.options.len() && p.active_at(current_time)
            && (option_index as int) < p.options.len(),
        first.is_initialized,
        first.voter == voter.key,
        first.poll == poll_acc.key,
        vote_acc.lamports != 0,
        vote_acc.data == spec_encode_vote(first) + rest,
    ensures
        spec_cast_vote(voter, poll_acc, vote_acc, program, option_index, current_time) == Err::<
            crate::processor::EffectView,
            ProcError,
        >(ProcError::Voting(VotingError::UserAlreadyVoted)),
{
    assert(first.wf());
    lemma_vote_roundtrip(first, rest);
}

/// Closing a poll under any identity other than its authority fails with
/// UnauthorizedAccess; no effect is produced, so the poll's storage and
/// balance are untouched.
pub proof fn law_close_requires_authority(
    authority: AccountView,
    poll_acc: AccountView,
    program: Seq<u8>,
)
    requires
        authority.is_signer,
        poll_acc.owner == program,
        spec_decode_poll(poll_acc.data) matches Some(p) && p.is_initialized && p.authority
            != authority.key,
    ensures
        spec_close_poll(authority, poll_acc, program) == Err::<
            crate::processor::EffectView,
            ProcError,
        >(ProcError::Voting(VotingError::UnauthorizedAccess)),
{
}

} // verus!
