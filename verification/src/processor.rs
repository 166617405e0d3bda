use vstd::prelude::*;
use crate::address::{derive_poll_address, derive_vote_address, poll_pda, vote_pda};
use crate::codec::{
    decode_poll, decode_vote, encode_poll, encode_vote, spec_decode_poll, spec_decode_vote,
    spec_encode_poll, spec_encode_vote, lemma_decoded_poll_encodable,
};
use crate::error::{ProcError, VotingError};
use crate::instruction::{
    parse_instruction, spec_decode_instruction, InstructionView, VotingInstruction,
};
use crate::state::{
    bytes_eq, zero_counts, Identity, Poll, PollView, Vote, VoteView, IDENTITY_LENGTH,
    MAX_POLL_OPTIONS, MAX_POLL_OPTION_LENGTH, MAX_POLL_TITLE_LENGTH, POLL_ACCOUNT_SIZE,
    VOTE_ACCOUNT_SIZE,
};

verus! {

/// A snapshot of one ledger account as a transition sees it: its address,
/// whether its signature was verified by the host, its balance, its owner
/// and its stored bytes.
#[derive(Debug)]
pub struct AccountState {
    pub key: Identity,
    pub is_signer: bool,
    pub lamports: u64,
    pub owner: Identity,
    pub data: Vec<u8>,
}

/// The mathematical model of an account snapshot.
#[verifier::ext_equal]
pub ghost struct AccountView {
    pub key: Seq<u8>,
    pub is_signer: bool,
    pub lamports: u64,
    pub owner: Seq<u8>,
    pub data: Seq<u8>,
}

impl View for AccountState {
    type V = AccountView;

    open spec fn view(&self) -> AccountView {
        AccountView {
            key: self.key@,
            is_signer: self.is_signer,
            lamports: self.lamports,
            owner: self.owner@,
            data: self.data@,
        }
    }
}

impl DeepView for AccountState {
    type V = AccountView;

    open spec fn deep_view(&self) -> AccountView {
        self.view()
    }
}

/// Every account key the host hands in is a 32-byte identity.
pub open spec fn accounts_wf(accounts: Seq<AccountView>) -> bool {
    forall|k: int| 0 <= k < accounts.len() ==> (#[trigger] accounts[k]).key.len()
        == IDENTITY_LENGTH
}

/// The system/allocator collaborator's well-known identity: 32 zero bytes.
pub open spec fn system_program_id() -> Seq<u8> {
    Seq::new(IDENTITY_LENGTH as nat, |i: int| 0u8)
}

fn system_program_id_bytes() -> (r: Vec<u8>)
    ensures
        r@ == system_program_id(),
{
    let mut v: Vec<u8> = Vec::new();
    let mut i: usize = 0;
    while i < IDENTITY_LENGTH
        invariant
            i <= IDENTITY_LENGTH,
            v@.len() == i,
            forall|j: int| 0 <= j < i ==> v@[j] == 0u8,
        decreases IDENTITY_LENGTH - i,
    {
        v.push(0u8);
        i += 1;
    }
    proof {
        assert(v@ =~= system_program_id());
    }
    v
}

// ================================================================ effects
//
// A transition never writes storage itself: it validates, and on success
// hands the host one effect that says exactly what to allocate, fund and
// write. A failed transition hands back nothing, so storage is untouched.

/// What a successful poll creation asks the host to do: allocate `space`
/// bytes at `poll_address` (derived with `bump`), fund them to the minimum
/// persistent balance, and write `poll_record` at the front.
#[derive(Debug)]
pub struct CreatePollEffect {
    pub poll_address: Identity,
    pub bump: u8,
    pub space: usize,
    pub poll_record: Vec<u8>,
}

/// What a successful vote cast asks the host to do, as one indivisible
/// unit: allocate and fund `space` bytes at `vote_address` (derived with
/// `bump`), write `vote_record` there, and overwrite the poll record with
/// `new_poll_record`.
#[derive(Debug)]
pub struct CastVoteEffect {
    pub vote_address: Identity,
    pub bump: u8,
    pub space: usize,
    pub new_poll_record: Vec<u8>,
    pub vote_record: Vec<u8>,
}

/// What a successful poll closing asks the host to do: set the authority's
/// balance to `authority_lamports` and the poll account's balance to
/// `poll_lamports` (always zero), which the host treats as deallocation.
#[derive(Debug)]
pub struct ClosePollEffect {
    pub authority_lamports: u64,
    pub poll_lamports: u64,
}

/// The effect of whichever operation an instruction selected.
#[derive(Debug)]
pub enum Effect {
    Created(CreatePollEffect),
    Voted(CastVoteEffect),
    Closed(ClosePollEffect),
}

/// The mathematical model of an effect.
#[verifier::ext_equal]
pub ghost enum EffectView {
    Created { address: Seq<u8>, bump: u8, space: usize, record: Seq<u8> },
    Voted {
        address: Seq<u8>,
        bump: u8,
        space: usize,
        poll_record: Seq<u8>,
        vote_record: Seq<u8>,
    },
    Closed { authority_lamports: u64, poll_lamports: u64 },
}

impl View for CreatePollEffect {
    type V = EffectView;

    open spec fn view(&self) -> EffectView {
        EffectView::Created {
            address: self.poll_address@,
            bump: self.bump,
            space: self.space,
            record: self.poll_record@,
        }
    }
}

impl View for CastVoteEffect {
    type V = EffectView;

    open spec fn view(&self) -> EffectView {
        EffectView::Voted {
            address: self.vote_address@,
            bump: self.bump,
            space: self.space,
            poll_record: self.new_poll_record@,
            vote_record: self.vote_record@,
        }
    }
}

impl View for ClosePollEffect {
    type V = EffectView;

    open spec fn view(&self) -> EffectView {
        EffectView::Closed {
            authority_lamports: self.authority_lamports,
            poll_lamports: self.poll_lamports,
        }
    }
}

impl View for Effect {
    type V = EffectView;

    open spec fn view(&self) -> EffectView {
        match self {
            Effect::Created(e) => e@,
            Effect::Voted(e) => e@,
            Effect::Closed(e) => e@,
        }
    }
}

// ====================================================== specified outcomes

/// The poll a creation writes: initialized, the given content, the creator
/// as authority, and one zero counter per option.
pub open spec fn created_poll(
    creator: Seq<u8>,
    title: Seq<u8>,
    options: Seq<Seq<u8>>,
    start_time: i64,
    end_time: i64,
) -> PollView {
    PollView {
        is_initialized: true,
        title,
        options,
        authority: creator,
        start_time,
        end_time,
        vote_counts: zero_counts(options.len()),
    }
}

/// The outcome a poll creation is obliged to have, its preconditions
/// checked in order, each with its own failure.
pub open spec fn spec_create_poll(
    creator: AccountView,
    poll_acc: AccountView,
    sys: AccountView,
    program: Seq<u8>,
    title: Seq<u8>,
    options: Seq<Seq<u8>>,
    start_time: i64,
    end_time: i64,
    current_time: i64,
) -> Result<EffectView, ProcError> {
    if !creator.is_signer {
        Err(ProcError::Voting(VotingError::UnauthorizedAccess))
    } else if sys.key != system_program_id() {
        Err(ProcError::Voting(VotingError::InvalidInstruction))
    } else if title.len() > MAX_POLL_TITLE_LENGTH {
        Err(ProcError::Voting(VotingError::InvalidPollTitleLength))
    } else if options.len() < 1 || options.len() > MAX_POLL_OPTIONS {
        Err(ProcError::Voting(VotingError::TooManyPollOptions))
    } else if exists|i: int| 0 <= i < options.len() && options[i].len() > MAX_POLL_OPTION_LENGTH {
        Err(ProcError::Voting(VotingError::InvalidPollOptionLength))
    } else if start_time >= end_time {
        Err(ProcError::Voting(VotingError::PollTimeConstraintError))
    } else if start_time < current_time {
        Err(ProcError::Voting(VotingError::PollTimeConstraintError))
    } else if poll_acc.lamports != 0 {
        Err(ProcError::Voting(VotingError::PollAlreadyExists))
    } else {
        match poll_pda(creator.key, title, program) {
            Some((address, bump)) => if address == poll_acc.key {
                Ok(
                    EffectView::Created {
                        address,
                        bump,
                        space: POLL_ACCOUNT_SIZE,
                        record: spec_encode_poll(
                            created_poll(creator.key, title, options, start_time, end_time),
                        ),
                    },
                )
            } else {
                Err(ProcError::Voting(VotingError::InvalidInstruction))
            },
            None => Err(ProcError::Voting(VotingError::InvalidInstruction)),
        }
    }
}

/// As `spec_create_poll`, over the whole account list.
pub open spec fn spec_create_poll_full(
    accounts: Seq<AccountView>,
    program: Seq<u8>,
    title: Seq<u8>,
    options: Seq<Seq<u8>>,
    start_time: i64,
    end_time: i64,
    current_time: i64,
) -> Result<EffectView, ProcError> {
    if accounts.len() < 3 {
        Err(ProcError::NotEnoughAccounts)
    } else {
        spec_create_poll(
            accounts[0],
            accounts[1],
            accounts[2],
            program,
            title,
            options,
            start_time,
            end_time,
            current_time,
        )
    }
}

/// The outcome a vote cast is obliged to have, its preconditions checked
/// in order, each with its own failure. A stored poll whose counters do
/// not match its options violates the poll invariant and is rejected as
/// malformed.
pub open spec fn spec_cast_vote(
    voter: AccountView,
    poll_acc: AccountView,
    vote_acc: AccountView,
    program: Seq<u8>,
    option_index: u32,
    current_time: i64,
) -> Result<EffectView, ProcError> {
    if !voter.is_signer {
        Err(ProcError::Voting(VotingError::UnauthorizedAccess))
    } else if poll_acc.owner != program {
        Err(ProcError::Voting(VotingError::InvalidAccountOwner))
    } else {
        match spec_decode_poll(poll_acc.data) {
            None => Err(ProcError::Decode),
            Some(poll) => if !poll.is_initialized {
                Err(ProcError::Voting(VotingError::PollDoesNotExist))
            } else if poll.vote_counts.len() != poll.options.len() {
                Err(ProcError::Decode)
            } else if !poll.active_at(current_time) {
                Err(ProcError::Voting(VotingError::PollClosed))
            } else if option_index as int >= poll.options.len() {
                Err(ProcError::Voting(VotingError::InvalidVoteOption))
            } else if vote_acc.lamports != 0 && spec_decode_vote(vote_acc.data) is None {
                Err(ProcError::Decode)
            } else if vote_acc.lamports != 0 && {
                let v = spec_decode_vote(vote_acc.data).unwrap();
                v.is_initialized && v.voter == voter.key && v.poll == poll_acc.key
            } {
                Err(ProcError::Voting(VotingError::UserAlreadyVoted))
            } else {
                match vote_pda(voter.key, poll_acc.key, program) {
                    Some((address, bump)) => if address == vote_acc.key {
                        if poll.vote_counts[option_index as int] == u32::MAX {
                            Err(ProcError::Overflow)
                        } else {
                            Ok(
                                EffectView::Voted {
                                    address,
                                    bump,
                                    space: VOTE_ACCOUNT_SIZE,
                                    poll_record: spec_encode_poll(
                                        PollView {
                                            vote_counts: poll.vote_counts.update(
                                                option_index as int,
                                                (poll.vote_counts[option_index as int] + 1) as u32,
                                            ),
                                            ..poll
                                        },
                                    ),
                                    vote_record: spec_encode_vote(
                                        VoteView {
                                            is_initialized: true,
                                            voter: voter.key,
                                            poll: poll_acc.key,
                                            option_index,
                                        },
                                    ),
                                },
                            )
                        }
                    } else {
                        Err(ProcError::Voting(VotingError::InvalidInstruction))
                    },
                    None => Err(ProcError::Voting(VotingError::InvalidInstruction)),
                }
            },
        }
    }
}

/// As `spec_cast_vote`, over the whole account list.
pub open spec fn spec_cast_vote_full(
    accounts: Seq<AccountView>,
    program: Seq<u8>,
    option_index: u32,
    current_time: i64,
) -> Result<EffectView, ProcError> {
    if accounts.len() < 4 {
        Err(ProcError::NotEnoughAccounts)
    } else {
        spec_cast_vote(accounts[0], accounts[1], accounts[2], program, option_index, current_time)
    }
}

/// The outcome a poll closing is obliged to have: only the poll's
/// authority may reclaim the balance, and the poll's balance goes to zero.
pub open spec fn spec_close_poll(
    authority: AccountView,
    poll_acc: AccountView,
    program: Seq<u8>,
) -> Result<EffectView, ProcError> {
    if !authority.is_signer {
        Err(ProcError::Voting(VotingError::UnauthorizedAccess))
    } else if poll_acc.owner != program {
        Err(ProcError::Voting(VotingError::InvalidAccountOwner))
    } else {
        match spec_decode_poll(poll_acc.data) {
            None => Err(ProcError::Decode),
            Some(poll) => if !poll.is_initialized {
                Err(ProcError::Voting(VotingError::PollDoesNotExist))
            } else if poll.authority != authority.key {
                Err(ProcError::Voting(VotingError::UnauthorizedAccess))
            } else if authority.lamports + poll_acc.lamports > u64::MAX {
                Err(ProcError::Overflow)
            } else {
                Ok(
                    EffectView::Closed {
                        authority_lamports: (authority.lamports + poll_acc.lamports) as u64,
                        poll_lamports: 0u64,
                    },
                )
            },
        }
    }
}

/// As `spec_close_poll`, over the whole account list.
pub open spec fn spec_close_poll_full(
    accounts: Seq<AccountView>,
    program: Seq<u8>,
) -> Result<EffectView, ProcError> {
    if accounts.len() < 2 {
        Err(ProcError::NotEnoughAccounts)
    } else {
        spec_close_poll(accounts[0], accounts[1], program)
    }
}

/// The outcome a whole invocation is obliged to have: decode the envelope,
/// then run the selected operation.
pub open spec fn spec_process(
    accounts: Seq<AccountView>,
    program: Seq<u8>,
    data: Seq<u8>,
    current_time: i64,
) -> Result<EffectView, ProcError> {
    match spec_decode_instruction(data) {
        None => Err(ProcError::Voting(VotingError::InvalidInstruction)),
        Some(InstructionView::CreatePoll { title, options, start_time, end_time }) =>
            spec_create_poll_full(
            accounts,
            program,
            title,
            options,
            start_time,
            end_time,
            current_time,
        ),
        Some(InstructionView::CastVote { option_index }) => spec_cast_vote_full(
            accounts,
            program,
            option_index,
            current_time,
        ),
        Some(InstructionView::ClosePoll) => spec_close_poll_full(accounts, program),
    }
}

// ====================================================== exec transitions

/// Validate and execute a poll creation, as `spec_create_poll_full`
/// prescribes: every precondition is checked in order, and on success the
/// effect carries the derived address, its bump, the fixed allocation size
/// and the encoded poll record with every counter at zero.
#[verifier::loop_isolation(false)]
pub fn process_create_poll(
    accounts: &Vec<AccountState>,
    program_id: &Identity,
    title: Vec<u8>,
    options: Vec<Vec<u8>>,
    start_time: i64,
    end_time: i64,
    current_time: i64,
) -> (r: Result<CreatePollEffect, ProcError>)
    requires
        program_id.wf(),
        accounts_wf(accounts.deep_view()),
    ensures
        match r {
            Ok(e) => spec_create_poll_full(
                accounts.deep_view(),
                program_id@,
                title@,
                options.deep_view(),
                start_time,
                end_time,
                current_time,
            ) == Ok::<EffectView, ProcError>(e@),
            Err(er) => spec_create_poll_full(
                accounts.deep_view(),
                program_id@,
                title@,
                options.deep_view(),
                start_time,
                end_time,
                current_time,
            ) == Err::<EffectView, ProcError>(er),
        },
{
    if accounts.len() < 3 {
        return Err(ProcError::NotEnoughAccounts);
    }
    let creator = &accounts[0];
    let poll_account = &accounts[1];
    let system_program = &accounts[2];
    proof {
        assert(accounts.deep_view()[0] == accounts@[0]@);
        assert(accounts.deep_view()[1] == accounts@[1]@);
        assert(accounts.deep_view()[2] == accounts@[2]@);
    }
    if !creator.is_signer {
        return Err(ProcError::Voting(VotingError::UnauthorizedAccess));
    }
    let sys_id = system_program_id_bytes();
    if !bytes_eq(&system_program.key.bytes, &sys_id) {
        return Err(ProcError::Voting(VotingError::InvalidInstruction));
    }
    if title.len() > MAX_POLL_TITLE_LENGTH {
        return Err(ProcError::Voting(VotingError::InvalidPollTitleLength));
    }
    if options.len() < 1 || options.len() > MAX_POLL_OPTIONS {
        return Err(ProcError::Voting(VotingError::TooManyPollOptions));
    }
    let mut i: usize = 0;
    while i < options.len()
        invariant
            i <= options@.len(),
            forall|k: int|
                0 <= k < i ==> (#[trigger] options.deep_view()[k]).len()
                    <= MAX_POLL_OPTION_LENGTH,
        decreases options@.len() - i,
    {
        proof {
            assert(options.deep_view()[i as int] == options@[i as int]@);
        }
        if options[i].len() > MAX_POLL_OPTION_LENGTH {
            proof {
                let w = i as int;
                assert(0 <= w < options.deep_view().len() && options.deep_view()[w].len()
                    > MAX_POLL_OPTION_LENGTH);
                assert(exists|k: int|
                    0 <= k < options.deep_view().len() && options.deep_view()[k].len()
                        > MAX_POLL_OPTION_LENGTH);
            }
            return Err(ProcError::Voting(VotingError::InvalidPollOptionLength));
        }
        i += 1;
    }
    if start_time >= end_time {
        return Err(ProcError::Voting(VotingError::PollTimeConstraintError));
    }
    if start_time < current_time {
        return Err(ProcError::Voting(VotingError::PollTimeConstraintError));
    }
    if poll_account.lamports != 0 {
        return Err(ProcError::Voting(VotingError::PollAlreadyExists));
    }
    match derive_poll_address(&creator.key, &title, program_id) {
        Some((address, bump)) => {
            if !address.same_as(&poll_account.key) {
                return Err(ProcError::Voting(VotingError::InvalidInstruction));
            }
            let authority = creator.key.duplicate();
            let ghost expected = created_poll(
                creator.key@,
                title@,
                options.deep_view(),
                start_time,
                end_time,
            );
            let poll = Poll::new(title, options, authority, start_time, end_time);
            proof {
                assert(poll@ =~= expected);
            }
            let poll_record = encode_poll(&poll);
            Ok(
                CreatePollEffect {
                    poll_address: address,
                    bump,
                    space: POLL_ACCOUNT_SIZE,
                    poll_record,
                },
            )
        },
        None => Err(ProcError::Voting(VotingError::InvalidInstruction)),
    }
}

/// Validate and execute a vote cast, as `spec_cast_vote_full` prescribes:
/// on success the effect carries the derived vote address with its bump
/// and size, the poll record with exactly the chosen counter incremented
/// by one, and the new vote record binding the voter to the poll.
pub fn process_cast_vote(
    accounts: &Vec<AccountState>,
    program_id: &Identity,
    option_index: u32,
    current_time: i64,
) -> (r: Result<CastVoteEffect, ProcError>)
    requires
        program_id.wf(),
        accounts_wf(accounts.deep_view()),
    ensures
        match r {
            Ok(e) => spec_cast_vote_full(
                accounts.deep_view(),
                program_id@,
                option_index,
                current_time,
            ) == Ok::<EffectView, ProcError>(e@),
            Err(er) => spec_cast_vote_full(
                accounts.deep_view(),
                program_id@,
                option_index,
                current_time,
            ) == Err::<EffectView, ProcError>(er),
        },
{
    if accounts.len() < 4 {
        return Err(ProcError::NotEnoughAccounts);
    }
    let voter = &accounts[0];
    let poll_account = &accounts[1];
    let vote_account = &accounts[2];
    proof {
        assert(accounts.deep_view()[0] == accounts@[0]@);
        assert(accounts.deep_view()[1] == accounts@[1]@);
        assert(accounts.deep_view()[2] == accounts@[2]@);
    }
    if !voter.is_signer {
        return Err(ProcError::Voting(VotingError::UnauthorizedAccess));
    }
    if !poll_account.owner.same_as(program_id) {
        return Err(ProcError::Voting(VotingError::InvalidAccountOwner));
    }
    let poll = match decode_poll(&poll_account.data) {
        Some(p) => p,
        None => {
            return Err(ProcError::Decode);
        },
    };
    if !poll.is_initialized() {
        return Err(ProcError::Voting(VotingError::PollDoesNotExist));
    }
    if poll.vote_counts.len() != poll.options.len() {
        return Err(ProcError::Decode);
    }
    if !poll.is_active(current_time) {
        return Err(ProcError::Voting(VotingError::PollClosed));
    }
    if option_index as usize >= poll.options.len() {
        return Err(ProcError::Voting(VotingError::InvalidVoteOption));
    }
    if vote_account.lamports != 0 {
        let vote = match decode_vote(&vote_account.data) {
            Some(v) => v,
            None => {
                return Err(ProcError::Decode);
            },
        };
        if vote.is_initialized() && vote.voter.same_as(&voter.key) && vote.poll.same_as(
            &poll_account.key,
        ) {
            return Err(ProcError::Voting(VotingError::UserAlreadyVoted));
        }
    }
    match derive_vote_address(&voter.key, &poll_account.key, program_id) {
        Some((address, bump)) => {
            if !address.same_as(&vote_account.key) {
                return Err(ProcError::Voting(VotingError::InvalidInstruction));
            }
            let idx = option_index as usize;
            let count = poll.vote_counts[idx];
            if count == u32::MAX {
                return Err(ProcError::Overflow);
            }
            let ghost before = poll@;
            let mut poll = poll;
            poll.vote_counts.set(idx, count + 1);
            proof {
                lemma_decoded_poll_encodable(poll_account.data@);
                assert(poll@ =~= (PollView {
                    vote_counts: before.vote_counts.update(
                        option_index as int,
                        (before.vote_counts[option_index as int] + 1) as u32,
                    ),
                    ..before
                }));
            }
            let new_poll_record = encode_poll(&poll);
            let vote = Vote::new(voter.key.duplicate(), poll_account.key.duplicate(), option_index);
            let vote_record = encode_vote(&vote);
            Ok(
                CastVoteEffect {
                    vote_address: address,
                    bump,
                    space: VOTE_ACCOUNT_SIZE,
                    new_poll_record,
                    vote_record,
                },
            )
        },
        None => Err(ProcError::Voting(VotingError::InvalidInstruction)),
    }
}

/// Validate and execute a poll closing, as `spec_close_poll_full`
/// prescribes: only the poll's authority may close it, the whole balance
/// moves to the authority, and the poll's balance goes to zero.
pub fn process_close_poll(accounts: &Vec<AccountState>, program_id: &Identity) -> (r: Result<
    ClosePollEffect,
    ProcError,
>)
    requires
        program_id.wf(),
        accounts_wf(accounts.deep_view()),
    ensures
        match r {
            Ok(e) => spec_close_poll_full(accounts.deep_view(), program_id@) == Ok::<
                EffectView,
                ProcError,
            >(e@),
            Err(er) => spec_close_poll_full(accounts.deep_view(), program_id@) == Err::<
                EffectView,
                ProcError,
            >(er),
        },
{
    if accounts.len() < 2 {
        return Err(ProcError::NotEnoughAccounts);
    }
    let authority = &accounts[0];
    let poll_account = &accounts[1];
    proof {
        assert(accounts.deep_view()[0] == accounts@[0]@);
        assert(accounts.deep_view()[1] == accounts@[1]@);
    }
    if !authority.is_signer {
        return Err(ProcError::Voting(VotingError::UnauthorizedAccess));
    }
    if !poll_account.owner.same_as(program_id) {
        return Err(ProcError::Voting(VotingError::InvalidAccountOwner));
    }
    let poll = match decode_poll(&poll_account.data) {
        Some(p) => p,
        None => {
            return Err(ProcError::Decode);
        },
    };
    if !poll.is_initialized() {
        return Err(ProcError::Voting(VotingError::PollDoesNotExist));
    }
    if !poll.authority.same_as(&authority.key) {
        return Err(ProcError::Voting(VotingError::UnauthorizedAccess));
    }
    if poll_account.lamports > u64::MAX - authority.lamports {
        return Err(ProcError::Overflow);
    }
    Ok(
        ClosePollEffect {
            authority_lamports: authority.lamports + poll_account.lamports,
            poll_lamports: 0,
        },
    )
}

/// Decode an instruction envelope and run the operation it selects, as
/// `spec_process` prescribes; a malformed envelope is rejected before any
/// account is looked at.
pub fn process_instruction(
    program_id: &Identity,
    accounts: &Vec<AccountState>,
    instruction_data: &Vec<u8>,
    current_time: i64,
) -> (r: Result<Effect, ProcError>)
    requires
        program_id.wf(),
        accounts_wf(accounts.deep_view()),
    ensures
        match r {
            Ok(e) => spec_process(
                accounts.deep_view(),
                program_id@,
                instruction_data@,
                current_time,
            ) == Ok::<EffectView, ProcError>(e@),
            Err(er) => spec_process(
                accounts.deep_view(),
                program_id@,
                instruction_data@,
                current_time,
            ) == Err::<EffectView, ProcError>(er),
        },
{
    let ix = match parse_instruction(instruction_data) {
        Some(ix) => ix,
        None => {
            return Err(ProcError::Voting(VotingError::InvalidInstruction));
        },
    };
    match ix {
        VotingInstruction::CreatePoll { title, options, start_time, end_time } => {
            match process_create_poll(
                accounts,
                program_id,
                title,
                options,
                start_time,
                end_time,
                current_time,
            ) {
                Ok(e) => Ok(Effect::Created(e)),
                Err(er) => Err(er),
            }
        },
        VotingInstruction::CastVote { option_index } => {
            match process_cast_vote(accounts, program_id, option_index, current_time) {
                Ok(e) => Ok(Effect::Voted(e)),
                Err(er) => Err(er),
            }
        },
        VotingInstruction::ClosePoll {  } => {
            match process_close_poll(accounts, program_id) {
                Ok(e) => Ok(Effect::Closed(e)),
                Err(er) => Err(er),
            }
        },
    }
}

} // verus!
