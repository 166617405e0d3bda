use vstd::prelude::*;

verus! {

/// The stable failure taxonomy of the voting program.
///
/// Each variant is surfaced to callers as a fixed numeric code, given by
/// `code`, in declaration order.
#[derive(Clone, Copy, Debug, PartialEq, Eq, Structural)]
pub enum VotingError {
    InvalidInstruction,
    NotRentExempt,
    PollAlreadyExists,
    PollDoesNotExist,
    PollClosed,
    UnauthorizedAccess,
    InvalidPollTitleLength,
    InvalidPollOptionLength,
    TooManyPollOptions,
    UserAlreadyVoted,
    InvalidVoteOption,
    PollTimeConstraintError,
    InvalidAccountOwner,
}

impl VotingError {
    /// The numeric code of this error, in declaration order.
    pub open spec fn spec_code(self) -> u32 {
        match self {
            VotingError::InvalidInstruction => 0,
            VotingError::NotRentExempt => 1,
            VotingError::PollAlreadyExists => 2,
            VotingError::PollDoesNotExist => 3,
            VotingError::PollClosed => 4,
            VotingError::UnauthorizedAccess => 5,
            VotingError::InvalidPollTitleLength => 6,
            VotingError::InvalidPollOptionLength => 7,
            VotingError::TooManyPollOptions => 8,
            VotingError::UserAlreadyVoted => 9,
            VotingError::InvalidVoteOption => 10,
            VotingError::PollTimeConstraintError => 11,
            VotingError::InvalidAccountOwner => 12,
        }
    }

    /// The numeric code surfaced to the hosting ledger for this error.
    pub fn code(&self) -> (c: u32)
        ensures
            c == self.spec_code(),
    {
        match self {
            VotingError::InvalidInstruction => 0,
            VotingError::NotRentExempt => 1,
            VotingError::PollAlreadyExists => 2,
            VotingError::PollDoesNotExist => 3,
            VotingError::PollClosed => 4,
            VotingError::UnauthorizedAccess => 5,
            VotingError::InvalidPollTitleLength => 6,
            VotingError::InvalidPollOptionLength => 7,
            VotingError::TooManyPollOptions => 8,
            VotingError::UserAlreadyVoted => 9,
            VotingError::InvalidVoteOption => 10,
            VotingError::PollTimeConstraintError => 11,
            VotingError::InvalidAccountOwner => 12,
        }
    }
}

/// How a whole state transition can fail: with one of the program's own
/// error codes, because a stored record did not decode, because the
/// instruction's account list is too short, or because a balance or counter
/// addition would overflow.
#[derive(Clone, Copy, Debug, PartialEq, Eq, Structural)]
pub enum ProcError {
    Voting(VotingError),
    Decode,
    NotEnoughAccounts,
    Overflow,
}

} // verus!
