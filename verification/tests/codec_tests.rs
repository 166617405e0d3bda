use voting_program::codec::{decode_poll, decode_vote, encode_poll, encode_vote};
use voting_program::error::{ProcError, VotingError};
use voting_program::instruction::{encode_instruction, parse_instruction, VotingInstruction};
use voting_program::processor::{process_instruction, AccountState, Effect};
use voting_program::state::{Identity, Poll, Vote};

fn id(b: u8) -> Identity {
    Identity::new(vec![b; 32])
}

fn sample_poll() -> Poll {
    Poll::new(
        b"Test Poll".to_vec(),
        vec![b"Option 1".to_vec(), b"Option 2".to_vec(), b"Option 3".to_vec()],
        id(1),
        100,
        3600,
    )
}

#[test]
fn test_poll_record_roundtrip() {
    let poll = sample_poll();
    let mut bytes = encode_poll(&poll);
    // The record sits at the front of a larger zeroed allocation.
    bytes.resize(bytes.len() + 64, 0);
    let back = decode_poll(&bytes).unwrap();
    assert!(back.is_initialized);
    assert_eq!(back.title, poll.title);
    assert_eq!(back.options, poll.options);
    assert_eq!(back.authority.bytes, poll.authority.bytes);
    assert_eq!(back.start_time, 100);
    assert_eq!(back.end_time, 3600);
    assert_eq!(back.vote_counts, vec![0u32, 0, 0]);
}

#[test]
fn test_vote_record_roundtrip() {
    let vote = Vote::new(id(2), id(3), 1);
    let mut bytes = encode_vote(&vote);
    bytes.resize(bytes.len() + 16, 0);
    let back = decode_vote(&bytes).unwrap();
    assert!(back.is_initialized);
    assert_eq!(back.voter.bytes, vec![2u8; 32]);
    assert_eq!(back.poll.bytes, vec![3u8; 32]);
    assert_eq!(back.option_index, 1);
}

/// The record layout matches what borsh produces for the same fields:
/// flag, length-prefixed strings and sequences, fixed-width little-endian
/// integers.
#[test]
fn test_poll_encoding_matches_borsh() {
    let poll = sample_poll();
    let ours = encode_poll(&poll);
    let theirs = borsh::to_vec(&(
        true,
        "Test Poll".to_string(),
        vec!["Option 1".to_string(), "Option 2".to_string(), "Option 3".to_string()],
        [1u8; 32],
        100i64,
        3600i64,
        vec![0u32, 0, 0],
    ))
    .unwrap();
    assert_eq!(ours, theirs);
}

#[test]
fn test_vote_encoding_matches_borsh() {
    let vote = Vote::new(id(2), id(3), 7);
    let ours = encode_vote(&vote);
    let theirs = borsh::to_vec(&(true, [2u8; 32], [3u8; 32], 7u32)).unwrap();
    assert_eq!(ours, theirs);
}

#[test]
fn test_decode_rejects_malformed() {
    // Empty buffer.
    assert!(decode_poll(&vec![]).is_none());
    // A flag byte that is neither 0 nor 1.
    assert!(decode_poll(&vec![2u8; 80]).is_none());
    // A truncated record: flag plus a title length promising more bytes
    // than there are.
    assert!(decode_poll(&vec![1, 255, 255, 255, 255]).is_none());
    // A vote record cut short.
    let vote = Vote::new(id(2), id(3), 1);
    let mut bytes = encode_vote(&vote);
    bytes.truncate(bytes.len() - 1);
    assert!(decode_vote(&bytes).is_none());
}

#[test]
fn test_instruction_roundtrip() {
    let ix = VotingInstruction::CreatePoll {
        title: b"Lunch?".to_vec(),
        options: vec![b"Pizza".to_vec(), b"Salad".to_vec()],
        start_time: 10,
        end_time: 1000,
    };
    let bytes = encode_instruction(&ix);
    match parse_instruction(&bytes).unwrap() {
        VotingInstruction::CreatePoll { title, options, start_time, end_time } => {
            assert_eq!(title, b"Lunch?".to_vec());
            assert_eq!(options, vec![b"Pizza".to_vec(), b"Salad".to_vec()]);
            assert_eq!(start_time, 10);
            assert_eq!(end_time, 1000);
        },
        _ => panic!("wrong instruction"),
    }

    let bytes = encode_instruction(&VotingInstruction::CastVote { option_index: 3 });
    match parse_instruction(&bytes).unwrap() {
        VotingInstruction::CastVote { option_index } => assert_eq!(option_index, 3),
        _ => panic!("wrong instruction"),
    }

    let bytes = encode_instruction(&VotingInstruction::ClosePoll {});
    assert!(matches!(parse_instruction(&bytes), Some(VotingInstruction::ClosePoll {})));
}

#[test]
fn test_instruction_must_consume_whole_envelope() {
    let mut bytes = encode_instruction(&VotingInstruction::CastVote { option_index: 3 });
    bytes.push(0);
    assert!(parse_instruction(&bytes).is_none());
    // An unknown discriminant.
    assert!(parse_instruction(&vec![9u8]).is_none());
    // An empty envelope.
    assert!(parse_instruction(&vec![]).is_none());
}

#[test]
fn test_error_codes() {
    assert_eq!(VotingError::InvalidInstruction.code(), 0);
    assert_eq!(VotingError::NotRentExempt.code(), 1);
    assert_eq!(VotingError::PollAlreadyExists.code(), 2);
    assert_eq!(VotingError::PollDoesNotExist.code(), 3);
    assert_eq!(VotingError::PollClosed.code(), 4);
    assert_eq!(VotingError::UnauthorizedAccess.code(), 5);
    assert_eq!(VotingError::InvalidPollTitleLength.code(), 6);
    assert_eq!(VotingError::InvalidPollOptionLength.code(), 7);
    assert_eq!(VotingError::TooManyPollOptions.code(), 8);
    assert_eq!(VotingError::UserAlreadyVoted.code(), 9);
    assert_eq!(VotingError::InvalidVoteOption.code(), 10);
    assert_eq!(VotingError::PollTimeConstraintError.code(), 11);
    assert_eq!(VotingError::InvalidAccountOwner.code(), 12);
}

#[test]
fn test_dispatch_create_poll() {
    let program = id(7);
    let creator = id(1);
    let title = b"Test Poll".to_vec();
    let now: i64 = 1_000_000;
    let (poll_addr, _bump) =
        voting_program::address::derive_poll_address(&creator, &title, &program).unwrap();
    let sys = Identity::new(vec![0u8; 32]);
    let accounts = vec![
        AccountState {
            key: creator,
            is_signer: true,
            lamports: 10000000,
            owner: sys.duplicate(),
            data: vec![],
        },
        AccountState {
            key: poll_addr,
            is_signer: false,
            lamports: 0,
            owner: sys.duplicate(),
            data: vec![],
        },
        AccountState {
            key: sys.duplicate(),
            is_signer: false,
            lamports: 0,
            owner: sys.duplicate(),
            data: vec![],
        },
    ];
    let envelope = encode_instruction(&VotingInstruction::CreatePoll {
        title,
        options: vec![b"Yes".to_vec(), b"No".to_vec()],
        start_time: now + 100,
        end_time: now + 3600,
    });
    match process_instruction(&program, &accounts, &envelope, now).unwrap() {
        Effect::Created(e) => {
            let poll = voting_program::codec::decode_poll(&e.poll_record).unwrap();
            assert_eq!(poll.vote_counts, vec![0u32, 0]);
        },
        _ => panic!("wrong effect"),
    }
}

#[test]
fn test_dispatch_rejects_garbage_envelope() {
    let program = id(7);
    let accounts: Vec<AccountState> = vec![];
    let r = process_instruction(&program, &accounts, &vec![255, 1, 2], 0);
    assert_eq!(r.unwrap_err(), ProcError::Voting(VotingError::InvalidInstruction));
}
