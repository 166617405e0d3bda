use voting_program::address::{derive_poll_address, derive_vote_address};
use voting_program::codec::decode_poll;
use voting_program::error::{ProcError, VotingError};
use voting_program::processor::{
    process_cast_vote, process_close_poll, process_create_poll, AccountState,
};
use voting_program::state::{Identity, POLL_ACCOUNT_SIZE, VOTE_ACCOUNT_SIZE};

fn id(b: u8) -> Identity {
    Identity::new(vec![b; 32])
}

fn system_id() -> Identity {
    Identity::new(vec![0u8; 32])
}

fn account(key: &Identity, is_signer: bool, lamports: u64, owner: &Identity, data: Vec<u8>) -> AccountState {
    AccountState {
        key: key.duplicate(),
        is_signer,
        lamports,
        owner: owner.duplicate(),
        data,
    }
}

fn pad_to(mut data: Vec<u8>, size: usize) -> Vec<u8> {
    data.resize(size, 0);
    data
}

/// The accounts for a creation: signing creator, empty poll slot at the
/// derived address, system program.
fn create_accounts(creator: &Identity, poll_addr: &Identity, sys: &Identity) -> Vec<AccountState> {
    vec![
        account(creator, true, 10000000, sys, vec![]),
        account(poll_addr, false, 0, sys, vec![]),
        account(sys, false, 0, sys, vec![]),
    ]
}

#[test]
fn test_create_poll() {
    let program = id(7);
    let creator = id(1);
    let title = b"Test Poll".to_vec();
    let options = vec![b"Option 1".to_vec(), b"Option 2".to_vec(), b"Option 3".to_vec()];
    let now: i64 = 1_000_000;
    let (poll_addr, _bump) = derive_poll_address(&creator, &title, &program).unwrap();
    let accounts = create_accounts(&creator, &poll_addr, &system_id());
    let eff = process_create_poll(
        &accounts,
        &program,
        title.clone(),
        options.clone(),
        now + 100,
        now + 3600,
        now,
    )
    .unwrap();
    assert_eq!(eff.space, POLL_ACCOUNT_SIZE);
    assert_eq!(eff.poll_address.bytes, poll_addr.bytes);
    let poll = decode_poll(&eff.poll_record).unwrap();
    assert!(poll.is_initialized);
    assert_eq!(poll.title, title);
    assert_eq!(poll.options, options);
    assert_eq!(poll.authority.bytes, creator.bytes);
    assert_eq!(poll.start_time, now + 100);
    assert_eq!(poll.end_time, now + 3600);
    assert_eq!(poll.vote_counts, vec![0u32, 0, 0]);
}

#[test]
fn test_create_poll_rejections() {
    let program = id(7);
    let creator = id(1);
    let sys = system_id();
    let title = b"Test Poll".to_vec();
    let options = vec![b"Yes".to_vec(), b"No".to_vec()];
    let now: i64 = 1_000_000;
    let (poll_addr, _bump) = derive_poll_address(&creator, &title, &program).unwrap();
    let accounts = create_accounts(&creator, &poll_addr, &sys);

    // Creator did not sign.
    let mut a = create_accounts(&creator, &poll_addr, &sys);
    a[0].is_signer = false;
    let r = process_create_poll(&a, &program, title.clone(), options.clone(), now + 1, now + 2, now);
    assert_eq!(r.unwrap_err(), ProcError::Voting(VotingError::UnauthorizedAccess));

    // Wrong system program account.
    let mut a = create_accounts(&creator, &poll_addr, &sys);
    a[2].key = id(9);
    let r = process_create_poll(&a, &program, title.clone(), options.clone(), now + 1, now + 2, now);
    assert_eq!(r.unwrap_err(), ProcError::Voting(VotingError::InvalidInstruction));

    // Title over 100 bytes.
    let r = process_create_poll(&accounts, &program, vec![b'x'; 101], options.clone(), now + 1, now + 2, now);
    assert_eq!(r.unwrap_err(), ProcError::Voting(VotingError::InvalidPollTitleLength));

    // No options at all.
    let r = process_create_poll(&accounts, &program, title.clone(), vec![], now + 1, now + 2, now);
    assert_eq!(r.unwrap_err(), ProcError::Voting(VotingError::TooManyPollOptions));

    // Eleven options.
    let r = process_create_poll(&accounts, &program, title.clone(), vec![b"o".to_vec(); 11], now + 1, now + 2, now);
    assert_eq!(r.unwrap_err(), ProcError::Voting(VotingError::TooManyPollOptions));

    // One option over 50 bytes.
    let r = process_create_poll(&accounts, &program, title.clone(), vec![vec![b'x'; 51]], now + 1, now + 2, now);
    assert_eq!(r.unwrap_err(), ProcError::Voting(VotingError::InvalidPollOptionLength));

    // Start at or after end.
    let r = process_create_poll(&accounts, &program, title.clone(), options.clone(), now + 2, now + 2, now);
    assert_eq!(r.unwrap_err(), ProcError::Voting(VotingError::PollTimeConstraintError));

    // Start before the current ledger time.
    let r = process_create_poll(&accounts, &program, title.clone(), options.clone(), now - 1, now + 2, now);
    assert_eq!(r.unwrap_err(), ProcError::Voting(VotingError::PollTimeConstraintError));

    // The poll slot is already funded.
    let mut a = create_accounts(&creator, &poll_addr, &sys);
    a[1].lamports = 5;
    let r = process_create_poll(&a, &program, title.clone(), options.clone(), now + 1, now + 2, now);
    assert_eq!(r.unwrap_err(), ProcError::Voting(VotingError::PollAlreadyExists));

    // The claimed poll address is not the derived one.
    let mut a = create_accounts(&creator, &poll_addr, &sys);
    a[1].key = id(9);
    let r = process_create_poll(&a, &program, title.clone(), options.clone(), now + 1, now + 2, now);
    assert_eq!(r.unwrap_err(), ProcError::Voting(VotingError::InvalidInstruction));

    // Too few accounts.
    let a = vec![account(&creator, true, 1, &sys, vec![])];
    let r = process_create_poll(&a, &program, title.clone(), options.clone(), now + 1, now + 2, now);
    assert_eq!(r.unwrap_err(), ProcError::NotEnoughAccounts);
}

/// Run a creation and hand back the poll account as the host would store
/// it: the record padded to its fixed size, funded, owned by the program.
fn created_poll_account(
    program: &Identity,
    creator: &Identity,
    title: &[u8],
    options: &[&[u8]],
    start: i64,
    end: i64,
    now: i64,
) -> AccountState {
    let title = title.to_vec();
    let options: Vec<Vec<u8>> = options.iter().map(|o| o.to_vec()).collect();
    let (poll_addr, _bump) = derive_poll_address(creator, &title, program).unwrap();
    let accounts = create_accounts(creator, &poll_addr, &system_id());
    let eff =
        process_create_poll(&accounts, program, title, options, start, end, now).unwrap();
    AccountState {
        key: poll_addr,
        is_signer: false,
        lamports: 1_000_000,
        owner: program.duplicate(),
        data: pad_to(eff.poll_record, eff.space),
    }
}

fn vote_accounts(
    voter: &Identity,
    poll: &AccountState,
    vote_addr: &Identity,
    vote_lamports: u64,
    vote_data: Vec<u8>,
) -> Vec<AccountState> {
    let sys = system_id();
    vec![
        account(voter, true, 10000000, &sys, vec![]),
        AccountState {
            key: poll.key.duplicate(),
            is_signer: false,
            lamports: poll.lamports,
            owner: poll.owner.duplicate(),
            data: poll.data.clone(),
        },
        account(vote_addr, false, vote_lamports, &sys, vote_data),
        account(&sys, false, 0, &sys, vec![]),
    ]
}

#[test]
fn test_cast_vote() {
    let program = id(7);
    let creator = id(1);
    let voter = id(2);
    let now: i64 = 1_000_000;
    let poll = created_poll_account(
        &program,
        &creator,
        b"Test Poll",
        &[b"Option 1", b"Option 2"],
        now + 100,
        now + 3600,
        now,
    );
    let (vote_addr, _bump) = derive_vote_address(&voter, &poll.key, &program).unwrap();
    let accounts = vote_accounts(&voter, &poll, &vote_addr, 0, vec![]);
    let eff = process_cast_vote(&accounts, &program, 0, now + 200).unwrap();
    assert_eq!(eff.space, VOTE_ACCOUNT_SIZE);
    assert_eq!(eff.vote_address.bytes, vote_addr.bytes);
    let updated = decode_poll(&eff.new_poll_record).unwrap();
    assert_eq!(updated.vote_counts, vec![1u32, 0]);
    let vote = voting_program::codec::decode_vote(&eff.vote_record).unwrap();
    assert!(vote.is_initialized);
    assert_eq!(vote.voter.bytes, voter.bytes);
    assert_eq!(vote.poll.bytes, poll.key.bytes);
    assert_eq!(vote.option_index, 0);
}

#[test]
fn test_cast_vote_rejections() {
    let program = id(7);
    let creator = id(1);
    let voter = id(2);
    let now: i64 = 1_000_000;
    let poll = created_poll_account(
        &program,
        &creator,
        b"Test Poll",
        &[b"Option 1", b"Option 2"],
        now + 100,
        now + 3600,
        now,
    );
    let (vote_addr, _bump) = derive_vote_address(&voter, &poll.key, &program).unwrap();

    // Voter did not sign.
    let mut a = vote_accounts(&voter, &poll, &vote_addr, 0, vec![]);
    a[0].is_signer = false;
    let r = process_cast_vote(&a, &program, 0, now + 200);
    assert_eq!(r.unwrap_err(), ProcError::Voting(VotingError::UnauthorizedAccess));

    // Poll account owned by someone else.
    let mut a = vote_accounts(&voter, &poll, &vote_addr, 0, vec![]);
    a[1].owner = id(9);
    let r = process_cast_vote(&a, &program, 0, now + 200);
    assert_eq!(r.unwrap_err(), ProcError::Voting(VotingError::InvalidAccountOwner));

    // Stored bytes that are no poll record at all.
    let mut a = vote_accounts(&voter, &poll, &vote_addr, 0, vec![]);
    a[1].data = vec![9, 9, 9];
    let r = process_cast_vote(&a, &program, 0, now + 200);
    assert_eq!(r.unwrap_err(), ProcError::Decode);

    // An uninitialized poll record.
    let mut a = vote_accounts(&voter, &poll, &vote_addr, 0, vec![]);
    a[1].data[0] = 0;
    let r = process_cast_vote(&a, &program, 0, now + 200);
    assert_eq!(r.unwrap_err(), ProcError::Voting(VotingError::PollDoesNotExist));

    // Before the window opens.
    let a = vote_accounts(&voter, &poll, &vote_addr, 0, vec![]);
    let r = process_cast_vote(&a, &program, 0, now + 50);
    assert_eq!(r.unwrap_err(), ProcError::Voting(VotingError::PollClosed));

    // After the window closes.
    let a = vote_accounts(&voter, &poll, &vote_addr, 0, vec![]);
    let r = process_cast_vote(&a, &program, 0, now + 4000);
    assert_eq!(r.unwrap_err(), ProcError::Voting(VotingError::PollClosed));

    // An option index beyond the options.
    let a = vote_accounts(&voter, &poll, &vote_addr, 0, vec![]);
    let r = process_cast_vote(&a, &program, 2, now + 200);
    assert_eq!(r.unwrap_err(), ProcError::Voting(VotingError::InvalidVoteOption));

    // A claimed vote address that is not the derived one.
    let a = vote_accounts(&voter, &poll, &id(9), 0, vec![]);
    let r = process_cast_vote(&a, &program, 0, now + 200);
    assert_eq!(r.unwrap_err(), ProcError::Voting(VotingError::InvalidInstruction));

    // Too few accounts.
    let a = vec![account(&voter, true, 1, &system_id(), vec![])];
    let r = process_cast_vote(&a, &program, 0, now + 200);
    assert_eq!(r.unwrap_err(), ProcError::NotEnoughAccounts);
}

#[test]
fn test_double_vote_prevention() {
    let program = id(7);
    let creator = id(1);
    let voter = id(2);
    let now: i64 = 1_000_000;
    let poll = created_poll_account(
        &program,
        &creator,
        b"Test Poll",
        &[b"Option 1", b"Option 2"],
        now + 100,
        now + 3600,
        now,
    );
    let (vote_addr, _bump) = derive_vote_address(&voter, &poll.key, &program).unwrap();
    let accounts = vote_accounts(&voter, &poll, &vote_addr, 0, vec![]);
    let eff = process_cast_vote(&accounts, &program, 0, now + 200).unwrap();

    // The host persists both writes; the same voter tries again.
    let mut poll2 = poll;
    poll2.data = pad_to(eff.new_poll_record, POLL_ACCOUNT_SIZE);
    let accounts = vote_accounts(
        &voter,
        &poll2,
        &vote_addr,
        1_000_000,
        pad_to(eff.vote_record, eff.space),
    );
    let r = process_cast_vote(&accounts, &program, 1, now + 300);
    assert_eq!(r.unwrap_err(), ProcError::Voting(VotingError::UserAlreadyVoted));
    // No effect came back, so the stored counters are untouched.
    let stored = decode_poll(&accounts[1].data).unwrap();
    assert_eq!(stored.vote_counts, vec![1u32, 0]);
}

#[test]
fn test_lunch_poll_scenario() {
    let program = id(7);
    let creator = id(1);
    let voter_a = id(2);
    let voter_b = id(3);
    let now: i64 = 50_000;
    let poll = created_poll_account(
        &program,
        &creator,
        b"Lunch?",
        &[b"Pizza", b"Salad"],
        now + 10,
        now + 1000,
        now,
    );

    // Voter A votes for index 0.
    let (addr_a, _) = derive_vote_address(&voter_a, &poll.key, &program).unwrap();
    let accounts = vote_accounts(&voter_a, &poll, &addr_a, 0, vec![]);
    let eff_a = process_cast_vote(&accounts, &program, 0, now + 20).unwrap();
    let after_a = decode_poll(&eff_a.new_poll_record).unwrap();
    assert_eq!(after_a.vote_counts, vec![1u32, 0]);
    let mut poll = poll;
    poll.data = pad_to(eff_a.new_poll_record, POLL_ACCOUNT_SIZE);
    let vote_a_data = pad_to(eff_a.vote_record, eff_a.space);

    // Voter B votes for index 1.
    let (addr_b, _) = derive_vote_address(&voter_b, &poll.key, &program).unwrap();
    let accounts = vote_accounts(&voter_b, &poll, &addr_b, 0, vec![]);
    let eff_b = process_cast_vote(&accounts, &program, 1, now + 30).unwrap();
    let after_b = decode_poll(&eff_b.new_poll_record).unwrap();
    assert_eq!(after_b.vote_counts, vec![1u32, 1]);
    poll.data = pad_to(eff_b.new_poll_record, POLL_ACCOUNT_SIZE);

    // Voter A tries again, now for index 1.
    let accounts = vote_accounts(&voter_a, &poll, &addr_a, 1_000_000, vote_a_data);
    let r = process_cast_vote(&accounts, &program, 1, now + 40);
    assert_eq!(r.unwrap_err(), ProcError::Voting(VotingError::UserAlreadyVoted));
    let stored = decode_poll(&accounts[1].data).unwrap();
    assert_eq!(stored.vote_counts, vec![1u32, 1]);
}

#[test]
fn test_close_poll() {
    let program = id(7);
    let creator = id(1);
    let now: i64 = 1_000_000;
    let poll = created_poll_account(
        &program,
        &creator,
        b"Test Poll",
        &[b"Option 1"],
        now + 100,
        now + 3600,
        now,
    );
    let accounts = vec![
        account(&creator, true, 500, &system_id(), vec![]),
        poll,
    ];
    let eff = process_close_poll(&accounts, &program).unwrap();
    assert_eq!(eff.authority_lamports, 500 + 1_000_000);
    assert_eq!(eff.poll_lamports, 0);
}

#[test]
fn test_unauthorized_close_poll() {
    let program = id(7);
    let creator = id(1);
    let intruder = id(4);
    let now: i64 = 1_000_000;
    let poll = created_poll_account(
        &program,
        &creator,
        b"Test Poll",
        &[b"Option 1"],
        now + 100,
        now + 3600,
        now,
    );
    let poll_lamports = poll.lamports;
    let poll_data = poll.data.clone();
    let accounts = vec![
        account(&intruder, true, 500, &system_id(), vec![]),
        poll,
    ];
    let r = process_close_poll(&accounts, &program);
    assert_eq!(r.unwrap_err(), ProcError::Voting(VotingError::UnauthorizedAccess));
    // No effect came back: balance and record stand as they were.
    assert_eq!(accounts[1].lamports, poll_lamports);
    assert_eq!(accounts[1].data, poll_data);
}

#[test]
fn test_close_poll_rejections() {
    let program = id(7);
    let creator = id(1);
    let now: i64 = 1_000_000;
    let poll = created_poll_account(
        &program,
        &creator,
        b"Test Poll",
        &[b"Option 1"],
        now + 100,
        now + 3600,
        now,
    );

    // Authority did not sign.
    let accounts = vec![
        account(&creator, false, 500, &system_id(), vec![]),
        AccountState {
            key: poll.key.duplicate(),
            is_signer: false,
            lamports: poll.lamports,
            owner: poll.owner.duplicate(),
            data: poll.data.clone(),
        },
    ];
    let r = process_close_poll(&accounts, &program);
    assert_eq!(r.unwrap_err(), ProcError::Voting(VotingError::UnauthorizedAccess));

    // Poll account owned by someone else.
    let mut accounts = vec![
        account(&creator, true, 500, &system_id(), vec![]),
        AccountState {
            key: poll.key.duplicate(),
            is_signer: false,
            lamports: poll.lamports,
            owner: id(9),
            data: poll.data.clone(),
        },
    ];
    let r = process_close_poll(&accounts, &program);
    assert_eq!(r.unwrap_err(), ProcError::Voting(VotingError::InvalidAccountOwner));

    // The authority's balance would overflow.
    accounts[0].lamports = u64::MAX;
    accounts[1].owner = program.duplicate();
    let r = process_close_poll(&accounts, &program);
    assert_eq!(r.unwrap_err(), ProcError::Overflow);

    // Too few accounts.
    let a = vec![account(&creator, true, 1, &system_id(), vec![])];
    let r = process_close_poll(&a, &program);
    assert_eq!(r.unwrap_err(), ProcError::NotEnoughAccounts);
}
