use voting_program::address::{derive_poll_address, derive_vote_address};
use voting_program::state::Identity;

fn id(b: u8) -> Identity {
    Identity::new(vec![b; 32])
}

/// The library's poll address is the very address the ledger's own
/// derivation yields for the ("poll", creator, title) seed tuple.
#[test]
fn test_poll_address_matches_ledger_derivation() {
    let program = id(7);
    let creator = id(1);
    let title = b"Test Poll".to_vec();
    let (addr, bump) = derive_poll_address(&creator, &title, &program).unwrap();
    let pid = solana_program::pubkey::Pubkey::new_from_array([7u8; 32]);
    let (expected, expected_bump) = solana_program::pubkey::Pubkey::find_program_address(
        &[b"poll", &[1u8; 32], b"Test Poll"],
        &pid,
    );
    assert_eq!(addr.bytes, expected.to_bytes().to_vec());
    assert_eq!(bump, expected_bump);
}

/// The same for the ("vote", voter, poll) seed tuple.
#[test]
fn test_vote_address_matches_ledger_derivation() {
    let program = id(7);
    let voter = id(2);
    let poll = id(3);
    let (addr, bump) = derive_vote_address(&voter, &poll, &program).unwrap();
    let pid = solana_program::pubkey::Pubkey::new_from_array([7u8; 32]);
    let (expected, expected_bump) = solana_program::pubkey::Pubkey::find_program_address(
        &[b"vote", &[2u8; 32], &[3u8; 32]],
        &pid,
    );
    assert_eq!(addr.bytes, expected.to_bytes().to_vec());
    assert_eq!(bump, expected_bump);
}

/// The derivation is deterministic, and distinct seed tuples land on
/// distinct addresses.
#[test]
fn test_derivation_deterministic_and_separating() {
    let program = id(7);
    let creator = id(1);
    let title = b"Lunch?".to_vec();
    let (a1, b1) = derive_poll_address(&creator, &title, &program).unwrap();
    let (a2, b2) = derive_poll_address(&creator, &title, &program).unwrap();
    assert_eq!(a1.bytes, a2.bytes);
    assert_eq!(b1, b2);
    let (other, _) = derive_poll_address(&creator, &b"Dinner?".to_vec(), &program).unwrap();
    assert_ne!(a1.bytes, other.bytes);
    // A different kind of entity with the same identities lands elsewhere.
    let (vote, _) = derive_vote_address(&creator, &id(1), &program).unwrap();
    let (poll, _) = derive_poll_address(&creator, &vec![1u8; 32], &program).unwrap();
    assert_ne!(vote.bytes, poll.bytes);
}

/// A seed beyond the derivation's 32-byte seed limit yields no address,
/// so a creation with such a title is rejected rather than panicking.
#[test]
fn test_overlong_seed_yields_no_address() {
    let program = id(7);
    let creator = id(1);
    let title = vec![b'x'; 33];
    assert!(derive_poll_address(&creator, &title, &program).is_none());
}
