//! Authoritative state-transition logic for a ledger-hosted poll-and-vote
//! program: creating a poll, casting one vote per identity, and closing a
//! poll to reclaim its storage.
//!
//! The library is pure: each transition takes plain snapshots of the
//! accounts involved and hands back either an exact error or an effect
//! that tells the host what to allocate, fund and write. Records travel
//! as bytes under a fixed, self-describing layout (`codec`), storage
//! addresses are derived deterministically from seed tuples (`address`) —
//! the derived vote address doubles as the one-vote-per-voter guard — and
//! the properties the transitions obey are stated and proved in `laws`.

pub mod error;
pub mod state;
pub mod codec;
pub mod address;
pub mod instruction;
pub mod processor;
pub mod laws;
