//! A voting ledger: polls with a voting window, their candidates, and votes cast by
//! distinct participants, with tallies that always match the votes recorded.

pub mod instructions;
pub mod ledger;
pub mod records;
pub mod theorems;

pub use instructions::{
    initialize_candidate, initialize_poll, vote, InitializeCandidate, InitializePoll, Vote,
};
pub use ledger::{CandidateEntry, Ledger};
pub use records::{
    record_vote, Candidate, ErrorCode, Poll, VoterKey, MAX_CANDIDATE_NAME_LEN,
    MAX_DESCRIPTION_LEN,
};
