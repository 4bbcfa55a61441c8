//! A per-item poll ledger: an authority opens one poll per item, each
//! participant casts at most one up or down vote on it, and the authority
//! closes it. Every transition is stated as a function on an abstract view
//! of the ledger, and the executable operations are proved to follow it.

mod error;
mod key;
mod ledger;
mod records;

pub mod laws;

pub use error::GrinzaError;
pub use key::{authorize, Key};
pub use ledger::{
    close_poll, close_poll_spec, count_records, count_votes, initialize_poll,
    initialize_poll_spec, lemma_count_directions, lemma_poll_index, vote, vote_spec, ClosePoll,
    InitializePoll, Ledger, LedgerView, Vote,
};
pub use records::{Poll, VoteRecord};
