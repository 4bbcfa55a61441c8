use vstd::prelude::*;

verus! {

/// Why an operation on the ledger was refused. A refused operation leaves
/// the ledger exactly as it was.
#[derive(Clone, Copy, Debug, PartialEq, Eq, Structural)]
pub enum GrinzaError {
    /// A vote was cast on a poll that is no longer active.
    PollClosed,
    /// The voter already holds a vote record for this poll.
    AlreadyVoted,
    /// The signer is not the identity the operation requires.
    Unauthorized,
    /// The poll was closed before.
    PollAlreadyClosed,
    /// A poll for this item already exists.
    DuplicatePoll,
    /// No poll exists for the item named.
    PollNotFound,
}

impl GrinzaError {
    /// The message shown for this error.
    pub fn message(&self) -> (r: &'static str) {
        match self {
            GrinzaError::PollClosed => "Voting is closed for this poll.",
            GrinzaError::AlreadyVoted => "You have already voted.",
            GrinzaError::Unauthorized => "You are not authorized to perform this action.",
            GrinzaError::PollAlreadyClosed => "Poll is already closed.",
            GrinzaError::DuplicatePoll => "A poll for this item already exists.",
            GrinzaError::PollNotFound => "No poll exists for this item.",
        }
    }
}

} // verus!
