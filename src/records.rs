use vstd::prelude::*;
use crate::error::GrinzaError;
use crate::key::{authorize, Key};

verus! {

/// The record of one item's poll.
#[derive(Clone, Copy, Debug, PartialEq, Eq)]
pub struct Poll {
    /// Who opened the poll and alone may close it.
    pub owner: Key,
    /// The item the poll is about.
    pub nft_mint: Key,
    pub upvotes: u32,
    pub downvotes: u32,
    /// True from creation until the poll is closed; never true again after.
    pub is_active: bool,
    /// When the poll was opened, as a unix timestamp.
    pub created_at: i64,
    /// The nonce that makes the poll's storage address unique.
    pub bump: u8,
}

impl Poll {
    /// Persisted size in bytes, without the host's record header.
    pub const SIZE: usize = 32 + 32 + 4 + 4 + 1 + 8 + 1;

    /// A new active poll of `owner` on `nft_mint`, with no votes.
    pub fn new(owner: Key, nft_mint: Key, created_at: i64, bump: u8) -> (r: Poll)
        ensures
            r == (Poll {
                owner: owner,
                nft_mint: nft_mint,
                upvotes: 0,
                downvotes: 0,
                is_active: true,
                created_at: created_at,
                bump: bump,
            }),
    {
        Poll { owner, nft_mint, upvotes: 0, downvotes: 0, is_active: true, created_at, bump }
    }

    /// The poll after its owner closes it, or why `authority` cannot.
    pub open spec fn closed_by(self, authority: Seq<u8>) -> Result<Poll, GrinzaError> {
        if !self.is_active {
            Err(GrinzaError::PollAlreadyClosed)
        } else if authority != self.owner@ {
            Err(GrinzaError::Unauthorized)
        } else {
            Ok(Poll { is_active: false, ..self })
        }
    }

    /// The poll with one more vote in direction `is_upvote`.
    pub open spec fn tallied(self, is_upvote: bool) -> Poll {
        if is_upvote {
            Poll { upvotes: (self.upvotes + 1) as u32, ..self }
        } else {
            Poll { downvotes: (self.downvotes + 1) as u32, ..self }
        }
    }

    /// Whether the counter of direction `is_upvote` can take one more vote.
    pub open spec fn has_room(self, is_upvote: bool) -> bool {
        if is_upvote {
            self.upvotes < u32::MAX
        } else {
            self.downvotes < u32::MAX
        }
    }

    /// Closes the poll if it is active and `authority` is its owner; else
    /// fails and leaves it as it was.
    pub fn close(&mut self, authority: &Key) -> (r: Result<(), GrinzaError>)
        ensures
            match old(self).closed_by(authority@) {
                Ok(p) => r is Ok && *final(self) == p,
                Err(e) => r == Err::<(), GrinzaError>(e) && *final(self) == *old(self),
            },
    {
        if !self.is_active {
            return Err(GrinzaError::PollAlreadyClosed);
        }
        if let Err(e) = authorize(authority, &self.owner) {
            return Err(e);
        }
        self.is_active = false;
        Ok(())
    }

    /// Counts `voter`'s vote on this poll and returns the record of it; fails
    /// with `PollClosed`, changing nothing, when the poll is closed. That the
    /// voter has not voted on it before is for the store of records to know.
    pub fn cast_vote(&mut self, voter: Key, is_upvote: bool, bump: u8) -> (r: Result<
        VoteRecord,
        GrinzaError,
    >)
        requires
            old(self).has_room(is_upvote),
        ensures
            old(self).is_active ==> *final(self) == old(self).tallied(is_upvote) && r == Ok::<
                VoteRecord,
                GrinzaError,
            >(
                VoteRecord {
                    poll: old(self).nft_mint,
                    voter: voter,
                    voted: true,
                    is_upvote: is_upvote,
                    bump: bump,
                },
            ),
            !old(self).is_active ==> *final(self) == *old(self) && r == Err::<
                VoteRecord,
                GrinzaError,
            >(GrinzaError::PollClosed),
    {
        if !self.is_active {
            return Err(GrinzaError::PollClosed);
        }
        if is_upvote {
            self.upvotes = self.upvotes + 1;
        } else {
            self.downvotes = self.downvotes + 1;
        }
        Ok(VoteRecord { poll: self.nft_mint, voter, voted: true, is_upvote, bump })
    }
}

/// The record of one voter's vote on one poll. It is written once and never
/// changed.
#[derive(Clone, Copy, Debug, PartialEq, Eq)]
pub struct VoteRecord {
    /// The item of the poll voted on.
    pub poll: Key,
    pub voter: Key,
    /// Always true once the record exists.
    pub voted: bool,
    pub is_upvote: bool,
    /// The nonce that makes the record's storage address unique.
    pub bump: u8,
}

impl VoteRecord {
    /// Persisted size in bytes, without the host's record header.
    pub const SIZE: usize = 32 + 32 + 1 + 1 + 1;
}

} // verus!
