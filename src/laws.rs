use vstd::prelude::*;
use crate::error::GrinzaError;
use crate::key::Key;
use crate::ledger::{
    close_poll_spec, count_records, initialize_poll_spec, lemma_count_directions, vote_spec,
    ClosePoll, InitializePoll, LedgerView, Vote,
};

verus! {

/// When `l2` keeps the items of `l`'s polls in their places and adds none
/// for `item`, the poll of `item` stands where it stood.
proof fn lemma_poll_kept(l: LedgerView, l2: LedgerView, item: Seq<u8>)
    requires
        l.wf(),
        l.has_poll(item),
        l.polls.len() <= l2.polls.len(),
        forall|i: int| 0 <= i < l.polls.len() ==> (#[trigger] l2.polls[i]).nft_mint == l.polls[i].nft_mint,
        forall|i: int| l.polls.len() <= i < l2.polls.len() ==> (#[trigger] l2.polls[i]).nft_mint@ != item,
    ensures
        l2.has_poll(item),
        l2.poll_index(item) == l.poll_index(item),
{
    let k = l.poll_index(item);
    assert(l.is_poll_at(k, item));
    assert(l2.is_poll_at(k, item));
    let k2 = l2.poll_index(item);
    assert(l2.is_poll_at(k2, item));
    assert(l.is_poll_at(k2, item));
    assert(l.polls[k].nft_mint@ == l.polls[k2].nft_mint@);
}

/// Polls opened stay, with their owner, and a closed poll stays closed;
/// vote records stay too. This holds across every operation, whether it
/// succeeds or fails.
pub proof fn lemma_history_kept(
    l: LedgerView,
    init: InitializePoll,
    nft_mint: Key,
    close: ClosePoll,
    ballot: Vote,
    is_upvote: bool,
    item: Seq<u8>,
    voter: Seq<u8>,
)
    requires
        l.wf(),
    ensures
        forall|l2: LedgerView|
            l2 == initialize_poll_spec(l, init, nft_mint).0 || l2 == close_poll_spec(l, close).0
                || l2 == vote_spec(l, ballot, is_upvote).0 ==> {
                &&& l.has_poll(item) ==> {
                    &&& l2.has_poll(item)
                    &&& l2.poll(item).owner == l.poll(item).owner
                    &&& !l.poll(item).is_active ==> !l2.poll(item).is_active
                }
                &&& l.has_vote(item, voter) ==> l2.has_vote(item, voter)
            },
{
    let a = initialize_poll_spec(l, init, nft_mint).0;
    let b = close_poll_spec(l, close).0;
    let c = vote_spec(l, ballot, is_upvote).0;
    if l.has_poll(item) {
        if !l.has_poll(nft_mint@) {
            let k = l.poll_index(item);
            assert(l.is_poll_at(k, item));
            assert(a.polls[l.polls.len() as int].nft_mint@ != item);
        }
        lemma_poll_kept(l, a, item);
        lemma_poll_kept(l, b, item);
        lemma_poll_kept(l, c, item);
    }
    if l.has_vote(item, voter) {
        let j = choose|j: int| l.is_vote_at(j, item, voter);
        assert(a.is_vote_at(j, item, voter));
        assert(b.is_vote_at(j, item, voter));
        assert(c.is_vote_at(j, item, voter));
    }
}

/// Once InitializePoll has opened a poll for an item, another one for the
/// same item fails with `DuplicatePoll`, whoever signs it, and leaves the
/// ledger and the first poll as they were.
pub proof fn lemma_poll_unique(
    l: LedgerView,
    ctx: InitializePoll,
    nft_mint: Key,
    ctx2: InitializePoll,
    nft_mint2: Key,
)
    requires
        l.wf(),
        initialize_poll_spec(l, ctx, nft_mint).1 is Ok,
        nft_mint2@ == nft_mint@,
    ensures
        ({
            let l2 = initialize_poll_spec(l, ctx, nft_mint).0;
            initialize_poll_spec(l2, ctx2, nft_mint2) == (l2, Err::<(), GrinzaError>(
                GrinzaError::DuplicatePoll,
            ))
        }),
{
    let l2 = initialize_poll_spec(l, ctx, nft_mint).0;
    assert(l2.is_poll_at(l.polls.len() as int, nft_mint2@));
}

/// Once a voter's vote on a poll has succeeded, another vote by the same
/// voter on the same poll fails with `AlreadyVoted` and changes no counter.
pub proof fn lemma_vote_exclusive(
    l: LedgerView,
    ctx: Vote,
    is_upvote: bool,
    ctx2: Vote,
    is_upvote2: bool,
)
    requires
        l.wf(),
        vote_spec(l, ctx, is_upvote).1 is Ok,
        ctx2.nft_mint@ == ctx.nft_mint@,
        ctx2.voter@ == ctx.voter@,
    ensures
        ({
            let l2 = vote_spec(l, ctx, is_upvote).0;
            vote_spec(l2, ctx2, is_upvote2) == (l2, Err::<(), GrinzaError>(
                GrinzaError::AlreadyVoted,
            ))
        }),
{
    let item = ctx.nft_mint@;
    let l2 = vote_spec(l, ctx, is_upvote).0;
    lemma_poll_kept(l, l2, item);
    assert(l2.is_vote_at(l.votes.len() as int, item, ctx.voter@));
}

/// In a well-formed ledger each poll's `upvotes + downvotes` is the number
/// of vote records for it. Every operation keeps the ledger well-formed, so
/// this holds after any sequence of operations.
pub proof fn lemma_tally_consistent(l: LedgerView)
    requires
        l.wf(),
    ensures
        forall|i: int|
            0 <= i < l.polls.len() ==> (#[trigger] l.polls[i]).upvotes + l.polls[i].downvotes
                == count_records(l.votes, l.polls[i].nft_mint@),
{
    assert forall|i: int| 0 <= i < l.polls.len() implies (#[trigger] l.polls[i]).upvotes
        + l.polls[i].downvotes == count_records(l.votes, l.polls[i].nft_mint@) by {
        lemma_count_directions(l.votes, l.polls[i].nft_mint@);
    }
}

/// On a closed poll every vote fails with `PollClosed` and changes nothing.
pub proof fn lemma_closed_poll_rejects(l: LedgerView, ctx: Vote, is_upvote: bool)
    requires
        l.has_poll(ctx.nft_mint@),
        !l.poll(ctx.nft_mint@).is_active,
    ensures
        vote_spec(l, ctx, is_upvote) == (l, Err::<(), GrinzaError>(GrinzaError::PollClosed)),
{
}

/// ClosePoll on an active poll by anyone but its owner fails with
/// `Unauthorized` and leaves the poll active.
pub proof fn lemma_close_needs_owner(l: LedgerView, ctx: ClosePoll)
    requires
        l.has_poll(ctx.nft_mint@),
        l.poll(ctx.nft_mint@).is_active,
        ctx.authority@ != l.poll(ctx.nft_mint@).owner@,
    ensures
        close_poll_spec(l, ctx) == (l, Err::<(), GrinzaError>(GrinzaError::Unauthorized)),
{
}

/// Once ClosePoll has closed a poll, another ClosePoll on it fails with
/// `PollAlreadyClosed`, whoever signs it.
pub proof fn lemma_close_once(l: LedgerView, ctx: ClosePoll, ctx2: ClosePoll)
    requires
        l.wf(),
        close_poll_spec(l, ctx).1 is Ok,
        ctx2.nft_mint@ == ctx.nft_mint@,
    ensures
        ({
            let l2 = close_poll_spec(l, ctx).0;
            close_poll_spec(l2, ctx2) == (l2, Err::<(), GrinzaError>(
                GrinzaError::PollAlreadyClosed,
            ))
        }),
{
    let l2 = close_poll_spec(l, ctx).0;
    lemma_poll_kept(l, l2, ctx.nft_mint@);
}

} // verus!
