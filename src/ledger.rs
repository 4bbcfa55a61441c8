use vstd::prelude::*;
use crate::error::GrinzaError;
use crate::key::Key;
use crate::records::{Poll, VoteRecord};

verus! {

/// How many records in `votes` are for the poll of `item` and go in
/// direction `up`.
pub open spec fn count_votes(votes: Seq<VoteRecord>, item: Seq<u8>, up: bool) -> nat
    decreases votes.len(),
{
    if votes.len() == 0 {
        0
    } else {
        count_votes(votes.drop_last(), item, up) + if votes.last().poll@ == item
            && votes.last().is_upvote == up {
            1nat
        } else {
            0nat
        }
    }
}

/// How many records in `votes` are for the poll of `item`.
pub open spec fn count_records(votes: Seq<VoteRecord>, item: Seq<u8>) -> nat
    decreases votes.len(),
{
    if votes.len() == 0 {
        0
    } else {
        count_records(votes.drop_last(), item) + if votes.last().poll@ == item {
            1nat
        } else {
            0nat
        }
    }
}

/// The ledger as a whole: the polls in the order they were opened and the
/// vote records in the order they were cast.
pub struct LedgerView {
    pub polls: Seq<Poll>,
    pub votes: Seq<VoteRecord>,
}

impl LedgerView {
    /// The poll at index `i` is the one of `item`.
    pub open spec fn is_poll_at(self, i: int, item: Seq<u8>) -> bool {
        0 <= i < self.polls.len() && self.polls[i].nft_mint@ == item
    }

    pub open spec fn has_poll(self, item: Seq<u8>) -> bool {
        exists|i: int| #[trigger] self.is_poll_at(i, item)
    }

    /// Where the poll of `item` stands, when it exists.
    pub open spec fn poll_index(self, item: Seq<u8>) -> int {
        choose|i: int| #[trigger] self.is_poll_at(i, item)
    }

    /// The poll of `item`, when it exists.
    pub open spec fn poll(self, item: Seq<u8>) -> Poll {
        self.polls[self.poll_index(item)]
    }

    /// The record at index `j` is `voter`'s on the poll of `item`.
    pub open spec fn is_vote_at(self, j: int, item: Seq<u8>, voter: Seq<u8>) -> bool {
        0 <= j < self.votes.len() && self.votes[j].poll@ == item && self.votes[j].voter@ == voter
    }

    /// Whether `voter` holds a vote record for the poll of `item`.
    pub open spec fn has_vote(self, item: Seq<u8>, voter: Seq<u8>) -> bool {
        exists|j: int| #[trigger] self.is_vote_at(j, item, voter)
    }

    /// At most one poll per item and one record per (poll, voter); every
    /// record is for a poll that exists and says that a vote was cast; each
    /// poll's counters equal the number of its records in each direction.
    pub open spec fn wf(self) -> bool {
        &&& forall|i: int, k: int|
            0 <= i < self.polls.len() && 0 <= k < self.polls.len() && i != k
                ==> #[trigger] self.polls[i].nft_mint@ != #[trigger] self.polls[k].nft_mint@
        &&& forall|j: int, k: int|
            #![trigger self.votes[j], self.votes[k]]
            0 <= j < self.votes.len() && 0 <= k < self.votes.len() && j != k ==> !(
            self.votes[j].poll@ == self.votes[k].poll@ && self.votes[j].voter@
                == self.votes[k].voter@)
        &&& forall|j: int|
            0 <= j < self.votes.len() ==> (#[trigger] self.votes[j]).voted && self.has_poll(
                self.votes[j].poll@,
            )
        &&& forall|i: int|
            0 <= i < self.polls.len() ==> {
                &&& (#[trigger] self.polls[i]).upvotes == count_votes(
                    self.votes,
                    self.polls[i].nft_mint@,
                    true,
                )
                &&& self.polls[i].downvotes == count_votes(
                    self.votes,
                    self.polls[i].nft_mint@,
                    false,
                )
            }
    }
}

/// The accounts of an InitializePoll: who signs and will own the poll, the
/// time of the call, and the nonce of the poll's address.
#[derive(Clone, Copy, Debug)]
pub struct InitializePoll {
    pub authority: Key,
    pub created_at: i64,
    pub poll_bump: u8,
}

/// The accounts of a ClosePoll: who signs, and the item whose poll closes.
#[derive(Clone, Copy, Debug)]
pub struct ClosePoll {
    pub authority: Key,
    pub nft_mint: Key,
}

/// The accounts of a Vote: who signs and votes, the item whose poll is voted
/// on, and the nonce of the vote record's address.
#[derive(Clone, Copy, Debug)]
pub struct Vote {
    pub voter: Key,
    pub nft_mint: Key,
    pub vote_record_bump: u8,
}

/// InitializePoll: a new active poll with no votes, unless the item has one.
pub open spec fn initialize_poll_spec(l: LedgerView, ctx: InitializePoll, nft_mint: Key) -> (
    LedgerView,
    Result<(), GrinzaError>,
) {
    if l.has_poll(nft_mint@) {
        (l, Err(GrinzaError::DuplicatePoll))
    } else {
        let p = Poll {
            owner: ctx.authority,
            nft_mint: nft_mint,
            upvotes: 0,
            downvotes: 0,
            is_active: true,
            created_at: ctx.created_at,
            bump: ctx.poll_bump,
        };
        (LedgerView { polls: l.polls.push(p), votes: l.votes }, Ok(()))
    }
}

/// ClosePoll: the owner of an active poll marks it closed. Refused when the
/// item has no poll, and otherwise as `Poll::closed_by` says.
pub open spec fn close_poll_spec(l: LedgerView, ctx: ClosePoll) -> (
    LedgerView,
    Result<(), GrinzaError>,
) {
    let item = ctx.nft_mint@;
    if !l.has_poll(item) {
        (l, Err(GrinzaError::PollNotFound))
    } else {
        match l.poll(item).closed_by(ctx.authority@) {
            Ok(closed) => (
                LedgerView { polls: l.polls.update(l.poll_index(item), closed), votes: l.votes },
                Ok(()),
            ),
            Err(e) => (l, Err(e)),
        }
    }
}

/// Vote: on an active poll that the voter has not voted on, one counter goes
/// up and a vote record is appended, together.
pub open spec fn vote_spec(l: LedgerView, ctx: Vote, is_upvote: bool) -> (
    LedgerView,
    Result<(), GrinzaError>,
) {
    let item = ctx.nft_mint@;
    if !l.has_poll(item) {
        (l, Err(GrinzaError::PollNotFound))
    } else {
        let p = l.poll(item);
        if !p.is_active {
            (l, Err(GrinzaError::PollClosed))
        } else if l.has_vote(item, ctx.voter@) {
            (l, Err(GrinzaError::AlreadyVoted))
        } else {
            let record = VoteRecord {
                poll: p.nft_mint,
                voter: ctx.voter,
                voted: true,
                is_upvote: is_upvote,
                bump: ctx.vote_record_bump,
            };
            (
                LedgerView {
                    polls: l.polls.update(l.poll_index(item), p.tallied(is_upvote)),
                    votes: l.votes.push(record),
                },
                Ok(()),
            )
        }
    }
}

/// Appending a record adds one to the counts it belongs to.
pub proof fn lemma_count_push(votes: Seq<VoteRecord>, v: VoteRecord, item: Seq<u8>, up: bool)
    ensures
        count_votes(votes.push(v), item, up) == count_votes(votes, item, up) + if v.poll@ == item
            && v.is_upvote == up {
            1nat
        } else {
            0nat
        },
        count_records(votes.push(v), item) == count_records(votes, item) + if v.poll@ == item {
            1nat
        } else {
            0nat
        },
{
    assert(votes.push(v).drop_last() =~= votes);
}

/// No record names the item, so none counts for it.
pub proof fn lemma_count_absent(votes: Seq<VoteRecord>, item: Seq<u8>, up: bool)
    requires
        forall|j: int| 0 <= j < votes.len() ==> (#[trigger] votes[j]).poll@ != item,
    ensures
        count_votes(votes, item, up) == 0,
    decreases votes.len(),
{
    if votes.len() > 0 {
        lemma_count_absent(votes.drop_last(), item, up);
    }
}

/// A count never exceeds the number of records.
pub proof fn lemma_count_bounded(votes: Seq<VoteRecord>, item: Seq<u8>, up: bool)
    ensures
        count_votes(votes, item, up) <= votes.len(),
    decreases votes.len(),
{
    if votes.len() > 0 {
        lemma_count_bounded(votes.drop_last(), item, up);
    }
}

/// The records for one poll are those in either direction.
pub proof fn lemma_count_directions(votes: Seq<VoteRecord>, item: Seq<u8>)
    ensures
        count_votes(votes, item, true) + count_votes(votes, item, false) == count_records(
            votes,
            item,
        ),
    decreases votes.len(),
{
    if votes.len() > 0 {
        lemma_count_directions(votes.drop_last(), item);
    }
}

/// The poll of an item, when unique, is the one found at any index that
/// holds it.
pub proof fn lemma_poll_index(l: LedgerView, i: int, item: Seq<u8>)
    requires
        l.wf(),
        l.is_poll_at(i, item),
    ensures
        l.has_poll(item),
        l.poll_index(item) == i,
        l.poll(item) == l.polls[i],
{
    let k = l.poll_index(item);
    assert(l.is_poll_at(k, item));
    assert(l.polls[i].nft_mint@ == l.polls[k].nft_mint@);
}

/// The store of polls and vote records. Its operations are the three
/// instructions below; each one either applies whole or fails and changes
/// nothing.
pub struct Ledger {
    polls: Vec<Poll>,
    votes: Vec<VoteRecord>,
}

impl View for Ledger {
    type V = LedgerView;

    closed spec fn view(&self) -> LedgerView {
        LedgerView { polls: self.polls@, votes: self.votes@ }
    }
}

impl Ledger {
    /// See `LedgerView::wf`.
    pub open spec fn wf(&self) -> bool {
        self@.wf()
    }

    /// An empty ledger.
    pub fn new() -> (r: Ledger)
        ensures
            r.wf(),
            r@.polls.len() == 0,
            r@.votes.len() == 0,
    {
        Ledger { polls: Vec::new(), votes: Vec::new() }
    }

    fn find_poll(&self, item: &Key) -> (r: Option<usize>)
        requires
            self.wf(),
        ensures
            match r {
                Some(i) => self@.is_poll_at(i as int, item@),
                None => !self@.has_poll(item@),
            },
    {
        let mut i: usize = 0;
        while i < self.polls.len()
            invariant
                i <= self.polls@.len(),
                forall|k: int| 0 <= k < i ==> (#[trigger] self.polls@[k]).nft_mint@ != item@,
            decreases self.polls@.len() - i,
        {
            if self.polls[i].nft_mint.same(item) {
                return Some(i);
            }
            i = i + 1;
        }
        assert forall|k: int| !(#[trigger] self@.is_poll_at(k, item@)) by {
            if 0 <= k < self.polls@.len() {
                assert(self.polls@[k].nft_mint@ != item@);
            }
        }
        None
    }

    fn find_vote(&self, item: &Key, voter: &Key) -> (r: Option<usize>)
        ensures
            match r {
                Some(j) => self@.is_vote_at(j as int, item@, voter@),
                None => !self@.has_vote(item@, voter@),
            },
    {
        let mut j: usize = 0;
        while j < self.votes.len()
            invariant
                j <= self.votes@.len(),
                forall|k: int|
                    0 <= k < j ==> !((#[trigger] self.votes@[k]).poll@ == item@
                        && self.votes@[k].voter@ == voter@),
            decreases self.votes@.len() - j,
        {
            if self.votes[j].poll.same(item) && self.votes[j].voter.same(voter) {
                return Some(j);
            }
            j = j + 1;
        }
        assert forall|k: int| !(#[trigger] self@.is_vote_at(k, item@, voter@)) by {
            if 0 <= k < self.votes@.len() {
                assert(!(self.votes@[k].poll@ == item@ && self.votes@[k].voter@ == voter@));
            }
        }
        None
    }

    /// The poll of `nft_mint`, if one was opened.
    pub fn get_poll(&self, nft_mint: &Key) -> (r: Option<Poll>)
        requires
            self.wf(),
        ensures
            r == (if self@.has_poll(nft_mint@) {
                Some(self@.poll(nft_mint@))
            } else {
                None
            }),
    {
        match self.find_poll(nft_mint) {
            Some(i) => {
                proof {
                    lemma_poll_index(self@, i as int, nft_mint@);
                }
                Some(self.polls[i])
            },
            None => None,
        }
    }

    /// The vote record of `voter` on the poll of `nft_mint`, if one was cast.
    pub fn get_vote_record(&self, nft_mint: &Key, voter: &Key) -> (r: Option<VoteRecord>)
        requires
            self.wf(),
        ensures
            match r {
                Some(v) => exists|j: int|
                    #[trigger] self@.is_vote_at(j, nft_mint@, voter@) && self@.votes[j] == v,
                None => !self@.has_vote(nft_mint@, voter@),
            },
    {
        match self.find_vote(nft_mint, voter) {
            Some(j) => Some(self.votes[j]),
            None => None,
        }
    }

    /// How many polls were opened.
    pub fn poll_count(&self) -> (r: usize)
        ensures
            r == self@.polls.len(),
    {
        self.polls.len()
    }

    /// How many votes were cast.
    pub fn vote_count(&self) -> (r: usize)
        ensures
            r == self@.votes.len(),
    {
        self.votes.len()
    }
}

/// Two ledgers whose polls stand for the same items, in the same places,
/// hold polls for the same items.
proof fn lemma_same_items(l: LedgerView, l2: LedgerView)
    requires
        l2.polls.len() == l.polls.len(),
        forall|i: int| 0 <= i < l.polls.len() ==> (#[trigger] l2.polls[i]).nft_mint == l.polls[i].nft_mint,
    ensures
        forall|item: Seq<u8>| #[trigger] l2.has_poll(item) == l.has_poll(item),
{
    assert forall|item: Seq<u8>| #[trigger] l2.has_poll(item) == l.has_poll(item) by {
        if l.has_poll(item) {
            let k = choose|k: int| l.is_poll_at(k, item);
            assert(l2.is_poll_at(k, item));
        }
        if l2.has_poll(item) {
            let k = choose|k: int| l2.is_poll_at(k, item);
            assert(l.is_poll_at(k, item));
        }
    }
}

/// Opens a poll for `nft_mint`, owned by the signer, with no votes. Fails
/// with `DuplicatePoll` when the item already has a poll.
pub fn initialize_poll(ledger: &mut Ledger, ctx: InitializePoll, nft_mint: Key) -> (r: Result<
    (),
    GrinzaError,
>)
    requires
        old(ledger).wf(),
    ensures
        final(ledger).wf(),
        (final(ledger)@, r) == initialize_poll_spec(old(ledger)@, ctx, nft_mint),
{
    let ghost l0 = ledger@;
    if ledger.find_poll(&nft_mint).is_some() {
        return Err(GrinzaError::DuplicatePoll);
    }
    let p = Poll::new(ctx.authority, nft_mint, ctx.created_at, ctx.poll_bump);
    ledger.polls.push(p);
    proof {
        let l = ledger@;
        assert(l.polls == l0.polls.push(p));
        assert forall|j: int| 0 <= j < l0.votes.len() implies (#[trigger] l0.votes[j]).poll@
            != nft_mint@ by {
            let k = choose|k: int| l0.is_poll_at(k, l0.votes[j].poll@);
            assert(!l0.is_poll_at(k, nft_mint@));
        }
        lemma_count_absent(l0.votes, nft_mint@, true);
        lemma_count_absent(l0.votes, nft_mint@, false);
        assert forall|i: int, k: int|
            0 <= i < l.polls.len() && 0 <= k < l.polls.len() && i != k
                implies #[trigger] l.polls[i].nft_mint@ != #[trigger] l.polls[k].nft_mint@ by {
            if i == l0.polls.len() {
                assert(!l0.is_poll_at(k, nft_mint@));
            } else if k == l0.polls.len() {
                assert(!l0.is_poll_at(i, nft_mint@));
            }
        }
        assert forall|j: int| 0 <= j < l.votes.len() implies (#[trigger] l.votes[j]).voted
            && l.has_poll(l.votes[j].poll@) by {
            let k = choose|k: int| l0.is_poll_at(k, l0.votes[j].poll@);
            assert(l.is_poll_at(k, l.votes[j].poll@));
        }
    }
    Ok(())
}

/// Closes the poll of `ctx.nft_mint` at the request of its owner. Fails with
/// `PollNotFound` when the item has no poll, `PollAlreadyClosed` when it is
/// closed, and `Unauthorized` when the signer is not its owner.
pub fn close_poll(ledger: &mut Ledger, ctx: ClosePoll) -> (r: Result<(), GrinzaError>)
    requires
        old(ledger).wf(),
    ensures
        final(ledger).wf(),
        (final(ledger)@, r) == close_poll_spec(old(ledger)@, ctx),
{
    let ghost l0 = ledger@;
    let i = match ledger.find_poll(&ctx.nft_mint) {
        Some(i) => i,
        None => {
            return Err(GrinzaError::PollNotFound);
        },
    };
    proof {
        lemma_poll_index(l0, i as int, ctx.nft_mint@);
    }
    if let Err(e) = ledger.polls[i].close(&ctx.authority) {
        proof {
            assert(ledger@.polls =~= l0.polls);
        }
        return Err(e);
    }
    proof {
        let l = ledger@;
        assert(l.polls == l0.polls.update(i as int, Poll { is_active: false, ..l0.polls[i as int] }));
        lemma_same_items(l0, l);
        assert forall|j: int| 0 <= j < l.votes.len() implies (#[trigger] l.votes[j]).voted
            && l.has_poll(l.votes[j].poll@) by {
            assert(l0.has_poll(l0.votes[j].poll@));
        }
    }
    Ok(())
}

/// Casts the signer's vote on the poll of `ctx.nft_mint`: the counter of the
/// direction goes up by one and a vote record is appended. Fails with
/// `PollNotFound` when the item has no poll, `PollClosed` when the poll is
/// closed, and `AlreadyVoted` when the voter already voted on it.
pub fn vote(ledger: &mut Ledger, ctx: Vote, is_upvote: bool) -> (r: Result<(), GrinzaError>)
    requires
        old(ledger).wf(),
        old(ledger)@.votes.len() < u32::MAX,
    ensures
        final(ledger).wf(),
        (final(ledger)@, r) == vote_spec(old(ledger)@, ctx, is_upvote),
{
    let ghost l0 = ledger@;
    let i = match ledger.find_poll(&ctx.nft_mint) {
        Some(i) => i,
        None => {
            return Err(GrinzaError::PollNotFound);
        },
    };
    proof {
        lemma_poll_index(l0, i as int, ctx.nft_mint@);
    }
    if !ledger.polls[i].is_active {
        return Err(GrinzaError::PollClosed);
    }
    if ledger.find_vote(&ctx.nft_mint, &ctx.voter).is_some() {
        return Err(GrinzaError::AlreadyVoted);
    }
    let ghost item = ctx.nft_mint@;
    proof {
        lemma_count_bounded(l0.votes, item, true);
        lemma_count_bounded(l0.votes, item, false);
    }
    let record = match ledger.polls[i].cast_vote(ctx.voter, is_upvote, ctx.vote_record_bump) {
        Ok(record) => record,
        Err(e) => {
            return Err(e);
        },
    };
    ledger.votes.push(record);
    proof {
        let l = ledger@;
        assert(l.polls == l0.polls.update(i as int, l0.polls[i as int].tallied(is_upvote)));
        assert(l.votes == l0.votes.push(record));
        lemma_same_items(l0, l);
        assert forall|j: int| 0 <= j < l.votes.len() implies (#[trigger] l.votes[j]).voted
            && l.has_poll(l.votes[j].poll@) by {
            if j < l0.votes.len() {
                assert(l0.has_poll(l0.votes[j].poll@));
            } else {
                assert(l0.is_poll_at(i as int, item));
            }
        }
        assert forall|j: int, k: int|
            #![trigger l.votes[j], l.votes[k]]
            0 <= j < l.votes.len() && 0 <= k < l.votes.len() && j != k implies !(
            l.votes[j].poll@ == l.votes[k].poll@ && l.votes[j].voter@ == l.votes[k].voter@) by {
            if j == l0.votes.len() {
                assert(!l0.is_vote_at(k, item, ctx.voter@));
            } else if k == l0.votes.len() {
                assert(!l0.is_vote_at(j, item, ctx.voter@));
            }
        }
        assert forall|m: int| 0 <= m < l.polls.len() implies {
            &&& (#[trigger] l.polls[m]).upvotes == count_votes(l.votes, l.polls[m].nft_mint@, true)
            &&& l.polls[m].downvotes == count_votes(l.votes, l.polls[m].nft_mint@, false)
        } by {
            lemma_count_push(l0.votes, record, l0.polls[m].nft_mint@, true);
            lemma_count_push(l0.votes, record, l0.polls[m].nft_mint@, false);
            if m != i {
                assert(l0.polls[m].nft_mint@ != l0.polls[i as int].nft_mint@);
            }
        }
    }
    Ok(())
}

} // verus!
