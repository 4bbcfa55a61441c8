use grinza::{
    authorize, close_poll, initialize_poll, vote, ClosePoll, GrinzaError, InitializePoll, Key,
    Ledger, Poll, Vote, VoteRecord,
};

fn key(b: u8) -> Key {
    Key::new([b; 32])
}

fn open(ledger: &mut Ledger, owner: u8, item: u8) -> Result<(), GrinzaError> {
    let ctx = InitializePoll { authority: key(owner), created_at: 1_700_000_000, poll_bump: 254 };
    initialize_poll(ledger, ctx, key(item))
}

fn cast(ledger: &mut Ledger, voter: u8, item: u8, up: bool) -> Result<(), GrinzaError> {
    let ctx = Vote { voter: key(voter), nft_mint: key(item), vote_record_bump: 253 };
    vote(ledger, ctx, up)
}

fn close(ledger: &mut Ledger, signer: u8, item: u8) -> Result<(), GrinzaError> {
    close_poll(ledger, ClosePoll { authority: key(signer), nft_mint: key(item) })
}

#[test]
fn scenario_open_vote_close() {
    let mut l = Ledger::new();
    assert_eq!(open(&mut l, 1, 10), Ok(()));
    let p = l.get_poll(&key(10)).unwrap();
    assert_eq!((p.upvotes, p.downvotes, p.is_active), (0, 0, true));
    assert_eq!(cast(&mut l, 2, 10, true), Ok(()));
    assert_eq!(l.get_poll(&key(10)).unwrap().upvotes, 1);
    assert_eq!(cast(&mut l, 2, 10, true), Err(GrinzaError::AlreadyVoted));
    assert_eq!(l.get_poll(&key(10)).unwrap().upvotes, 1);
    assert_eq!(close(&mut l, 1, 10), Ok(()));
    assert!(!l.get_poll(&key(10)).unwrap().is_active);
    assert_eq!(cast(&mut l, 3, 10, true), Err(GrinzaError::PollClosed));
}

#[test]
fn new_poll_fields() {
    let mut l = Ledger::new();
    assert_eq!(open(&mut l, 7, 9), Ok(()));
    let p = l.get_poll(&key(9)).unwrap();
    assert_eq!(
        p,
        Poll {
            owner: key(7),
            nft_mint: key(9),
            upvotes: 0,
            downvotes: 0,
            is_active: true,
            created_at: 1_700_000_000,
            bump: 254,
        }
    );
    assert_eq!(l.poll_count(), 1);
    assert_eq!(l.vote_count(), 0);
}

#[test]
fn second_initialize_is_duplicate() {
    let mut l = Ledger::new();
    assert_eq!(open(&mut l, 1, 5), Ok(()));
    assert_eq!(cast(&mut l, 2, 5, false), Ok(()));
    let before = l.get_poll(&key(5)).unwrap();
    assert_eq!(open(&mut l, 3, 5), Err(GrinzaError::DuplicatePoll));
    assert_eq!(open(&mut l, 1, 5), Err(GrinzaError::DuplicatePoll));
    assert_eq!(l.get_poll(&key(5)).unwrap(), before);
    assert_eq!(l.poll_count(), 1);
}

#[test]
fn polls_for_distinct_items() {
    let mut l = Ledger::new();
    assert_eq!(open(&mut l, 1, 5), Ok(()));
    assert_eq!(open(&mut l, 1, 6), Ok(()));
    assert_eq!(cast(&mut l, 2, 6, true), Ok(()));
    assert_eq!(l.get_poll(&key(5)).unwrap().upvotes, 0);
    assert_eq!(l.get_poll(&key(6)).unwrap().upvotes, 1);
    assert_eq!(l.poll_count(), 2);
}

#[test]
fn repeat_vote_keeps_counters() {
    let mut l = Ledger::new();
    assert_eq!(open(&mut l, 1, 5), Ok(()));
    assert_eq!(cast(&mut l, 2, 5, false), Ok(()));
    assert_eq!(cast(&mut l, 2, 5, true), Err(GrinzaError::AlreadyVoted));
    assert_eq!(cast(&mut l, 2, 5, false), Err(GrinzaError::AlreadyVoted));
    let p = l.get_poll(&key(5)).unwrap();
    assert_eq!((p.upvotes, p.downvotes), (0, 1));
    assert_eq!(l.vote_count(), 1);
}

#[test]
fn same_voter_on_two_polls() {
    let mut l = Ledger::new();
    assert_eq!(open(&mut l, 1, 5), Ok(()));
    assert_eq!(open(&mut l, 1, 6), Ok(()));
    assert_eq!(cast(&mut l, 2, 5, true), Ok(()));
    assert_eq!(cast(&mut l, 2, 6, false), Ok(()));
    assert_eq!(l.vote_count(), 2);
}

#[test]
fn vote_record_written() {
    let mut l = Ledger::new();
    assert_eq!(open(&mut l, 1, 5), Ok(()));
    assert_eq!(l.get_vote_record(&key(5), &key(2)), None);
    assert_eq!(cast(&mut l, 2, 5, false), Ok(()));
    assert_eq!(
        l.get_vote_record(&key(5), &key(2)),
        Some(VoteRecord { poll: key(5), voter: key(2), voted: true, is_upvote: false, bump: 253 })
    );
    assert_eq!(l.get_vote_record(&key(5), &key(3)), None);
    assert_eq!(l.get_vote_record(&key(6), &key(2)), None);
}

#[test]
fn tally_matches_records() {
    let mut l = Ledger::new();
    assert_eq!(open(&mut l, 1, 5), Ok(()));
    assert_eq!(open(&mut l, 1, 6), Ok(()));
    for v in 10..20u8 {
        assert_eq!(cast(&mut l, v, 5, v % 3 == 0), Ok(()));
    }
    assert_eq!(cast(&mut l, 10, 5, true), Err(GrinzaError::AlreadyVoted));
    assert_eq!(cast(&mut l, 30, 6, true), Ok(()));
    let p = l.get_poll(&key(5)).unwrap();
    assert_eq!(p.upvotes, 3);
    assert_eq!(p.downvotes, 7);
    let records = (10..20u8).filter(|v| l.get_vote_record(&key(5), &key(*v)).is_some()).count();
    assert_eq!((p.upvotes + p.downvotes) as usize, records);
    assert_eq!(l.vote_count(), 11);
}

#[test]
fn closed_poll_rejects_every_vote() {
    let mut l = Ledger::new();
    assert_eq!(open(&mut l, 1, 5), Ok(()));
    assert_eq!(cast(&mut l, 2, 5, true), Ok(()));
    assert_eq!(close(&mut l, 1, 5), Ok(()));
    assert_eq!(cast(&mut l, 3, 5, true), Err(GrinzaError::PollClosed));
    assert_eq!(cast(&mut l, 3, 5, false), Err(GrinzaError::PollClosed));
    assert_eq!(cast(&mut l, 2, 5, true), Err(GrinzaError::PollClosed));
    assert_eq!(cast(&mut l, 1, 5, false), Err(GrinzaError::PollClosed));
    let p = l.get_poll(&key(5)).unwrap();
    assert_eq!((p.upvotes, p.downvotes), (1, 0));
    assert_eq!(l.vote_count(), 1);
}

#[test]
fn close_by_stranger_is_unauthorized() {
    let mut l = Ledger::new();
    assert_eq!(open(&mut l, 1, 5), Ok(()));
    assert_eq!(close(&mut l, 2, 5), Err(GrinzaError::Unauthorized));
    assert!(l.get_poll(&key(5)).unwrap().is_active);
    assert_eq!(cast(&mut l, 2, 5, true), Ok(()));
}

#[test]
fn second_close_is_already_closed() {
    let mut l = Ledger::new();
    assert_eq!(open(&mut l, 1, 5), Ok(()));
    assert_eq!(close(&mut l, 1, 5), Ok(()));
    assert_eq!(close(&mut l, 1, 5), Err(GrinzaError::PollAlreadyClosed));
    assert_eq!(close(&mut l, 2, 5), Err(GrinzaError::PollAlreadyClosed));
    assert!(!l.get_poll(&key(5)).unwrap().is_active);
}

#[test]
fn missing_poll_is_not_found() {
    let mut l = Ledger::new();
    assert_eq!(close(&mut l, 1, 5), Err(GrinzaError::PollNotFound));
    assert_eq!(cast(&mut l, 1, 5, true), Err(GrinzaError::PollNotFound));
    assert_eq!(l.get_poll(&key(5)), None);
    assert_eq!(l.vote_count(), 0);
}

#[test]
fn keys_differing_in_last_byte() {
    let a = Key::new([4u8; 32]);
    let mut bytes = [4u8; 32];
    bytes[31] = 5;
    let b = Key::new(bytes);
    assert!(a.same(&a));
    assert!(!a.same(&b));
    assert_eq!(authorize(&a, &a), Ok(()));
    assert_eq!(authorize(&a, &b), Err(GrinzaError::Unauthorized));
    let mut l = Ledger::new();
    let ctx = InitializePoll { authority: a, created_at: 0, poll_bump: 0 };
    assert_eq!(initialize_poll(&mut l, ctx, key(9)), Ok(()));
    let closing = ClosePoll { authority: b, nft_mint: key(9) };
    assert_eq!(close_poll(&mut l, closing), Err(GrinzaError::Unauthorized));
}

#[test]
fn record_sizes() {
    assert_eq!(Poll::SIZE, 82);
    assert_eq!(VoteRecord::SIZE, 67);
}

#[test]
fn error_messages() {
    assert_eq!(GrinzaError::PollClosed.message(), "Voting is closed for this poll.");
    assert_eq!(GrinzaError::AlreadyVoted.message(), "You have already voted.");
    assert_eq!(GrinzaError::PollAlreadyClosed.message(), "Poll is already closed.");
}
