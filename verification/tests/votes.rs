use std::collections::HashMap;

use forum_core::api_types::Failure;
use forum_core::posts::Votes;
use forum_core::votes::{
    check_vote, score_deltas, ContentScore, ScoreDeltas, StoreReply, VoteMachine, VotePhase,
    VoteStep, MAX_VOTE_ATTEMPTS,
};

/// A store of one piece of content, as the vote protocol sees it.
struct Content {
    ledger: HashMap<u32, i32>,
    score: ContentScore,
}

impl Content {
    fn new() -> Self {
        Content { ledger: HashMap::new(), score: ContentScore::new() }
    }

    /// Runs one vote to its end, answering each step as a store without
    /// contention would.
    fn vote(&mut self, user: u32, value: i32) -> Result<Votes, Failure<()>> {
        let (mut machine, mut step) = VoteMachine::begin(value, 0)?;
        loop {
            let reply = match step {
                VoteStep::AbortTransaction => StoreReply::Done,
                VoteStep::FindVote => StoreReply::Found(self.ledger.get(&user).copied()),
                VoteStep::StartTransaction => StoreReply::Done,
                VoteStep::InsertVote { value } => {
                    if self.ledger.contains_key(&user) {
                        StoreReply::Failed
                    } else {
                        self.ledger.insert(user, value);
                        StoreReply::Done
                    }
                }
                VoteStep::UpdateVote { expected, value } => {
                    if self.ledger.get(&user) == Some(&expected) {
                        self.ledger.insert(user, value);
                        StoreReply::Matched(1)
                    } else {
                        StoreReply::Matched(0)
                    }
                }
                VoteStep::UpdateScore { deltas, trending_seconds: _ } => {
                    self.score = self.score.apply(&deltas).expect("the counters fit");
                    StoreReply::Matched(1)
                }
                VoteStep::CommitTransaction => StoreReply::Done,
                VoteStep::ReadVotes => StoreReply::Counters(Some(self.score.votes())),
                VoteStep::Succeed(votes) => return Ok(votes),
                VoteStep::GiveUp => return Err(Failure::Unexpected),
            };
            step = machine.advance(reply);
        }
    }
}

#[test]
fn three_upvotes_then_one_change() {
    let mut post = Content::new();
    assert_eq!(post.score, ContentScore { votes_up: 0, votes_down: 0, absolute_score: 0 });
    post.vote(1, 1).expect("first vote");
    post.vote(2, 1).expect("second vote");
    let votes = post.vote(3, 1).expect("third vote");
    assert_eq!(votes, Votes { up: 3, down: 0 });
    assert_eq!(post.score.absolute_score, 3);

    let votes = post.vote(2, -1).expect("changed vote");
    assert_eq!(votes, Votes { up: 2, down: 1 });
    assert_eq!(post.score.absolute_score, 1);
}

#[test]
fn the_same_vote_twice_changes_nothing() {
    let mut post = Content::new();
    for value in [1, -1, 0] {
        post.vote(7, value).expect("vote");
        let once = post.score;
        let votes = post.vote(7, value).expect("vote again");
        assert_eq!(post.score, once);
        assert_eq!(votes, once.votes());
    }
}

#[test]
fn counters_match_the_ledger_in_any_order() {
    let finals = [(1u32, 1), (2, -1), (3, 0), (4, 1), (5, -1), (6, 1)];
    let orders: [[usize; 6]; 3] = [[0, 1, 2, 3, 4, 5], [5, 4, 3, 2, 1, 0], [2, 0, 5, 1, 4, 3]];
    for order in orders {
        let mut post = Content::new();
        // Everybody first casts something else, then the final vote.
        for &i in &order {
            post.vote(finals[i].0, -finals[i].1).expect("vote");
        }
        for &i in &order {
            post.vote(finals[i].0, finals[i].1).expect("vote");
        }
        assert_eq!(post.score, ContentScore { votes_up: 3, votes_down: 2, absolute_score: 1 });
    }
}

#[test]
fn deltas_are_the_difference_between_the_votes() {
    let delta = |up, down, abs| ScoreDeltas { votes_up: up, votes_down: down, absolute_score: abs };
    assert_eq!(score_deltas(None, 1), delta(1, 0, 1));
    assert_eq!(score_deltas(None, -1), delta(0, 1, -1));
    assert_eq!(score_deltas(None, 0), delta(0, 0, 0));
    assert_eq!(score_deltas(Some(0), 1), delta(1, 0, 1));
    assert_eq!(score_deltas(Some(1), -1), delta(-1, 1, -2));
    assert_eq!(score_deltas(Some(-1), 1), delta(1, -1, 2));
    assert_eq!(score_deltas(Some(1), 0), delta(-1, 0, -1));
    assert_eq!(score_deltas(Some(-1), 0), delta(0, -1, 1));
    assert_eq!(score_deltas(Some(1), 1), delta(0, 0, 0));
    assert_eq!(score_deltas(Some(-1), -1), delta(0, 0, 0));
}

#[test]
fn votes_outside_the_three_values_are_refused() {
    for value in [-2, 2, 100, i32::MIN, i32::MAX] {
        assert!(matches!(check_vote(value), Err(Failure::BadRequest("invalid vote"))));
        assert!(matches!(
            VoteMachine::begin(value, 0),
            Err(Failure::BadRequest("invalid vote"))
        ));
    }
    for value in [-1, 0, 1] {
        assert!(matches!(check_vote(value), Ok(v) if v == value));
    }
}

#[test]
fn counters_do_not_leave_their_type() {
    let full = ContentScore { votes_up: i32::MAX, votes_down: 0, absolute_score: i32::MAX };
    assert_eq!(full.apply(&score_deltas(None, 1)), None);
    assert_eq!(
        full.apply(&score_deltas(Some(1), 0)),
        Some(ContentScore { votes_up: i32::MAX - 1, votes_down: 0, absolute_score: i32::MAX - 1 })
    );
}

#[test]
fn a_first_vote_is_inserted() {
    let (mut machine, step) = VoteMachine::begin(1, 77).expect("a vote");
    assert!(matches!(step, VoteStep::FindVote));
    assert!(matches!(machine.advance(StoreReply::Found(None)), VoteStep::StartTransaction));
    assert!(matches!(machine.advance(StoreReply::Done), VoteStep::InsertVote { value: 1 }));
    let step = machine.advance(StoreReply::Done);
    assert!(matches!(
        step,
        VoteStep::UpdateScore {
            deltas: ScoreDeltas { votes_up: 1, votes_down: 0, absolute_score: 1 },
            trending_seconds: 77
        }
    ));
    assert!(matches!(machine.advance(StoreReply::Matched(1)), VoteStep::CommitTransaction));
    assert!(matches!(machine.advance(StoreReply::Done), VoteStep::ReadVotes));
    let step = machine.advance(StoreReply::Counters(Some(Votes { up: 1, down: 0 })));
    assert!(matches!(step, VoteStep::Succeed(Votes { up: 1, down: 0 })));
    assert!(matches!(machine.phase, VotePhase::Finished));
    assert_eq!(machine.attempt, 1);
}

#[test]
fn a_changed_vote_is_updated_in_place() {
    let (mut machine, _) = VoteMachine::begin(-1, 5).expect("a vote");
    machine.advance(StoreReply::Found(Some(1)));
    let step = machine.advance(StoreReply::Done);
    assert!(matches!(step, VoteStep::UpdateVote { expected: 1, value: -1 }));
    let step = machine.advance(StoreReply::Matched(1));
    assert!(matches!(
        step,
        VoteStep::UpdateScore {
            deltas: ScoreDeltas { votes_up: -1, votes_down: 1, absolute_score: -2 },
            trending_seconds: 5
        }
    ));
}

#[test]
fn a_lost_race_starts_over_and_reads_the_vote_again() {
    let (mut machine, _) = VoteMachine::begin(1, 0).expect("a vote");
    machine.advance(StoreReply::Found(Some(0)));
    machine.advance(StoreReply::Done);
    // Somebody else changed the vote in between: no match.
    assert!(matches!(machine.advance(StoreReply::Matched(0)), VoteStep::AbortTransaction));
    assert_eq!(machine.attempt, 2);
    assert!(matches!(machine.advance(StoreReply::Done), VoteStep::FindVote));
    machine.advance(StoreReply::Found(Some(-1)));
    let step = machine.advance(StoreReply::Done);
    assert!(matches!(step, VoteStep::UpdateVote { expected: -1, value: 1 }));
    // A failed commit is a lost race too.
    machine.advance(StoreReply::Matched(1));
    machine.advance(StoreReply::Matched(1));
    assert!(matches!(machine.advance(StoreReply::Failed), VoteStep::AbortTransaction));
    assert_eq!(machine.attempt, 3);
}

#[test]
fn the_eighth_lost_race_gives_up() {
    let (mut machine, _) = VoteMachine::begin(1, 0).expect("a vote");
    let mut attempts = 0;
    loop {
        attempts += 1;
        machine.advance(StoreReply::Found(None));
        machine.advance(StoreReply::Done);
        match machine.advance(StoreReply::Failed) {
            VoteStep::AbortTransaction => {
                assert!(matches!(machine.advance(StoreReply::Done), VoteStep::FindVote));
            }
            VoteStep::GiveUp => break,
            other => panic!("unexpected step {:?}", other),
        }
    }
    assert_eq!(attempts, 8);
    assert_eq!(machine.attempt, MAX_VOTE_ATTEMPTS);
    assert!(matches!(machine.advance(StoreReply::Done), VoteStep::GiveUp));
}

#[test]
fn vanished_content_is_an_unexpected_failure() {
    let (mut machine, _) = VoteMachine::begin(1, 0).expect("a vote");
    machine.advance(StoreReply::Found(None));
    machine.advance(StoreReply::Done);
    machine.advance(StoreReply::Done);
    assert!(matches!(machine.advance(StoreReply::Matched(0)), VoteStep::GiveUp));

    let (mut machine, _) = VoteMachine::begin(1, 0).expect("a vote");
    machine.advance(StoreReply::Found(None));
    machine.advance(StoreReply::Done);
    machine.advance(StoreReply::Done);
    machine.advance(StoreReply::Matched(1));
    machine.advance(StoreReply::Done);
    assert!(matches!(machine.advance(StoreReply::Counters(None)), VoteStep::GiveUp));
}

#[test]
fn failures_outside_the_transaction_are_not_retried() {
    let (mut machine, _) = VoteMachine::begin(0, 0).expect("a vote");
    assert!(matches!(machine.advance(StoreReply::Failed), VoteStep::GiveUp));

    let (mut machine, _) = VoteMachine::begin(0, 0).expect("a vote");
    machine.advance(StoreReply::Found(None));
    assert!(matches!(machine.advance(StoreReply::Failed), VoteStep::GiveUp));

    let (mut machine, _) = VoteMachine::begin(0, 0).expect("a vote");
    assert!(matches!(machine.advance(StoreReply::Found(Some(5))), VoteStep::GiveUp));
}
