//! The vote ledger and the counters that are kept beside it.
//!
//! A user has at most one current vote on a piece of content, with a value of
//! -1, 0 or +1. The content carries `votes_up`, `votes_down` and
//! `absolute_score`, which change by the difference between the vote that is
//! cast and the one it replaces.

use crate::api_types::Failure;
use crate::posts::Votes;
use vstd::prelude::*;

verus! {

/// Whether `value` is one a vote can have.
pub open spec fn is_vote_value(value: i32) -> bool {
    -1 <= value <= 1
}

/// 1 where `held` is true, else 0.
pub open spec fn indicator(held: bool) -> int {
    if held {
        1
    } else {
        0
    }
}

/// The value of the vote that was there before, 0 where there was none.
pub open spec fn previous_value(existing: Option<i32>) -> int {
    match existing {
        Some(value) => value as int,
        None => 0,
    }
}

/// By how much `votes_up` changes when `requested` replaces `existing`.
pub open spec fn up_delta(existing: Option<i32>, requested: i32) -> int {
    indicator(requested == 1) - indicator(existing == Some(1i32))
}

/// By how much `votes_down` changes when `requested` replaces `existing`.
pub open spec fn down_delta(existing: Option<i32>, requested: i32) -> int {
    indicator(requested == -1) - indicator(existing == Some(-1i32))
}

/// By how much `absolute_score` changes when `requested` replaces `existing`.
pub open spec fn absolute_delta(existing: Option<i32>, requested: i32) -> int {
    requested - previous_value(existing)
}

/// The changes that one vote makes to the counters of its content.
#[derive(Clone, Copy, Debug, PartialEq, Eq, Structural)]
pub struct ScoreDeltas {
    pub votes_up: i32,
    pub votes_down: i32,
    pub absolute_score: i32,
}

/// The counters of a piece of content.
#[derive(Clone, Copy, Debug, PartialEq, Eq, Structural)]
pub struct ContentScore {
    pub votes_up: i32,
    pub votes_down: i32,
    pub absolute_score: i32,
}

/// Refuses a vote whose value is not -1, 0 or +1.
pub fn check_vote(value: i32) -> (result: Result<i32, Failure<()>>)
    ensures
        is_vote_value(value) ==> result == Ok::<i32, Failure<()>>(value),
        !is_vote_value(value) ==> (result matches Err(Failure::BadRequest(detail)) && detail@
            == "invalid vote"@),
{
    if -1 <= value && value <= 1 {
        Ok(value)
    } else {
        Err(Failure::BadRequest("invalid vote"))
    }
}

/// The changes to the counters when the vote `requested` replaces
/// `existing_vote`.
pub fn score_deltas(existing_vote: Option<i32>, requested: i32) -> (deltas: ScoreDeltas)
    requires
        is_vote_value(requested),
        existing_vote matches Some(value) ==> is_vote_value(value),
    ensures
        deltas.votes_up == up_delta(existing_vote, requested),
        deltas.votes_down == down_delta(existing_vote, requested),
        deltas.absolute_score == absolute_delta(existing_vote, requested),
        deltas.absolute_score == deltas.votes_up - deltas.votes_down,
{
    let was_up: i32 = match existing_vote {
        Some(1) => 1,
        _ => 0,
    };
    let was_down: i32 = match existing_vote {
        Some(-1) => 1,
        _ => 0,
    };
    let previous: i32 = match existing_vote {
        Some(value) => value,
        None => 0,
    };
    let up: i32 = if requested == 1 {
        1
    } else {
        0
    };
    let down: i32 = if requested == -1 {
        1
    } else {
        0
    };
    ScoreDeltas {
        votes_up: up - was_up,
        votes_down: down - was_down,
        absolute_score: requested - previous,
    }
}

impl ContentScore {
    /// Whether the counters agree: none is negative, and the absolute score
    /// is the votes up less the votes down.
    pub open spec fn consistent(&self) -> bool {
        &&& self.votes_up >= 0
        &&& self.votes_down >= 0
        &&& self.absolute_score == self.votes_up - self.votes_down
    }

    /// The counters of content that nobody has voted on.
    pub fn new() -> (score: ContentScore)
        ensures
            score == (ContentScore { votes_up: 0, votes_down: 0, absolute_score: 0 }),
            score.consistent(),
    {
        ContentScore { votes_up: 0, votes_down: 0, absolute_score: 0 }
    }

    /// Whether each counter, changed by its delta, still fits its type.
    pub open spec fn fits(&self, deltas: ScoreDeltas) -> bool {
        &&& i32::MIN <= self.votes_up + deltas.votes_up <= i32::MAX
        &&& i32::MIN <= self.votes_down + deltas.votes_down <= i32::MAX
        &&& i32::MIN <= self.absolute_score + deltas.absolute_score <= i32::MAX
    }

    /// Adds the deltas of one vote to the counters, all three at once.
    /// Nothing is returned where a counter would leave its type.
    pub fn apply(&self, deltas: &ScoreDeltas) -> (next: Option<ContentScore>)
        ensures
            self.fits(*deltas) <==> next is Some,
            next matches Some(score) ==> {
                &&& score.votes_up == self.votes_up + deltas.votes_up
                &&& score.votes_down == self.votes_down + deltas.votes_down
                &&& score.absolute_score == self.absolute_score + deltas.absolute_score
            },
    {
        let votes_up = match self.votes_up.checked_add(deltas.votes_up) {
            Some(sum) => sum,
            None => {
                return None;
            },
        };
        let votes_down = match self.votes_down.checked_add(deltas.votes_down) {
            Some(sum) => sum,
            None => {
                return None;
            },
        };
        let absolute_score = match self.absolute_score.checked_add(deltas.absolute_score) {
            Some(sum) => sum,
            None => {
                return None;
            },
        };
        Some(ContentScore { votes_up, votes_down, absolute_score })
    }

    /// The two counters that are shown to readers.
    pub fn votes(&self) -> (votes: Votes)
        requires
            self.votes_up >= 0,
            self.votes_down >= 0,
        ensures
            votes.up == self.votes_up,
            votes.down == self.votes_down,
    {
        Votes { up: self.votes_up as u32, down: self.votes_down as u32 }
    }
}

/// The votes on one piece of content, as a value: who holds which vote, and
/// the counters.
pub struct Ballot {
    pub ledger: Map<Seq<u8>, i32>,
    pub votes_up: int,
    pub votes_down: int,
    pub absolute_score: int,
}

/// The vote that `user` holds, if any.
pub open spec fn current_vote(ledger: Map<Seq<u8>, i32>, user: Seq<u8>) -> Option<i32> {
    if ledger.contains_key(user) {
        Some(ledger[user])
    } else {
        None
    }
}

/// The users who hold a vote of the value `value`.
pub open spec fn holders(ledger: Map<Seq<u8>, i32>, value: i32) -> Set<Seq<u8>> {
    ledger.dom().filter(|user: Seq<u8>| ledger[user] == value)
}

/// The ballot of content that nobody has voted on.
pub open spec fn empty_ballot() -> Ballot {
    Ballot { ledger: Map::empty(), votes_up: 0, votes_down: 0, absolute_score: 0 }
}

/// The ballot after a committed vote of `user` with the value `requested`:
/// the ledger holds the new vote in place of the old one, and the counters
/// have changed by the deltas between the two.
pub open spec fn cast(ballot: Ballot, user: Seq<u8>, requested: i32) -> Ballot {
    let existing = current_vote(ballot.ledger, user);
    Ballot {
        ledger: ballot.ledger.insert(user, requested),
        votes_up: ballot.votes_up + up_delta(existing, requested),
        votes_down: ballot.votes_down + down_delta(existing, requested),
        absolute_score: ballot.absolute_score + absolute_delta(existing, requested),
    }
}

/// The ballot after the first `upto` of a sequence of committed votes, each a
/// user and a value, from an empty ballot.
pub open spec fn cast_all(votes: Seq<(Seq<u8>, i32)>, upto: nat) -> Ballot
    decreases upto,
{
    if upto == 0 || upto > votes.len() {
        empty_ballot()
    } else {
        cast(cast_all(votes, (upto - 1) as nat), votes[upto - 1].0, votes[upto - 1].1)
    }
}

/// Whether the counters of a ballot agree with its ledger: every vote has a
/// value a vote can have, `votes_up` counts the holders of +1, `votes_down`
/// those of -1, and `absolute_score` is their difference.
pub open spec fn tallied(ballot: Ballot) -> bool {
    &&& ballot.ledger.dom().finite()
    &&& forall|user: Seq<u8>| #[trigger]
        ballot.ledger.contains_key(user) ==> is_vote_value(ballot.ledger[user])
    &&& ballot.votes_up == holders(ballot.ledger, 1).len()
    &&& ballot.votes_down == holders(ballot.ledger, -1i32).len()
    &&& ballot.absolute_score == ballot.votes_up - ballot.votes_down
}

/// How the holders of `value` change when `user` casts `requested`.
proof fn lemma_holders_after_cast(
    ledger: Map<Seq<u8>, i32>,
    user: Seq<u8>,
    requested: i32,
    value: i32,
)
    requires
        ledger.dom().finite(),
    ensures
        holders(ledger, value).finite(),
        holders(ledger.insert(user, requested), value).finite(),
        holders(ledger.insert(user, requested), value).len() == holders(ledger, value).len()
            + indicator(requested == value) - indicator(current_vote(ledger, user) == Some(value)),
{
    let before = holders(ledger, value);
    let after = holders(ledger.insert(user, requested), value);
    ledger.dom().lemma_len_filter(|u: Seq<u8>| ledger[u] == value);
    let without = before.remove(user);
    if requested == value {
        assert(after =~= without.insert(user));
    } else {
        assert(after =~= without);
    }
}

/// A committed vote keeps the counters in agreement with the ledger.
pub proof fn lemma_cast_keeps_tally(ballot: Ballot, user: Seq<u8>, requested: i32)
    requires
        tallied(ballot),
        is_vote_value(requested),
    ensures
        tallied(cast(ballot, user, requested)),
{
    lemma_holders_after_cast(ballot.ledger, user, requested, 1);
    lemma_holders_after_cast(ballot.ledger, user, requested, -1i32);
    let existing = current_vote(ballot.ledger, user);
    if ballot.ledger.contains_key(user) {
        assert(is_vote_value(ballot.ledger[user]));
    }
}

/// After any sequence of committed votes on content that started without
/// votes, in whatever order they were committed, `votes_up` is the number of
/// users whose current vote is +1, `votes_down` the number of those whose
/// current vote is -1, and `absolute_score` is `votes_up - votes_down`.
pub proof fn lemma_counters_match_ledger(votes: Seq<(Seq<u8>, i32)>, upto: nat)
    requires
        upto <= votes.len(),
        forall|i: int| 0 <= i < votes.len() ==> is_vote_value(#[trigger] votes[i].1),
    ensures
        tallied(cast_all(votes, upto)),
    decreases upto,
{
    if upto == 0 {
        assert(holders(Map::<Seq<u8>, i32>::empty(), 1) =~= Set::empty());
        assert(holders(Map::<Seq<u8>, i32>::empty(), -1i32) =~= Set::empty());
    } else {
        lemma_counters_match_ledger(votes, (upto - 1) as nat);
        lemma_cast_keeps_tally(
            cast_all(votes, (upto - 1) as nat),
            votes[upto - 1].0,
            votes[upto - 1].1,
        );
    }
}

/// How many of the first `upto` votes have the value `value`.
pub open spec fn count_votes(votes: Seq<(Seq<u8>, i32)>, value: i32, upto: nat) -> nat
    decreases upto,
{
    if upto == 0 || upto > votes.len() {
        0
    } else {
        count_votes(votes, value, (upto - 1) as nat) + if votes[upto - 1].1 == value {
            1nat
        } else {
            0nat
        }
    }
}

/// Whoever holds a vote after the first `upto` votes has cast one of them.
proof fn lemma_holders_have_voted(votes: Seq<(Seq<u8>, i32)>, upto: nat, user: Seq<u8>)
    requires
        upto <= votes.len(),
        cast_all(votes, upto).ledger.contains_key(user),
    ensures
        exists|i: int| 0 <= i < upto && (#[trigger] votes[i]).0 == user,
    decreases upto,
{
    if upto > 0 {
        if votes[upto - 1].0 != user {
            lemma_holders_have_voted(votes, (upto - 1) as nat, user);
            let i = choose|i: int| 0 <= i < upto - 1 && (#[trigger] votes[i]).0 == user;
            assert(votes[i].0 == user);
        }
    }
}

/// When every vote comes from another user, then, in whatever order the
/// votes were committed, `votes_up` is the number of votes of +1,
/// `votes_down` the number of votes of -1, and `absolute_score` is
/// `votes_up - votes_down`.
pub proof fn lemma_distinct_voters_are_counted(votes: Seq<(Seq<u8>, i32)>, upto: nat)
    requires
        upto <= votes.len(),
        forall|i: int| 0 <= i < votes.len() ==> is_vote_value(#[trigger] votes[i].1),
        forall|i: int, j: int| 0 <= i < j < votes.len() ==> votes[i].0 != votes[j].0,
    ensures
        cast_all(votes, upto).votes_up == count_votes(votes, 1, upto),
        cast_all(votes, upto).votes_down == count_votes(votes, -1i32, upto),
        cast_all(votes, upto).absolute_score == cast_all(votes, upto).votes_up - cast_all(
            votes,
            upto,
        ).votes_down,
    decreases upto,
{
    if upto > 0 {
        let before = cast_all(votes, (upto - 1) as nat);
        let user = votes[upto - 1].0;
        lemma_distinct_voters_are_counted(votes, (upto - 1) as nat);
        if before.ledger.contains_key(user) {
            lemma_holders_have_voted(votes, (upto - 1) as nat, user);
            let i = choose|i: int| 0 <= i < upto - 1 && (#[trigger] votes[i]).0 == user;
            assert(votes[i].0 != votes[upto - 1].0);
        }
        assert(current_vote(before.ledger, user) is None);
        assert(is_vote_value(votes[upto - 1].1));
    }
}

/// After a sequence of committed votes, the vote that a user holds is the
/// last one that the user cast.
pub proof fn lemma_ledger_holds_last_vote(votes: Seq<(Seq<u8>, i32)>, upto: nat, i: int)
    requires
        upto <= votes.len(),
        0 <= i < upto,
        forall|j: int| i < j < upto ==> votes[j].0 != votes[i].0,
    ensures
        current_vote(cast_all(votes, upto).ledger, votes[i].0) == Some(votes[i].1),
    decreases upto,
{
    if i < upto - 1 {
        lemma_ledger_holds_last_vote(votes, (upto - 1) as nat, i);
    }
}

/// Casting the value that the user already holds changes nothing: neither
/// the ledger nor any counter.
pub proof fn lemma_same_vote_again_changes_nothing(ballot: Ballot, user: Seq<u8>, value: i32)
    ensures
        cast(cast(ballot, user, value), user, value) == cast(ballot, user, value),
        up_delta(Some(value), value) == 0,
        down_delta(Some(value), value) == 0,
        absolute_delta(Some(value), value) == 0,
{
    let once = cast(ballot, user, value);
    let twice = cast(once, user, value);
    assert(twice.ledger =~= once.ledger);
}

/// How many times a vote is tried before it is given up.
pub const MAX_VOTE_ATTEMPTS: u32 = 8;

/// Where one vote stands in its protocol with the store.
#[derive(Clone, Copy, Debug)]
pub enum VotePhase {
    /// The transaction of the attempt before is being aborted.
    Aborting,
    /// The user's current vote is being looked up.
    Finding,
    /// A transaction is being started; `existing` is the vote that was found.
    Opening { existing: Option<i32> },
    /// The vote is being inserted, or updated in place of `existing`.
    Writing { existing: Option<i32> },
    /// The counters of the content are being changed.
    Scoring,
    /// The transaction is being committed.
    Committing,
    /// The counters are being read back.
    Reading,
    /// The vote has ended.
    Finished,
}

/// What the store answered to the step it was asked to take.
#[derive(Clone, Copy, Debug)]
pub enum StoreReply {
    /// The step failed.
    Failed,
    /// The step was taken and has nothing to tell.
    Done,
    /// The vote that was found, if there is one.
    Found(Option<i32>),
    /// How many documents an update matched.
    Matched(u64),
    /// The counters that were read, if the content is there.
    Counters(Option<Votes>),
}

/// What is to be done next for a vote.
#[derive(Clone, Copy, Debug)]
pub enum VoteStep {
    /// Abort the open transaction.
    AbortTransaction,
    /// Look up the user's current vote on the content.
    FindVote,
    /// Start a transaction.
    StartTransaction,
    /// Insert a vote with this value.
    InsertVote { value: i32 },
    /// Set the vote to `value` if it still holds `expected`.
    UpdateVote { expected: i32, value: i32 },
    /// Add the deltas to the counters of the content and recompute its
    /// trending score with this time offset, in one update.
    UpdateScore { deltas: ScoreDeltas, trending_seconds: u32 },
    /// Commit the transaction.
    CommitTransaction,
    /// Read the counters of the content.
    ReadVotes,
    /// The vote is cast; these are the counters to report.
    Succeed(Votes),
    /// The vote is given up as an unexpected failure.
    GiveUp,
}

/// One vote on its way through the store.
#[derive(Clone, Copy, Debug)]
pub struct VoteMachine {
    /// The value that is being cast.
    pub requested: i32,
    /// The time offset of the content's trending score, in seconds.
    pub trending_seconds: u32,
    /// The number of the attempt that is under way, from 1.
    pub attempt: u32,
    /// Where the attempt stands.
    pub phase: VotePhase,
}

/// Whether a vote that was found has a value a vote can have.
pub open spec fn is_known_vote(existing: Option<i32>) -> bool {
    existing matches Some(value) ==> is_vote_value(value)
}

/// The machine after a lost race, and what to do: start the next attempt by
/// aborting the transaction, or give up when the attempts are used up.
pub open spec fn vote_retry(machine: VoteMachine) -> (VoteMachine, VoteStep) {
    if machine.attempt >= MAX_VOTE_ATTEMPTS {
        (VoteMachine { phase: VotePhase::Finished, ..machine }, VoteStep::GiveUp)
    } else {
        (
            VoteMachine {
                attempt: (machine.attempt + 1) as u32,
                phase: VotePhase::Aborting,
                ..machine
            },
            VoteStep::AbortTransaction,
        )
    }
}

/// The machine after an unexpected failure.
pub open spec fn vote_give_up(machine: VoteMachine) -> (VoteMachine, VoteStep) {
    (VoteMachine { phase: VotePhase::Finished, ..machine }, VoteStep::GiveUp)
}

/// The machine in the phase `phase`, with the step `step` to take.
pub open spec fn vote_go(machine: VoteMachine, phase: VotePhase, step: VoteStep) -> (
    VoteMachine,
    VoteStep,
) {
    (VoteMachine { phase, ..machine }, step)
}

/// How the vote is written: inserted where none was found, else set in
/// place of the one that was found, provided that one is still there.
pub open spec fn write_step(existing: Option<i32>, requested: i32) -> VoteStep {
    match existing {
        None => VoteStep::InsertVote { value: requested },
        Some(expected) => VoteStep::UpdateVote { expected, value: requested },
    }
}

/// The change of the counters for the vote `requested` in place of `existing`.
pub open spec fn score_step(existing: Option<i32>, requested: i32, trending_seconds: u32)
    -> VoteStep {
    VoteStep::UpdateScore {
        deltas: ScoreDeltas {
            votes_up: up_delta(existing, requested) as i32,
            votes_down: down_delta(existing, requested) as i32,
            absolute_score: absolute_delta(existing, requested) as i32,
        },
        trending_seconds,
    }
}

/// The protocol of a vote: the machine and the step that follow from a
/// machine and the store's answer to its last step.
///
/// A failed insert, a failed update, an update that matched no vote and a
/// failed commit are lost races: the attempt starts over. Everything else
/// that is not the expected answer ends the vote as an unexpected failure.
pub open spec fn vote_transition(machine: VoteMachine, reply: StoreReply) -> (
    VoteMachine,
    VoteStep,
) {
    match (machine.phase, reply) {
        (VotePhase::Aborting, StoreReply::Done) => vote_go(
            machine,
            VotePhase::Finding,
            VoteStep::FindVote,
        ),
        (VotePhase::Finding, StoreReply::Found(existing)) => if is_known_vote(existing) {
            vote_go(machine, VotePhase::Opening { existing }, VoteStep::StartTransaction)
        } else {
            vote_give_up(machine)
        },
        (VotePhase::Opening { existing }, StoreReply::Done) => vote_go(
            machine,
            VotePhase::Writing { existing },
            write_step(existing, machine.requested),
        ),
        (VotePhase::Writing { existing }, StoreReply::Failed) => vote_retry(machine),
        (VotePhase::Writing { existing: None }, StoreReply::Done) => vote_go(
            machine,
            VotePhase::Scoring,
            score_step(None, machine.requested, machine.trending_seconds),
        ),
        (VotePhase::Writing { existing: Some(expected) }, StoreReply::Matched(count)) => if count
            == 1 {
            vote_go(
                machine,
                VotePhase::Scoring,
                score_step(Some(expected), machine.requested, machine.trending_seconds),
            )
        } else {
            vote_retry(machine)
        },
        (VotePhase::Scoring, StoreReply::Matched(count)) => if count == 1 {
            vote_go(machine, VotePhase::Committing, VoteStep::CommitTransaction)
        } else {
            vote_give_up(machine)
        },
        (VotePhase::Committing, StoreReply::Done) => vote_go(
            machine,
            VotePhase::Reading,
            VoteStep::ReadVotes,
        ),
        (VotePhase::Committing, StoreReply::Failed) => vote_retry(machine),
        (VotePhase::Reading, StoreReply::Counters(Some(votes))) => vote_go(
            machine,
            VotePhase::Finished,
            VoteStep::Succeed(votes),
        ),
        _ => vote_give_up(machine),
    }
}

impl VoteMachine {
    /// Whether the machine is one that `begin` and `advance` produce.
    pub open spec fn well_formed(&self) -> bool {
        &&& is_vote_value(self.requested)
        &&& 1 <= self.attempt <= MAX_VOTE_ATTEMPTS
        &&& match self.phase {
            VotePhase::Opening { existing } => is_known_vote(existing),
            VotePhase::Writing { existing } => is_known_vote(existing),
            _ => true,
        }
    }

    /// Starts a vote of the value `requested` on content whose trending
    /// score has the time offset `trending_seconds`. A value that no vote can
    /// have is refused; else the first step is to look up the current vote.
    pub fn begin(requested: i32, trending_seconds: u32) -> (result: Result<
        (VoteMachine, VoteStep),
        Failure<()>,
    >)
        ensures
            is_vote_value(requested) ==> (result matches Ok((machine, step)) && machine == (
            VoteMachine { requested, trending_seconds, attempt: 1, phase: VotePhase::Finding })
                && step == VoteStep::FindVote && machine.well_formed()),
            !is_vote_value(requested) ==> (result matches Err(Failure::BadRequest(detail))
                && detail@ == "invalid vote"@),
    {
        match check_vote(requested) {
            Ok(value) => Ok(
                (
                    VoteMachine {
                        requested: value,
                        trending_seconds,
                        attempt: 1,
                        phase: VotePhase::Finding,
                    },
                    VoteStep::FindVote,
                ),
            ),
            Err(failure) => Err(failure),
        }
    }

    fn retry(&mut self) -> (step: VoteStep)
        requires
            old(self).well_formed(),
        ensures
            (*final(self), step) == vote_retry(*old(self)),
            final(self).well_formed(),
    {
        if self.attempt >= MAX_VOTE_ATTEMPTS {
            self.phase = VotePhase::Finished;
            VoteStep::GiveUp
        } else {
            self.attempt = self.attempt + 1;
            self.phase = VotePhase::Aborting;
            VoteStep::AbortTransaction
        }
    }

    fn give_up(&mut self) -> (step: VoteStep)
        requires
            old(self).well_formed(),
        ensures
            (*final(self), step) == vote_give_up(*old(self)),
            final(self).well_formed(),
    {
        self.phase = VotePhase::Finished;
        VoteStep::GiveUp
    }

    fn score(&mut self, existing: Option<i32>) -> (step: VoteStep)
        requires
            old(self).well_formed(),
            is_known_vote(existing),
        ensures
            (*final(self), step) == vote_go(
                *old(self),
                VotePhase::Scoring,
                score_step(existing, old(self).requested, old(self).trending_seconds),
            ),
            final(self).well_formed(),
    {
        self.phase = VotePhase::Scoring;
        VoteStep::UpdateScore {
            deltas: score_deltas(existing, self.requested),
            trending_seconds: self.trending_seconds,
        }
    }

    /// Takes the store's answer to the last step and says what to do next.
    pub fn advance(&mut self, reply: StoreReply) -> (step: VoteStep)
        requires
            old(self).well_formed(),
        ensures
            (*final(self), step) == vote_transition(*old(self), reply),
            final(self).well_formed(),
    {
        match (self.phase, reply) {
            (VotePhase::Aborting, StoreReply::Done) => {
                self.phase = VotePhase::Finding;
                VoteStep::FindVote
            },
            (VotePhase::Finding, StoreReply::Found(existing)) => {
                let known = match existing {
                    Some(value) => -1 <= value && value <= 1,
                    None => true,
                };
                if known {
                    self.phase = VotePhase::Opening { existing };
                    VoteStep::StartTransaction
                } else {
                    self.give_up()
                }
            },
            (VotePhase::Opening { existing }, StoreReply::Done) => {
                self.phase = VotePhase::Writing { existing };
                match existing {
                    None => VoteStep::InsertVote { value: self.requested },
                    Some(expected) => VoteStep::UpdateVote { expected, value: self.requested },
                }
            },
            (VotePhase::Writing { existing: _ }, StoreReply::Failed) => self.retry(),
            (VotePhase::Writing { existing: None }, StoreReply::Done) => self.score(None),
            (VotePhase::Writing { existing: Some(expected) }, StoreReply::Matched(count)) => {
                if count == 1 {
                    self.score(Some(expected))
                } else {
                    self.retry()
                }
            },
            (VotePhase::Scoring, StoreReply::Matched(count)) => {
                if count == 1 {
                    self.phase = VotePhase::Committing;
                    VoteStep::CommitTransaction
                } else {
                    self.give_up()
                }
            },
            (VotePhase::Committing, StoreReply::Done) => {
                self.phase = VotePhase::Reading;
                VoteStep::ReadVotes
            },
            (VotePhase::Committing, StoreReply::Failed) => self.retry(),
            (VotePhase::Reading, StoreReply::Counters(Some(votes))) => {
                self.phase = VotePhase::Finished;
                VoteStep::Succeed(votes)
            },
            _ => self.give_up(),
        }
    }
}

/// How far a phase is from the start of its attempt.
pub open spec fn vote_phase_rank(phase: VotePhase) -> nat {
    match phase {
        VotePhase::Aborting => 0,
        VotePhase::Finding => 1,
        VotePhase::Opening { .. } => 2,
        VotePhase::Writing { .. } => 3,
        VotePhase::Scoring => 4,
        VotePhase::Committing => 5,
        VotePhase::Reading => 6,
        VotePhase::Finished => 7,
    }
}

/// A bound on the number of steps that a vote can still take.
pub open spec fn vote_steps_left(machine: VoteMachine) -> nat {
    if machine.phase is Finished {
        0
    } else {
        ((MAX_VOTE_ATTEMPTS - machine.attempt) * 8 + 7 - vote_phase_rank(machine.phase)) as nat
    }
}

/// Every vote ends: whatever the store answers, each step of a vote that has
/// not ended brings it closer to its end, which is at most 64 steps away. No
/// vote is tried more than `MAX_VOTE_ATTEMPTS` times.
pub proof fn lemma_vote_comes_to_an_end(machine: VoteMachine, reply: StoreReply)
    requires
        machine.well_formed(),
        !(machine.phase is Finished),
    ensures
        vote_steps_left(vote_transition(machine, reply).0) < vote_steps_left(machine),
        vote_steps_left(machine) <= 64,
        vote_transition(machine, reply).0.attempt <= MAX_VOTE_ATTEMPTS,
        vote_transition(machine, reply).0.phase is Finished <==> (vote_transition(machine, reply).1
            is Succeed || vote_transition(machine, reply).1 is GiveUp),
{
}

} // verus!
