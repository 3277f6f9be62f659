//! Sequential identifiers: every new piece of content gets the number after
//! the highest one in its collection.
//!
//! Nothing is locked. A unique index on the number refuses the insert of
//! whoever comes second with the same number, and the loser reads the
//! highest number again.

use crate::masked_oid::RecordId;
use vstd::prelude::*;

verus! {

/// How many times the creation of a post is tried before it is given up.
pub const MAX_POST_ATTEMPTS: u32 = 100;

/// How many times the creation of a comment is tried before it is given up.
pub const MAX_COMMENT_ATTEMPTS: u32 = 8;

/// The code of the write error by which the store refuses a duplicate key.
pub const DUPLICATE_KEY: i32 = 11000;

/// The number after the highest one, or 1 in an empty collection.
pub open spec fn next_sequential_id(last: Option<int>) -> int {
    match last {
        Some(highest) => highest + 1,
        None => 1,
    }
}

/// The highest number as it was read from the store, as a number.
pub open spec fn read_number(last: Option<i32>) -> Option<int> {
    match last {
        Some(highest) => Some(highest as int),
        None => None,
    }
}

/// The number to propose for new content, given the highest one in the
/// collection, if there is any.
pub fn propose_sequential_id(last_sequential_id: Option<i32>) -> (candidate: i32)
    requires
        last_sequential_id != Some(i32::MAX),
    ensures
        candidate == next_sequential_id(read_number(last_sequential_id)),
{
    match last_sequential_id {
        Some(highest) => highest + 1,
        None => 1,
    }
}

/// The number to propose for new content, unless the numbers are used up.
pub fn checked_sequential_id(last_sequential_id: Option<i32>) -> (candidate: Option<i32>)
    ensures
        last_sequential_id != Some(i32::MAX) ==> candidate == Some(
            next_sequential_id(read_number(last_sequential_id)) as i32,
        ),
        last_sequential_id == Some(i32::MAX) ==> candidate is None,
{
    match last_sequential_id {
        Some(highest) => if highest == i32::MAX {
            None
        } else {
            Some(propose_sequential_id(last_sequential_id))
        },
        None => Some(propose_sequential_id(last_sequential_id)),
    }
}

/// The highest of the numbers, if there is any.
pub open spec fn highest(numbers: Seq<int>) -> Option<int>
    decreases numbers.len(),
{
    if numbers.len() == 0 {
        None
    } else {
        match highest(numbers.drop_last()) {
            Some(before) => if before >= numbers.last() {
                Some(before)
            } else {
                Some(numbers.last())
            },
            None => Some(numbers.last()),
        }
    }
}

/// The number that is proposed by whoever has seen `numbers`.
pub open spec fn proposal(numbers: Seq<int>) -> int {
    next_sequential_id(highest(numbers))
}

/// The numbers of a collection after its first `upto` creations, in the
/// order in which they were committed. The creation at position `i` read the
/// highest number when `reads[i]` creations had been committed, and
/// proposed the number after it.
pub open spec fn created(reads: Seq<nat>, upto: nat) -> Seq<int>
    decreases upto,
{
    if upto == 0 || upto > reads.len() {
        Seq::empty()
    } else {
        let seen = if reads[upto - 1] < upto {
            reads[upto - 1]
        } else {
            (upto - 1) as nat
        };
        created(reads, (upto - 1) as nat).push(proposal(created(reads, seen)))
    }
}

/// Whether the unique index let every creation up to `upto` through: none
/// proposed a number that the collection held at the time of its insert.
pub open spec fn all_accepted(reads: Seq<nat>, upto: nat) -> bool {
    forall|i: int|
        0 <= i < upto ==> !created(reads, i as nat).contains(
            #[trigger] created(reads, (i + 1) as nat)[i],
        )
}

/// Whether the numbers are 1, 2, 3 and so on, in this order.
pub open spec fn counts_from_one(numbers: Seq<int>) -> bool {
    forall|i: int| 0 <= i < numbers.len() ==> numbers[i] == i + 1
}

/// The highest of the numbers 1 to n is n.
proof fn lemma_highest_of_count(numbers: Seq<int>)
    requires
        counts_from_one(numbers),
    ensures
        proposal(numbers) == numbers.len() + 1,
    decreases numbers.len(),
{
    if numbers.len() > 0 {
        lemma_highest_of_count(numbers.drop_last());
    }
}

/// The numbers after `shorter` creations are the first `shorter` of those
/// after `upto` creations.
proof fn lemma_created_prefix(reads: Seq<nat>, shorter: nat, upto: nat)
    requires
        shorter <= upto <= reads.len(),
    ensures
        created(reads, upto).len() == upto,
        created(reads, shorter) == created(reads, upto).subrange(0, shorter as int),
    decreases upto,
{
    if upto == 0 {
        assert(created(reads, shorter) =~= created(reads, upto).subrange(0, shorter as int));
    } else {
        lemma_created_prefix(reads, if shorter < upto {
            shorter
        } else {
            (upto - 1) as nat
        }, (upto - 1) as nat);
        assert(created(reads, shorter) =~= created(reads, upto).subrange(0, shorter as int));
    }
}

/// However the creations of new content overlap, if the unique index let
/// each of them through, then the numbers of the first `upto` pieces of
/// content in a collection that started empty are exactly 1 to `upto`,
/// without a gap and without a duplicate.
pub proof fn lemma_accepted_numbers_count_from_one(reads: Seq<nat>, upto: nat)
    requires
        upto <= reads.len(),
        all_accepted(reads, upto),
    ensures
        created(reads, upto).len() == upto,
        counts_from_one(created(reads, upto)),
    decreases upto,
{
    lemma_created_prefix(reads, upto, upto);
    if upto > 0 {
        let before = (upto - 1) as nat;
        let seen = if reads[upto - 1] < upto {
            reads[upto - 1]
        } else {
            before
        };
        assert(all_accepted(reads, before)) by {
            assert forall|i: int| 0 <= i < before implies !created(reads, i as nat).contains(
                #[trigger] created(reads, (i + 1) as nat)[i],
            ) by {}
        }
        lemma_accepted_numbers_count_from_one(reads, before);
        lemma_created_prefix(reads, seen, before);
        lemma_created_prefix(reads, before, upto);
        let earlier = created(reads, before);
        let snapshot = created(reads, seen);
        assert(counts_from_one(snapshot));
        lemma_highest_of_count(snapshot);
        let candidate = proposal(snapshot);
        assert(candidate == seen + 1);
        assert(created(reads, upto)[upto - 1] == candidate);
        assert(!earlier.contains(candidate));
        if seen < before {
            assert(earlier[seen as int] == seen + 1);
            assert(earlier.contains(candidate));
        }
        assert(seen == before);
    }
}

/// What the store answered to a step of a creation.
#[derive(Clone, Copy, Debug)]
pub enum CreationReply {
    /// The step failed without a write error.
    Failed,
    /// A write was refused with this error code.
    WriteError { code: i32 },
    /// The step was taken and has nothing to tell.
    Done,
    /// The highest sequential identifier in the collection, if there is one.
    LastId(Option<i32>),
    /// How many documents an update modified.
    Modified(u64),
    /// The content was inserted under this identifier.
    Inserted(RecordId),
}

/// What is to be done next for a creation.
#[derive(Clone, Copy, Debug)]
pub enum CreationStep {
    /// Abort the open transaction.
    AbortTransaction,
    /// Read the highest sequential identifier of the collection.
    ReadLastId,
    /// Start a transaction.
    StartTransaction,
    /// Add one to the reply counter of the direct parent comment.
    CountReplyOnComment,
    /// Add one to the reply counter of the parent post.
    CountReplyOnPost,
    /// Insert the content with this sequential identifier.
    Insert { sequential_id: i32 },
    /// Commit the transaction.
    CommitTransaction,
    /// The content is created under this identifier.
    Succeed(RecordId),
    /// The request is refused: the direct parent comment is not there.
    RefuseMissingComment,
    /// The request is refused: the parent post is not there.
    RefuseMissingPost,
    /// The creation is given up as an unexpected failure.
    GiveUp,
}

/// Where the creation of a post stands.
#[derive(Clone, Copy, Debug)]
pub enum PostPhase {
    /// The highest sequential identifier is being read.
    ReadingLast,
    /// The post is being inserted.
    Inserting,
    /// The creation has ended.
    Finished,
}

/// The creation of one post on its way through the store.
#[derive(Clone, Copy, Debug)]
pub struct PostCreation {
    /// The number of the attempt that is under way, from 1.
    pub attempt: u32,
    /// Where the attempt stands.
    pub phase: PostPhase,
}

/// The protocol of the creation of a post: the machine and the step that
/// follow from a machine and the store's answer to its last step.
///
/// An insert that the store refuses for a duplicate key starts the next
/// attempt, up to the last one. Every other failure ends the creation.
pub open spec fn post_transition(machine: PostCreation, reply: CreationReply) -> (
    PostCreation,
    CreationStep,
) {
    let give_up = (PostCreation { phase: PostPhase::Finished, ..machine }, CreationStep::GiveUp);
    match (machine.phase, reply) {
        (PostPhase::ReadingLast, CreationReply::LastId(last)) => if last == Some(i32::MAX) {
            give_up
        } else {
            (
                PostCreation { phase: PostPhase::Inserting, ..machine },
                CreationStep::Insert { sequential_id: next_sequential_id(read_number(last)) as i32 },
            )
        },
        (PostPhase::Inserting, CreationReply::Inserted(id)) => (
            PostCreation { phase: PostPhase::Finished, ..machine },
            CreationStep::Succeed(id),
        ),
        (PostPhase::Inserting, CreationReply::WriteError { code }) => if code == DUPLICATE_KEY
            && machine.attempt < MAX_POST_ATTEMPTS {
            (
                PostCreation { attempt: (machine.attempt + 1) as u32, phase: PostPhase::ReadingLast },
                CreationStep::ReadLastId,
            )
        } else {
            give_up
        },
        _ => give_up,
    }
}

impl PostCreation {
    /// Whether the machine is one that `begin` and `advance` produce.
    pub open spec fn well_formed(&self) -> bool {
        1 <= self.attempt <= MAX_POST_ATTEMPTS
    }

    /// Starts the creation of a post: the first step is to read the highest
    /// sequential identifier.
    pub fn begin() -> (start: (PostCreation, CreationStep))
        ensures
            start.0 == (PostCreation { attempt: 1, phase: PostPhase::ReadingLast }),
            start.1 == CreationStep::ReadLastId,
            start.0.well_formed(),
    {
        (PostCreation { attempt: 1, phase: PostPhase::ReadingLast }, CreationStep::ReadLastId)
    }

    /// Takes the store's answer to the last step and says what to do next.
    pub fn advance(&mut self, reply: CreationReply) -> (step: CreationStep)
        requires
            old(self).well_formed(),
        ensures
            (*final(self), step) == post_transition(*old(self), reply),
            final(self).well_formed(),
    {
        match (self.phase, reply) {
            (PostPhase::ReadingLast, CreationReply::LastId(last)) => {
                match checked_sequential_id(last) {
                    Some(sequential_id) => {
                        self.phase = PostPhase::Inserting;
                        CreationStep::Insert { sequential_id }
                    },
                    None => {
                        self.phase = PostPhase::Finished;
                        CreationStep::GiveUp
                    },
                }
            },
            (PostPhase::Inserting, CreationReply::Inserted(id)) => {
                self.phase = PostPhase::Finished;
                CreationStep::Succeed(id)
            },
            (PostPhase::Inserting, CreationReply::WriteError { code }) => {
                if code == DUPLICATE_KEY && self.attempt < MAX_POST_ATTEMPTS {
                    self.attempt = self.attempt + 1;
                    self.phase = PostPhase::ReadingLast;
                    CreationStep::ReadLastId
                } else {
                    self.phase = PostPhase::Finished;
                    CreationStep::GiveUp
                }
            },
            _ => {
                self.phase = PostPhase::Finished;
                CreationStep::GiveUp
            },
        }
    }
}

/// Where the creation of a comment stands.
#[derive(Clone, Copy, Debug)]
pub enum CommentPhase {
    /// The transaction of the attempt before is being aborted.
    Aborting,
    /// The highest sequential identifier is being read.
    ReadingLast,
    /// A transaction is being started.
    Opening { sequential_id: i32 },
    /// The reply counter of the direct parent comment is being raised.
    CountingOnComment { sequential_id: i32 },
    /// The reply counter of the parent post is being raised.
    CountingOnPost { sequential_id: i32 },
    /// The comment is being inserted.
    Inserting,
    /// The transaction is being committed.
    Committing { id: RecordId },
    /// The creation has ended.
    Finished,
}

/// The creation of one comment on its way through the store.
#[derive(Clone, Copy, Debug)]
pub struct CommentCreation {
    /// Whether the comment replies to another comment.
    pub has_parent_comment: bool,
    /// The number of the attempt that is under way, from 1.
    pub attempt: u32,
    /// Where the attempt stands.
    pub phase: CommentPhase,
}

/// The machine after a lost race, and what to do: start the next attempt by
/// aborting the transaction, or give up when the attempts are used up.
pub open spec fn comment_retry(machine: CommentCreation) -> (CommentCreation, CreationStep) {
    if machine.attempt >= MAX_COMMENT_ATTEMPTS {
        (CommentCreation { phase: CommentPhase::Finished, ..machine }, CreationStep::GiveUp)
    } else {
        (
            CommentCreation {
                attempt: (machine.attempt + 1) as u32,
                phase: CommentPhase::Aborting,
                ..machine
            },
            CreationStep::AbortTransaction,
        )
    }
}

/// The machine at its end, with the last step `step`.
pub open spec fn comment_end(machine: CommentCreation, step: CreationStep) -> (
    CommentCreation,
    CreationStep,
) {
    (CommentCreation { phase: CommentPhase::Finished, ..machine }, step)
}

/// The machine in the phase `phase`, with the step `step` to take.
pub open spec fn comment_go(machine: CommentCreation, phase: CommentPhase, step: CreationStep)
    -> (CommentCreation, CreationStep) {
    (CommentCreation { phase, ..machine }, step)
}

/// The protocol of the creation of a comment: the machine and the step that
/// follow from a machine and the store's answer to its last step.
///
/// Inside the transaction the reply counter of the direct parent comment, if
/// there is one, and that of the parent post are raised, and the comment is
/// inserted. A counter that cannot be raised because its document is not
/// there refuses the request.
///
/// An insert that the store refuses for a duplicate key is a lost race for
/// the sequential identifier: the attempt starts over, and the highest
/// identifier is read again. An insert that fails in any other way ends the
/// creation. A counter update or a commit that fails is a lost race too,
/// whatever the error. Everything else that is not the expected answer ends
/// the creation as an unexpected failure.
pub open spec fn comment_transition(machine: CommentCreation, reply: CreationReply) -> (
    CommentCreation,
    CreationStep,
) {
    match (machine.phase, reply) {
        (CommentPhase::Aborting, CreationReply::Done) => comment_go(
            machine,
            CommentPhase::ReadingLast,
            CreationStep::ReadLastId,
        ),
        (CommentPhase::ReadingLast, CreationReply::LastId(last)) => if last == Some(i32::MAX) {
            comment_end(machine, CreationStep::GiveUp)
        } else {
            comment_go(
                machine,
                CommentPhase::Opening { sequential_id: next_sequential_id(read_number(last)) as i32 },
                CreationStep::StartTransaction,
            )
        },
        (CommentPhase::Opening { sequential_id }, CreationReply::Done) => if machine.has_parent_comment {
            comment_go(
                machine,
                CommentPhase::CountingOnComment { sequential_id },
                CreationStep::CountReplyOnComment,
            )
        } else {
            comment_go(
                machine,
                CommentPhase::CountingOnPost { sequential_id },
                CreationStep::CountReplyOnPost,
            )
        },
        (CommentPhase::CountingOnComment { sequential_id }, CreationReply::Modified(count)) => if count
            == 1 {
            comment_go(
                machine,
                CommentPhase::CountingOnPost { sequential_id },
                CreationStep::CountReplyOnPost,
            )
        } else {
            comment_end(machine, CreationStep::RefuseMissingComment)
        },
        (CommentPhase::CountingOnComment { sequential_id }, CreationReply::Failed) => comment_retry(
            machine,
        ),
        (CommentPhase::CountingOnComment { sequential_id }, CreationReply::WriteError { code }) => comment_retry(
            machine,
        ),
        (CommentPhase::CountingOnPost { sequential_id }, CreationReply::Modified(count)) => if count
            == 1 {
            comment_go(machine, CommentPhase::Inserting, CreationStep::Insert { sequential_id })
        } else {
            comment_end(machine, CreationStep::RefuseMissingPost)
        },
        (CommentPhase::CountingOnPost { sequential_id }, CreationReply::Failed) => comment_retry(
            machine,
        ),
        (CommentPhase::CountingOnPost { sequential_id }, CreationReply::WriteError { code }) => comment_retry(
            machine,
        ),
        (CommentPhase::Inserting, CreationReply::Inserted(id)) => comment_go(
            machine,
            CommentPhase::Committing { id },
            CreationStep::CommitTransaction,
        ),
        (CommentPhase::Inserting, CreationReply::WriteError { code }) => if code == DUPLICATE_KEY {
            comment_retry(machine)
        } else {
            comment_end(machine, CreationStep::GiveUp)
        },
        (CommentPhase::Committing { id }, CreationReply::Done) => comment_end(
            machine,
            CreationStep::Succeed(id),
        ),
        (CommentPhase::Committing { id }, CreationReply::Failed) => comment_retry(machine),
        (CommentPhase::Committing { id }, CreationReply::WriteError { code }) => comment_retry(
            machine,
        ),
        _ => comment_end(machine, CreationStep::GiveUp),
    }
}

impl CommentCreation {
    /// Whether the machine is one that `begin` and `advance` produce.
    pub open spec fn well_formed(&self) -> bool {
        1 <= self.attempt <= MAX_COMMENT_ATTEMPTS
    }

    /// Starts the creation of a comment: the first step is to read the
    /// highest sequential identifier.
    pub fn begin(has_parent_comment: bool) -> (start: (CommentCreation, CreationStep))
        ensures
            start.0 == (CommentCreation {
                has_parent_comment,
                attempt: 1,
                phase: CommentPhase::ReadingLast,
            }),
            start.1 == CreationStep::ReadLastId,
            start.0.well_formed(),
    {
        (
            CommentCreation { has_parent_comment, attempt: 1, phase: CommentPhase::ReadingLast },
            CreationStep::ReadLastId,
        )
    }

    fn retry(&mut self) -> (step: CreationStep)
        requires
            old(self).well_formed(),
        ensures
            (*final(self), step) == comment_retry(*old(self)),
            final(self).well_formed(),
    {
        if self.attempt >= MAX_COMMENT_ATTEMPTS {
            self.phase = CommentPhase::Finished;
            CreationStep::GiveUp
        } else {
            self.attempt = self.attempt + 1;
            self.phase = CommentPhase::Aborting;
            CreationStep::AbortTransaction
        }
    }

    fn end(&mut self, last: CreationStep) -> (step: CreationStep)
        requires
            old(self).well_formed(),
        ensures
            (*final(self), step) == comment_end(*old(self), last),
            final(self).well_formed(),
    {
        self.phase = CommentPhase::Finished;
        last
    }

    fn go(&mut self, phase: CommentPhase, next: CreationStep) -> (step: CreationStep)
        requires
            old(self).well_formed(),
        ensures
            (*final(self), step) == comment_go(*old(self), phase, next),
            final(self).well_formed(),
    {
        self.phase = phase;
        next
    }

    /// Takes the store's answer to the last step and says what to do next.
    pub fn advance(&mut self, reply: CreationReply) -> (step: CreationStep)
        requires
            old(self).well_formed(),
        ensures
            (*final(self), step) == comment_transition(*old(self), reply),
            final(self).well_formed(),
    {
        match (self.phase, reply) {
            (CommentPhase::Aborting, CreationReply::Done) => self.go(
                CommentPhase::ReadingLast,
                CreationStep::ReadLastId,
            ),
            (CommentPhase::ReadingLast, CreationReply::LastId(last)) => {
                match checked_sequential_id(last) {
                    Some(sequential_id) => self.go(
                        CommentPhase::Opening { sequential_id },
                        CreationStep::StartTransaction,
                    ),
                    None => self.end(CreationStep::GiveUp),
                }
            },
            (CommentPhase::Opening { sequential_id }, CreationReply::Done) => {
                if self.has_parent_comment {
                    self.go(
                        CommentPhase::CountingOnComment { sequential_id },
                        CreationStep::CountReplyOnComment,
                    )
                } else {
                    self.go(
                        CommentPhase::CountingOnPost { sequential_id },
                        CreationStep::CountReplyOnPost,
                    )
                }
            },
            (CommentPhase::CountingOnComment { sequential_id }, CreationReply::Modified(count)) => {
                if count == 1 {
                    self.go(
                        CommentPhase::CountingOnPost { sequential_id },
                        CreationStep::CountReplyOnPost,
                    )
                } else {
                    self.end(CreationStep::RefuseMissingComment)
                }
            },
            (CommentPhase::CountingOnComment { sequential_id: _ }, CreationReply::Failed) => {
                self.retry()
            },
            (
                CommentPhase::CountingOnComment { sequential_id: _ },
                CreationReply::WriteError { code: _ },
            ) => self.retry(),
            (CommentPhase::CountingOnPost { sequential_id }, CreationReply::Modified(count)) => {
                if count == 1 {
                    self.go(CommentPhase::Inserting, CreationStep::Insert { sequential_id })
                } else {
                    self.end(CreationStep::RefuseMissingPost)
                }
            },
            (CommentPhase::CountingOnPost { sequential_id: _ }, CreationReply::Failed) => {
                self.retry()
            },
            (
                CommentPhase::CountingOnPost { sequential_id: _ },
                CreationReply::WriteError { code: _ },
            ) => self.retry(),
            (CommentPhase::Inserting, CreationReply::Inserted(id)) => self.go(
                CommentPhase::Committing { id },
                CreationStep::CommitTransaction,
            ),
            (CommentPhase::Inserting, CreationReply::WriteError { code }) => {
                if code == DUPLICATE_KEY {
                    self.retry()
                } else {
                    self.end(CreationStep::GiveUp)
                }
            },
            (CommentPhase::Committing { id }, CreationReply::Done) => self.end(
                CreationStep::Succeed(id),
            ),
            (CommentPhase::Committing { id: _ }, CreationReply::Failed) => self.retry(),
            (CommentPhase::Committing { id: _ }, CreationReply::WriteError { code: _ }) => {
                self.retry()
            },
            _ => self.end(CreationStep::GiveUp),
        }
    }
}

/// A bound on the number of steps that the creation of a post can still
/// take.
pub open spec fn post_steps_left(machine: PostCreation) -> nat {
    match machine.phase {
        PostPhase::ReadingLast => ((MAX_POST_ATTEMPTS - machine.attempt) * 2 + 2) as nat,
        PostPhase::Inserting => ((MAX_POST_ATTEMPTS - machine.attempt) * 2 + 1) as nat,
        PostPhase::Finished => 0,
    }
}

/// The creation of a post ends: whatever the store answers, each step of a
/// creation that has not ended brings it closer to its end, which is at most
/// 200 steps away. No post is tried more than `MAX_POST_ATTEMPTS` times.
pub proof fn lemma_post_creation_comes_to_an_end(machine: PostCreation, reply: CreationReply)
    requires
        machine.well_formed(),
        !(machine.phase is Finished),
    ensures
        post_steps_left(post_transition(machine, reply).0) < post_steps_left(machine),
        post_steps_left(machine) <= 200,
        post_transition(machine, reply).0.attempt <= MAX_POST_ATTEMPTS,
        post_transition(machine, reply).0.phase is Finished <==> (post_transition(machine, reply).1
            is Succeed || post_transition(machine, reply).1 is GiveUp),
{
}

/// How far a phase is from the start of its attempt.
pub open spec fn comment_phase_rank(phase: CommentPhase) -> nat {
    match phase {
        CommentPhase::Aborting => 0,
        CommentPhase::ReadingLast => 1,
        CommentPhase::Opening { .. } => 2,
        CommentPhase::CountingOnComment { .. } => 3,
        CommentPhase::CountingOnPost { .. } => 4,
        CommentPhase::Inserting => 5,
        CommentPhase::Committing { .. } => 6,
        CommentPhase::Finished => 7,
    }
}

/// A bound on the number of steps that the creation of a comment can still
/// take.
pub open spec fn comment_steps_left(machine: CommentCreation) -> nat {
    if machine.phase is Finished {
        0
    } else {
        ((MAX_COMMENT_ATTEMPTS - machine.attempt) * 8 + 7 - comment_phase_rank(
            machine.phase,
        )) as nat
    }
}

/// The creation of a comment ends: whatever the store answers, each step of
/// a creation that has not ended brings it closer to its end, which is at
/// most 64 steps away. No comment is tried more than `MAX_COMMENT_ATTEMPTS`
/// times.
pub proof fn lemma_comment_creation_comes_to_an_end(
    machine: CommentCreation,
    reply: CreationReply,
)
    requires
        machine.well_formed(),
        !(machine.phase is Finished),
    ensures
        comment_steps_left(comment_transition(machine, reply).0) < comment_steps_left(machine),
        comment_steps_left(machine) <= 64,
        comment_transition(machine, reply).0.attempt <= MAX_COMMENT_ATTEMPTS,
        comment_transition(machine, reply).0.phase is Finished <==> (comment_transition(
            machine,
            reply,
        ).1 is Succeed || comment_transition(machine, reply).1 is GiveUp || comment_transition(
            machine,
            reply,
        ).1 is RefuseMissingComment || comment_transition(machine, reply).1
            is RefuseMissingPost),
{
}

/// Only a duplicate key restarts the cycle of reading the highest number,
/// proposing the next and inserting: an insert that the store refuses for a
/// duplicate key starts the next attempt while attempts are left, and an
/// insert that fails in any other way ends the creation at once, of a post
/// as of a comment.
pub proof fn lemma_only_a_duplicate_key_restarts_an_insert(
    post: PostCreation,
    comment: CommentCreation,
    code: i32,
)
    requires
        post.well_formed(),
        comment.well_formed(),
        post.phase is Inserting,
        comment.phase is Inserting,
    ensures
        code != DUPLICATE_KEY ==> post_transition(post, CreationReply::WriteError { code }).1
            is GiveUp,
        code != DUPLICATE_KEY ==> comment_transition(comment, CreationReply::WriteError { code }).1
            is GiveUp,
        post_transition(post, CreationReply::Failed).1 is GiveUp,
        comment_transition(comment, CreationReply::Failed).1 is GiveUp,
        post.attempt < MAX_POST_ATTEMPTS ==> post_transition(
            post,
            CreationReply::WriteError { code: DUPLICATE_KEY },
        ) == (
            PostCreation { attempt: (post.attempt + 1) as u32, phase: PostPhase::ReadingLast },
            CreationStep::ReadLastId,
        ),
        comment.attempt < MAX_COMMENT_ATTEMPTS ==> comment_transition(
            comment,
            CreationReply::WriteError { code: DUPLICATE_KEY },
        ) == (
            CommentCreation {
                attempt: (comment.attempt + 1) as u32,
                phase: CommentPhase::Aborting,
                ..comment
            },
            CreationStep::AbortTransaction,
        ),
{
}

} // verus!
