use forum_core::masked_oid::RecordId;
use forum_core::sequence::{
    checked_sequential_id, propose_sequential_id, CommentCreation, CommentPhase, CreationReply,
    CreationStep, PostCreation, PostPhase, DUPLICATE_KEY, MAX_COMMENT_ATTEMPTS, MAX_POST_ATTEMPTS,
};

fn id(n: u8) -> RecordId {
    RecordId::from_bytes([n; 12])
}

#[test]
fn the_first_number_is_one() {
    assert_eq!(propose_sequential_id(None), 1);
    assert_eq!(propose_sequential_id(Some(0)), 1);
    assert_eq!(propose_sequential_id(Some(1)), 2);
    assert_eq!(propose_sequential_id(Some(41)), 42);
    assert_eq!(propose_sequential_id(Some(i32::MAX - 1)), i32::MAX);
    assert_eq!(checked_sequential_id(Some(i32::MAX)), None);
    assert_eq!(checked_sequential_id(Some(7)), Some(8));
    assert_eq!(checked_sequential_id(None), Some(1));
}

/// A collection with a unique index on the sequential identifier.
struct Collection {
    numbers: Vec<i32>,
}

impl Collection {
    fn last(&self) -> Option<i32> {
        self.numbers.iter().copied().max()
    }

    fn insert(&mut self, number: i32) -> CreationReply {
        if self.numbers.contains(&number) {
            CreationReply::WriteError { code: DUPLICATE_KEY }
        } else {
            self.numbers.push(number);
            CreationReply::Inserted(id(self.numbers.len() as u8))
        }
    }
}

#[test]
fn racing_creations_get_the_numbers_one_to_n() {
    // All of them read the highest number before any of them inserts, again
    // and again: each round one wins and the others start over.
    let n = 20usize;
    let mut collection = Collection { numbers: Vec::new() };
    let mut machines: Vec<PostCreation> = Vec::new();
    for _ in 0..n {
        let (machine, step) = PostCreation::begin();
        assert!(matches!(step, CreationStep::ReadLastId));
        machines.push(machine);
    }
    let mut done = vec![false; n];
    while done.iter().any(|d| !d) {
        let seen = collection.last();
        let mut inserts: Vec<(usize, i32)> = Vec::new();
        for (i, machine) in machines.iter_mut().enumerate() {
            if done[i] {
                continue;
            }
            match machine.advance(CreationReply::LastId(seen)) {
                CreationStep::Insert { sequential_id } => inserts.push((i, sequential_id)),
                other => panic!("unexpected step {:?}", other),
            }
        }
        for (i, number) in inserts {
            let reply = collection.insert(number);
            match machines[i].advance(reply) {
                CreationStep::Succeed(_) => done[i] = true,
                CreationStep::ReadLastId => {}
                other => panic!("unexpected step {:?}", other),
            }
        }
    }
    let expected: Vec<i32> = (1..=n as i32).collect();
    assert_eq!(collection.numbers, expected);
}

#[test]
fn a_post_is_given_up_after_a_hundred_duplicates() {
    let (mut machine, _) = PostCreation::begin();
    let mut attempts = 0;
    loop {
        attempts += 1;
        let step = machine.advance(CreationReply::LastId(Some(5)));
        assert!(matches!(step, CreationStep::Insert { sequential_id: 6 }));
        match machine.advance(CreationReply::WriteError { code: DUPLICATE_KEY }) {
            CreationStep::ReadLastId => {}
            CreationStep::GiveUp => break,
            other => panic!("unexpected step {:?}", other),
        }
    }
    assert_eq!(attempts, 100);
    assert_eq!(machine.attempt, MAX_POST_ATTEMPTS);
    assert!(matches!(machine.phase, PostPhase::Finished));
}

#[test]
fn a_post_fails_on_any_other_error() {
    let (mut machine, _) = PostCreation::begin();
    machine.advance(CreationReply::LastId(None));
    assert!(matches!(machine.advance(CreationReply::WriteError { code: 121 }), CreationStep::GiveUp));

    let (mut machine, _) = PostCreation::begin();
    machine.advance(CreationReply::LastId(None));
    assert!(matches!(machine.advance(CreationReply::Failed), CreationStep::GiveUp));

    let (mut machine, _) = PostCreation::begin();
    assert!(matches!(machine.advance(CreationReply::Failed), CreationStep::GiveUp));

    let (mut machine, _) = PostCreation::begin();
    assert!(matches!(machine.advance(CreationReply::LastId(Some(i32::MAX))), CreationStep::GiveUp));
}

#[test]
fn a_post_in_an_empty_collection_gets_number_one() {
    let (mut machine, _) = PostCreation::begin();
    let step = machine.advance(CreationReply::LastId(None));
    assert!(matches!(step, CreationStep::Insert { sequential_id: 1 }));
    match machine.advance(CreationReply::Inserted(id(9))) {
        CreationStep::Succeed(created) => assert_eq!(created.bytes, [9; 12]),
        other => panic!("unexpected step {:?}", other),
    }
}

#[test]
fn a_reply_raises_both_counters_before_it_is_inserted() {
    let (mut machine, step) = CommentCreation::begin(true);
    assert!(matches!(step, CreationStep::ReadLastId));
    assert!(matches!(
        machine.advance(CreationReply::LastId(Some(3))),
        CreationStep::StartTransaction
    ));
    assert!(matches!(machine.advance(CreationReply::Done), CreationStep::CountReplyOnComment));
    assert!(matches!(machine.advance(CreationReply::Modified(1)), CreationStep::CountReplyOnPost));
    assert!(matches!(
        machine.advance(CreationReply::Modified(1)),
        CreationStep::Insert { sequential_id: 4 }
    ));
    assert!(matches!(
        machine.advance(CreationReply::Inserted(id(2))),
        CreationStep::CommitTransaction
    ));
    match machine.advance(CreationReply::Done) {
        CreationStep::Succeed(created) => assert_eq!(created.bytes, [2; 12]),
        other => panic!("unexpected step {:?}", other),
    }
    assert!(matches!(machine.phase, CommentPhase::Finished));
}

#[test]
fn a_root_comment_raises_the_counter_of_the_post_only() {
    let (mut machine, _) = CommentCreation::begin(false);
    machine.advance(CreationReply::LastId(None));
    assert!(matches!(machine.advance(CreationReply::Done), CreationStep::CountReplyOnPost));
    assert!(matches!(
        machine.advance(CreationReply::Modified(1)),
        CreationStep::Insert { sequential_id: 1 }
    ));
}

#[test]
fn a_missing_parent_refuses_the_comment() {
    let (mut machine, _) = CommentCreation::begin(true);
    machine.advance(CreationReply::LastId(None));
    machine.advance(CreationReply::Done);
    assert!(matches!(
        machine.advance(CreationReply::Modified(0)),
        CreationStep::RefuseMissingComment
    ));

    let (mut machine, _) = CommentCreation::begin(true);
    machine.advance(CreationReply::LastId(None));
    machine.advance(CreationReply::Done);
    machine.advance(CreationReply::Modified(1));
    assert!(matches!(machine.advance(CreationReply::Modified(0)), CreationStep::RefuseMissingPost));
}

#[test]
fn a_comment_is_given_up_after_eight_lost_races() {
    let (mut machine, _) = CommentCreation::begin(false);
    let mut attempts = 0;
    loop {
        attempts += 1;
        machine.advance(CreationReply::LastId(Some(1)));
        machine.advance(CreationReply::Done);
        machine.advance(CreationReply::Modified(1));
        match machine.advance(CreationReply::WriteError { code: DUPLICATE_KEY }) {
            CreationStep::AbortTransaction => {
                assert!(matches!(machine.advance(CreationReply::Done), CreationStep::ReadLastId));
            }
            CreationStep::GiveUp => break,
            other => panic!("unexpected step {:?}", other),
        }
    }
    assert_eq!(attempts, 8);
    assert_eq!(machine.attempt, MAX_COMMENT_ATTEMPTS);
}

#[test]
fn a_failed_commit_of_a_comment_starts_over() {
    let (mut machine, _) = CommentCreation::begin(false);
    machine.advance(CreationReply::LastId(Some(1)));
    machine.advance(CreationReply::Done);
    machine.advance(CreationReply::Modified(1));
    machine.advance(CreationReply::Inserted(id(1)));
    assert!(matches!(machine.advance(CreationReply::Failed), CreationStep::AbortTransaction));
    assert_eq!(machine.attempt, 2);
    // A failed abort ends the creation.
    assert!(matches!(machine.advance(CreationReply::Failed), CreationStep::GiveUp));
}

#[test]
fn a_comment_insert_that_fails_otherwise_is_not_tried_again() {
    for reply in [
        CreationReply::WriteError { code: 121 },
        CreationReply::WriteError { code: 0 },
        CreationReply::WriteError { code: DUPLICATE_KEY + 1 },
        CreationReply::Failed,
    ] {
        let (mut machine, _) = CommentCreation::begin(true);
        machine.advance(CreationReply::LastId(Some(4)));
        machine.advance(CreationReply::Done);
        machine.advance(CreationReply::Modified(1));
        assert!(matches!(
            machine.advance(CreationReply::Modified(1)),
            CreationStep::Insert { sequential_id: 5 }
        ));
        assert!(matches!(machine.advance(reply), CreationStep::GiveUp));
        assert_eq!(machine.attempt, 1);
        assert!(matches!(machine.phase, CommentPhase::Finished));
    }
}

#[test]
fn a_duplicate_comment_number_reads_the_highest_number_again() {
    let (mut machine, _) = CommentCreation::begin(false);
    machine.advance(CreationReply::LastId(Some(4)));
    machine.advance(CreationReply::Done);
    machine.advance(CreationReply::Modified(1));
    assert!(matches!(
        machine.advance(CreationReply::WriteError { code: DUPLICATE_KEY }),
        CreationStep::AbortTransaction
    ));
    assert_eq!(machine.attempt, 2);
    assert!(matches!(machine.advance(CreationReply::Done), CreationStep::ReadLastId));
    assert!(matches!(
        machine.advance(CreationReply::LastId(Some(5))),
        CreationStep::StartTransaction
    ));
    machine.advance(CreationReply::Done);
    assert!(matches!(
        machine.advance(CreationReply::Modified(1)),
        CreationStep::Insert { sequential_id: 6 }
    ));
}
