//! Loading a page of comments together with some of their replies.
//!
//! The page is the seed of a queue. For each comment of the queue that has
//! replies, the store is asked for a batch of them, the busiest first. Up to
//! a quota every reply is taken; beyond it chance decides, with odds that
//! fall as the replies of the parent grow. What is taken joins the queue.
//! When a cap is reached, or the queue is empty, what was found is put
//! together as trees.

use crate::comments::{
    forest_of, group_comments, thread_roots, threaded_comments, CommentDetail, CommentTree,
};
use crate::conf::{
    MAX_REPLYING_COMMENTS_PER_LOAD, MIN_REPLYING_COMMENTS_PER_LOAD_IF_AVAILABLE,
    REPLY_SAMPLING_WEIGHT,
};
use crate::masked_oid::{unmask_spec, MaskingKey, PaddingError, RecordId};
use rand::Rng;
use std::collections::VecDeque;
use vstd::prelude::*;

verus! {

/// The settings by which replies are added to a page of comments.
#[derive(Clone, Copy, Debug)]
pub struct ExpansionPolicy {
    /// The number of replies that are taken before chance decides.
    pub min_guaranteed: usize,
    /// The number of replies taken at which nothing more is asked for.
    pub max_total: usize,
    /// The most replies to ask for at once.
    pub batch: u32,
    /// The expected number of replies that chance takes for one comment.
    pub weight: u32,
}

/// What is to be done next for a page of comments.
#[derive(Clone, Copy, Debug)]
pub enum ExpansionStep {
    /// Fetch up to `limit` direct replies to `parent`, those with the most
    /// replies first, leaving out the excluded ones. `replies` is the number
    /// of replies that the parent has.
    FetchReplies { parent: RecordId, replies: i32, limit: u32 },
    /// The request is refused: an identifier did not decode.
    Refuse,
    /// Nothing more is to be fetched.
    Finish,
}

/// A page of comments that is being loaded, as a value.
pub struct ExpansionState {
    pub policy: ExpansionPolicy,
    /// The depth of the comments of the page.
    pub init_depth: nat,
    /// The comments whose replies have not been asked for, in order.
    pub waiting: Seq<CommentTree>,
    /// The comments of the page and the replies taken so far.
    pub found: Seq<CommentTree>,
    /// The identifiers that the store is to leave out.
    pub excluded: Seq<Seq<u8>>,
    /// The number of replies taken so far.
    pub count: nat,
}

/// A page of comments that is being loaded.
#[derive(Debug)]
pub struct Expansion {
    policy: ExpansionPolicy,
    init_depth: usize,
    queue: VecDeque<CommentDetail>,
    found: Vec<CommentDetail>,
    excluded: Vec<RecordId>,
    count: usize,
}

/// The identifiers of a list, as values.
pub open spec fn record_views(ids: Seq<RecordId>) -> Seq<Seq<u8>> {
    Seq::new(ids.len(), |i: int| ids[i]@)
}

/// The numerator of the chance with which a reply to a comment with
/// `replies` replies is taken: `weight`, or `replies` where there are no more
/// replies than `weight`, so that the chance is certainty; zero for a comment
/// without replies.
pub open spec fn sampling_numerator(weight: u32, replies: i32) -> int {
    if replies <= 0 {
        0
    } else if weight <= replies {
        weight as int
    } else {
        replies as int
    }
}

/// The denominator of that chance: `replies`, or one for a comment without
/// replies.
pub open spec fn sampling_denominator(replies: i32) -> int {
    if replies <= 0 {
        1
    } else {
        replies as int
    }
}

/// Whether a reply is taken when `count` were taken before it and chance
/// said `drawn`: always below the quota, else as chance says.
pub open spec fn admits(count: nat, min_guaranteed: nat, drawn: bool) -> bool {
    count < min_guaranteed || drawn
}

/// The number of comments at the head of the queue that have no replies.
pub open spec fn idle_prefix(waiting: Seq<CommentTree>) -> nat
    decreases waiting.len(),
{
    if waiting.len() > 0 && waiting[0].replies <= 0 {
        1 + idle_prefix(waiting.drop_first())
    } else {
        0
    }
}

/// The comment whose replies are asked for next, if any: the first of the
/// queue that has replies, unless the cap is reached.
pub open spec fn next_parent(state: ExpansionState) -> Option<CommentTree> {
    let idle = idle_prefix(state.waiting);
    if state.count >= state.policy.max_total || idle >= state.waiting.len() {
        None
    } else {
        Some(state.waiting[idle as int])
    }
}

/// The state once the next parent, if any, has left the queue with the
/// comments before it.
pub open spec fn after_next_parent(state: ExpansionState) -> ExpansionState {
    let idle = idle_prefix(state.waiting);
    if state.count >= state.policy.max_total {
        state
    } else if idle >= state.waiting.len() {
        ExpansionState { waiting: Seq::empty(), ..state }
    } else {
        ExpansionState {
            waiting: state.waiting.subrange(idle as int + 1, state.waiting.len() as int),
            ..state
        }
    }
}

/// The state after `reply` was offered and chance said `drawn`: unchanged
/// where the reply is not taken; else the reply has joined the queue and
/// what was found, its identifier is excluded from now on, and it is
/// counted. There is no such state where the reply is taken and its
/// identifier does not decode.
pub open spec fn offered(state: ExpansionState, key: Seq<u8>, reply: CommentTree, drawn: bool)
    -> Option<ExpansionState> {
    if !admits(state.count, state.policy.min_guaranteed as nat, drawn) {
        Some(state)
    } else {
        match unmask_spec(key, reply.id) {
            Some(id) => Some(
                ExpansionState {
                    waiting: state.waiting.push(reply),
                    found: state.found.push(reply),
                    excluded: state.excluded.push(id),
                    count: state.count + 1,
                    ..state
                },
            ),
            None => None,
        }
    }
}

/// The state after the first `upto` of `replies` were offered in turn, with
/// what chance said for each.
pub open spec fn offered_all(
    state: ExpansionState,
    key: Seq<u8>,
    replies: Seq<CommentTree>,
    draws: Seq<bool>,
    upto: nat,
) -> Option<ExpansionState>
    decreases upto,
{
    if upto == 0 || upto > replies.len() || upto > draws.len() {
        Some(state)
    } else {
        match offered_all(state, key, replies, draws, (upto - 1) as nat) {
            Some(before) => offered(before, key, replies[upto - 1], draws[upto - 1]),
            None => None,
        }
    }
}

/// Whether chance could have said `draws` for replies to a comment with
/// `replies` replies: where the odds are certainty it always says yes, and
/// where they are zero it always says no.
pub open spec fn possible_draws(weight: u32, replies: i32, draws: Seq<bool>) -> bool {
    &&& sampling_numerator(weight, replies) == sampling_denominator(replies) ==> forall|i: int|
        0 <= i < draws.len() ==> draws[i]
    &&& sampling_numerator(weight, replies) == 0 ==> forall|i: int|
        0 <= i < draws.len() ==> !draws[i]
}

/// The first of the first `upto` trees that has the identifier `id`.
pub open spec fn tree_with_id(trees: Seq<CommentTree>, id: Seq<u8>, upto: nat) -> Option<
    CommentTree,
>
    decreases upto,
{
    if upto == 0 || upto > trees.len() {
        None
    } else {
        match tree_with_id(trees, id, (upto - 1) as nat) {
            Some(tree) => Some(tree),
            None => if trees[upto - 1].id == id {
                Some(trees[upto - 1])
            } else {
                None
            },
        }
    }
}

/// For each of the first `upto` comments found that stands at depth
/// `init_depth`, in order, the tree of `trees` with its identifier, where
/// there is one.
pub open spec fn selected(
    found: Seq<CommentTree>,
    init_depth: int,
    trees: Seq<CommentTree>,
    upto: nat,
) -> Seq<CommentTree>
    decreases upto,
{
    if upto == 0 || upto > found.len() {
        Seq::empty()
    } else {
        let before = selected(found, init_depth, trees, (upto - 1) as nat);
        let comment = found[upto - 1];
        match tree_with_id(trees, comment.id, trees.len()) {
            Some(tree) => if comment.parent_comments.len() == init_depth {
                before.push(tree)
            } else {
                before
            },
            None => before,
        }
    }
}

/// The answer for a page: the comments found are put together as trees, and
/// for each comment found at depth `init_depth`, in the order in which they
/// were found, its tree is given.
pub open spec fn assembled(found: Seq<CommentTree>, init_depth: int) -> Seq<CommentTree> {
    selected(found, init_depth, threaded_comments(found, init_depth), found.len())
}

/// Calls `Rng::gen_ratio` of the `rand` crate on `rand::thread_rng()`.
/// Trusted: with equal numerator and denominator the answer is yes, with a
/// numerator of zero it is no; nothing else is known of it.
#[verifier::external_body]
fn draw_ratio(numerator: u32, denominator: u32) -> (drawn: bool)
    requires
        0 < denominator,
        numerator <= denominator,
    ensures
        numerator == denominator ==> drawn,
        numerator == 0 ==> !drawn,
{
    rand::thread_rng().gen_ratio(numerator, denominator)
}

/// The chance with which a reply to a comment with `parent_replies` replies
/// is taken, as numerator and denominator: `weight` in `parent_replies`, at
/// most certainty, and none for a comment without replies.
pub fn sampling_ratio(weight: u32, parent_replies: i32) -> (ratio: (u32, u32))
    ensures
        ratio.0 == sampling_numerator(weight, parent_replies),
        ratio.1 == sampling_denominator(parent_replies),
        parent_replies <= 0 ==> ratio == (0u32, 1u32),
        0 < ratio.1,
        ratio.0 <= ratio.1,
{
    if parent_replies <= 0 {
        return (0, 1);
    }
    let denominator: u32 = parent_replies as u32;
    if weight <= denominator {
        (weight, denominator)
    } else {
        (denominator, denominator)
    }
}

/// What is said of `offered_all` does not depend on draws behind `upto`.
proof fn lemma_offered_all_ignores_later_draws(
    state: ExpansionState,
    key: Seq<u8>,
    replies: Seq<CommentTree>,
    draws: Seq<bool>,
    longer: Seq<bool>,
    upto: nat,
)
    requires
        upto <= draws.len() <= longer.len(),
        forall|i: int| 0 <= i < upto ==> draws[i] == longer[i],
    ensures
        offered_all(state, key, replies, draws, upto) == offered_all(
            state,
            key,
            replies,
            longer,
            upto,
        ),
    decreases upto,
{
    if upto > 0 && upto <= replies.len() {
        lemma_offered_all_ignores_later_draws(
            state,
            key,
            replies,
            draws,
            longer,
            (upto - 1) as nat,
        );
    }
}

/// Once an identifier did not decode, nothing that follows mends it.
proof fn lemma_offered_all_stays_refused(
    state: ExpansionState,
    key: Seq<u8>,
    replies: Seq<CommentTree>,
    draws: Seq<bool>,
    refused: nat,
    upto: nat,
)
    requires
        refused <= upto <= replies.len(),
        upto <= draws.len(),
        offered_all(state, key, replies, draws, refused) is None,
    ensures
        offered_all(state, key, replies, draws, upto) is None,
    decreases upto,
{
    if refused < upto {
        lemma_offered_all_stays_refused(state, key, replies, draws, refused, (upto - 1) as nat);
    }
}

/// A tree that was found among the first trees is found among more of them.
proof fn lemma_tree_with_id_stays(trees: Seq<CommentTree>, id: Seq<u8>, shorter: nat, upto: nat)
    requires
        shorter <= upto <= trees.len(),
        tree_with_id(trees, id, shorter) is Some,
    ensures
        tree_with_id(trees, id, upto) == tree_with_id(trees, id, shorter),
    decreases upto,
{
    if shorter < upto {
        lemma_tree_with_id_stays(trees, id, shorter, (upto - 1) as nat);
    }
}

impl ExpansionPolicy {
    /// The settings of the board.
    pub fn standard() -> (policy: ExpansionPolicy)
        ensures
            policy.min_guaranteed == MIN_REPLYING_COMMENTS_PER_LOAD_IF_AVAILABLE,
            policy.max_total == MAX_REPLYING_COMMENTS_PER_LOAD,
            policy.batch == MAX_REPLYING_COMMENTS_PER_LOAD,
            policy.weight == REPLY_SAMPLING_WEIGHT,
    {
        ExpansionPolicy {
            min_guaranteed: MIN_REPLYING_COMMENTS_PER_LOAD_IF_AVAILABLE as usize,
            max_total: MAX_REPLYING_COMMENTS_PER_LOAD as usize,
            batch: MAX_REPLYING_COMMENTS_PER_LOAD,
            weight: REPLY_SAMPLING_WEIGHT,
        }
    }
}

/// The position of the first tree with the identifier of `comment`.
fn find_tree(trees: &Vec<CommentDetail>, comment: &CommentDetail) -> (position: Option<usize>)
    ensures
        match position {
            Some(i) => i < trees@.len() && tree_with_id(
                forest_of(trees@),
                comment@.id,
                trees@.len() as nat,
            ) == Some(trees@[i as int]@),
            None => tree_with_id(forest_of(trees@), comment@.id, trees@.len() as nat) is None,
        },
{
    let ghost forest = forest_of(trees@);
    let mut i: usize = 0;
    while i < trees.len()
        invariant
            i <= trees.len(),
            forest == forest_of(trees@),
            tree_with_id(forest, comment@.id, i as nat) is None,
        decreases trees.len() - i,
    {
        if trees[i].id.same(&comment.id) {
            proof {
                assert(forest[i as int].id == comment@.id);
                assert(tree_with_id(forest, comment@.id, (i + 1) as nat) == Some(forest[i as int]));
                lemma_tree_with_id_stays(
                    forest,
                    comment@.id,
                    (i + 1) as nat,
                    trees@.len() as nat,
                );
            }
            return Some(i);
        }
        assert(forest[i as int].id != comment@.id);
        i += 1;
    }
    None
}

/// Puts the comments found together as trees and gives, for each comment
/// found at depth `init_depth`, in order, its tree.
pub fn assemble(found: &Vec<CommentDetail>, init_depth: usize) -> (trees: Vec<CommentDetail>)
    ensures
        forest_of(trees@) == assembled(forest_of(found@), init_depth as int),
{
    let pool = group_comments(found);
    let threaded = thread_roots(&pool, init_depth);
    let ghost flat = forest_of(found@);
    let ghost forest = forest_of(threaded@);
    let mut trees: Vec<CommentDetail> = Vec::new();
    let mut i: usize = 0;
    while i < found.len()
        invariant
            i <= found.len(),
            flat == forest_of(found@),
            forest == forest_of(threaded@),
            forest_of(trees@) == selected(flat, init_depth as int, forest, i as nat),
        decreases found.len() - i,
    {
        let ghost before = forest_of(trees@);
        assert(flat[i as int].parent_comments.len() == found[i as int].parent_comments.len());
        assert(flat[i as int].id == found[i as int]@.id);
        if found[i].parent_comments.len() == init_depth {
            match find_tree(&threaded, &found[i]) {
                Some(position) => {
                    trees.push(threaded[position].duplicate());
                    assert(forest_of(trees@) =~= before.push(forest[position as int]));
                },
                None => {},
            }
        }
        i += 1;
    }
    trees
}

impl Expansion {
    /// Whether the bookkeeping of the page is in order: no more replies are
    /// counted than comments were found.
    pub closed spec fn well_formed(&self) -> bool {
        self.count <= self.found@.len()
    }

    /// The page as a value.
    pub closed spec fn view(&self) -> ExpansionState {
        ExpansionState {
            policy: self.policy,
            init_depth: self.init_depth as nat,
            waiting: forest_of(self.queue@),
            found: forest_of(self.found@),
            excluded: record_views(self.excluded@),
            count: self.count as nat,
        }
    }

    /// Starts loading with the first page of comments and the identifiers
    /// that the reader has seen. The depth of the page is that of its first
    /// comment.
    pub fn start(policy: ExpansionPolicy, page: Vec<CommentDetail>, seen: Vec<RecordId>) -> (expansion:
        Expansion)
        ensures
            expansion.well_formed(),
            expansion@ == (ExpansionState {
                policy,
                init_depth: if page@.len() > 0 {
                    page@[0]@.parent_comments.len()
                } else {
                    0
                },
                waiting: forest_of(page@),
                found: forest_of(page@),
                excluded: record_views(seen@),
                count: 0,
            }),
    {
        let init_depth: usize = if page.len() > 0 {
            page[0].parent_comments.len()
        } else {
            0
        };
        let mut queue: VecDeque<CommentDetail> = VecDeque::new();
        let mut i: usize = 0;
        while i < page.len()
            invariant
                i <= page.len(),
                queue@.len() == i,
                forall|j: int| 0 <= j < i ==> queue@[j]@ == page@[j]@,
            decreases page.len() - i,
        {
            queue.push_back(page[i].duplicate());
            i += 1;
        }
        let expansion = Expansion { policy, init_depth, queue, found: page, excluded: seen, count: 0 };
        assert(expansion@.waiting =~= forest_of(page@));
        expansion
    }

    /// The comments of the page and the replies taken so far.
    pub fn found(&self) -> (found: &Vec<CommentDetail>)
        ensures
            forest_of(found@) == self@.found,
    {
        &self.found
    }

    /// The identifiers that the store is to leave out.
    pub fn excluded(&self) -> (excluded: &Vec<RecordId>)
        ensures
            record_views(excluded@) == self@.excluded,
    {
        &self.excluded
    }

    /// The number of replies taken so far.
    pub fn count(&self) -> (count: usize)
        ensures
            count == self@.count,
    {
        self.count
    }

    /// Says what to do next: fetch the replies of the first comment of the
    /// queue that has any, unless the cap is reached, or finish.
    pub fn next_step(&mut self, key: &MaskingKey) -> (step: ExpansionStep)
        requires
            old(self).well_formed(),
        ensures
            final(self).well_formed(),
            match step {
                ExpansionStep::FetchReplies { parent, replies, limit } => {
                    &&& next_parent(old(self)@) matches Some(comment)
                    &&& unmask_spec(key@, comment.id) == Some(parent@)
                    &&& replies == comment.replies
                    &&& replies > 0
                    &&& limit == old(self)@.policy.batch
                    &&& final(self)@ == after_next_parent(old(self)@)
                },
                ExpansionStep::Refuse => {
                    &&& next_parent(old(self)@) matches Some(comment)
                    &&& unmask_spec(key@, comment.id) is None
                    &&& final(self)@ == after_next_parent(old(self)@)
                },
                ExpansionStep::Finish => {
                    &&& next_parent(old(self)@) is None
                    &&& final(self)@ == after_next_parent(old(self)@)
                },
            },
    {
        if self.count >= self.policy.max_total {
            return ExpansionStep::Finish;
        }
        let ghost all = forest_of(self.queue@);
        let ghost length = all.len() as int;
        let ghost mut passed: int = 0;
        loop
            invariant
                self.well_formed(),
                0 <= passed <= length,
                length == all.len(),
                all == forest_of(old(self).queue@),
                forest_of(self.queue@) == all.subrange(passed, length),
                self.found == old(self).found,
                self.excluded == old(self).excluded,
                self.policy == old(self).policy,
                self.init_depth == old(self).init_depth,
                self.count == old(self).count,
                self.count < self.policy.max_total,
                idle_prefix(all) == passed + idle_prefix(all.subrange(passed, length)),
            decreases self.queue@.len(),
        {
            let ghost rest = forest_of(self.queue@);
            let comment = match self.queue.pop_front() {
                Some(comment) => comment,
                None => {
                    proof {
                        assert(rest.len() == 0);
                        assert(idle_prefix(all) == all.len());
                        assert(self@.waiting =~= Seq::<CommentTree>::empty());
                    }
                    return ExpansionStep::Finish;
                },
            };
            proof {
                assert(rest[0] == comment@);
                assert(rest[0] == all[passed]);
                assert(rest.drop_first() =~= all.subrange(passed + 1, length));
                assert(forest_of(self.queue@) =~= all.subrange(passed + 1, length));
            }
            if comment.replies > 0 {
                proof {
                    assert(idle_prefix(rest) == 0);
                    assert(idle_prefix(all) == passed);
                }
                return match key.unmask(&comment.id) {
                    Ok(parent) => ExpansionStep::FetchReplies {
                        parent,
                        replies: comment.replies,
                        limit: self.policy.batch,
                    },
                    Err(_) => ExpansionStep::Refuse,
                };
            }
            proof {
                passed = passed + 1;
            }
        }
    }

    /// Offers one reply that the store returned, with what chance said for
    /// it, and says whether it was taken.
    pub fn offer_reply(&mut self, key: &MaskingKey, reply: &CommentDetail, drawn: bool) -> (result:
        Result<bool, PaddingError>)
        requires
            old(self).well_formed(),
        ensures
            final(self).well_formed(),
            match result {
                Ok(taken) => {
                    &&& taken == admits(
                        old(self)@.count,
                        old(self)@.policy.min_guaranteed as nat,
                        drawn,
                    )
                    &&& offered(old(self)@, key@, reply@, drawn) == Some(final(self)@)
                },
                Err(_) => {
                    &&& offered(old(self)@, key@, reply@, drawn) is None
                    &&& final(self)@ == old(self)@
                },
            },
    {
        if !(self.count < self.policy.min_guaranteed || drawn) {
            return Ok(false);
        }
        let id = match key.unmask(&reply.id) {
            Ok(id) => id,
            Err(error) => {
                return Err(error);
            },
        };
        let ghost before = self@;
        self.excluded.push(id);
        self.queue.push_back(reply.duplicate());
        self.found.push(reply.duplicate());
        let held = self.found.len();
        self.count = self.count + 1;
        proof {
            assert(self@.waiting =~= before.waiting.push(reply@));
            assert(self@.found =~= before.found.push(reply@));
            assert(self@.excluded =~= before.excluded.push(id@));
        }
        Ok(true)
    }

    /// Offers the replies to one comment that the store returned, in order.
    /// Below the quota each is taken; beyond it chance decides for each, with
    /// `weight` in `parent_replies` odds, and no odds at all where the parent
    /// has no replies. Whatever chance says, the outcome is that of offering
    /// them one by one.
    pub fn offer_replies(
        &mut self,
        key: &MaskingKey,
        parent_replies: i32,
        replies: &Vec<CommentDetail>,
    ) -> (result: Result<(), PaddingError>)
        requires
            old(self).well_formed(),
        ensures
            final(self).well_formed(),
            exists|draws: Seq<bool>|
                {
                    &&& draws.len() == replies@.len()
                    &&& possible_draws(old(self)@.policy.weight, parent_replies, draws)
                    &&& match result {
                        Ok(_) => #[trigger] offered_all(
                            old(self)@,
                            key@,
                            forest_of(replies@),
                            draws,
                            replies@.len() as nat,
                        ) == Some(final(self)@),
                        Err(_) => offered_all(
                            old(self)@,
                            key@,
                            forest_of(replies@),
                            draws,
                            replies@.len() as nat,
                        ) is None,
                    }
                },
    {
        let ghost start = self@;
        let ghost offers = forest_of(replies@);
        let ghost weight = self.policy.weight;
        let ghost unmade = sampling_numerator(weight, parent_replies) == sampling_denominator(
            parent_replies,
        );
        let ghost mut draws: Seq<bool> = Seq::empty();
        let ratio = sampling_ratio(self.policy.weight, parent_replies);
        let mut i: usize = 0;
        while i < replies.len()
            invariant
                i <= replies.len(),
                self.well_formed(),
                offers == forest_of(replies@),
                start == old(self)@,
                weight == start.policy.weight,
                self@.policy == start.policy,
                unmade == (sampling_numerator(weight, parent_replies) == sampling_denominator(
                    parent_replies,
                )),
                ratio.0 == sampling_numerator(weight, parent_replies),
                ratio.1 == sampling_denominator(parent_replies),
                0 < ratio.1,
                ratio.0 <= ratio.1,
                draws.len() == i,
                possible_draws(weight, parent_replies, draws),
                offered_all(start, key@, offers, draws, i as nat) == Some(self@),
            decreases replies.len() - i,
        {
            let ghost earlier = draws;
            let drawn = if self.count < self.policy.min_guaranteed {
                let ghost unused = unmade;
                proof {
                    draws = draws.push(unused);
                }
                true
            } else {
                let drawn = draw_ratio(ratio.0, ratio.1);
                proof {
                    draws = draws.push(drawn);
                }
                drawn
            };
            proof {
                lemma_offered_all_ignores_later_draws(start, key@, offers, earlier, draws, i as nat);
                assert(admits(self@.count, self@.policy.min_guaranteed as nat, drawn) == admits(
                    self@.count,
                    self@.policy.min_guaranteed as nat,
                    draws[i as int],
                ));
                assert(offered(self@, key@, offers[i as int], drawn) == offered(
                    self@,
                    key@,
                    offers[i as int],
                    draws[i as int],
                ));
            }
            let ghost before = self@;
            proof {
                assert(offers[i as int] == replies@[i as int]@);
                assert(offered_all(start, key@, offers, draws, i as nat) == Some(before));
                assert(offered_all(start, key@, offers, draws, (i + 1) as nat) == offered(
                    before,
                    key@,
                    offers[i as int],
                    draws[i as int],
                ));
            }
            match self.offer_reply(key, &replies[i], drawn) {
                Ok(_) => {},
                Err(error) => {
                    proof {
                        assert(offered_all(start, key@, offers, draws, (i + 1) as nat) is None);
                        let padded = draws + Seq::new(
                            (replies@.len() - i - 1) as nat,
                            |k: int| unmade,
                        );
                        lemma_offered_all_ignores_later_draws(
                            start,
                            key@,
                            offers,
                            draws,
                            padded,
                            (i + 1) as nat,
                        );
                        lemma_offered_all_stays_refused(
                            start,
                            key@,
                            offers,
                            padded,
                            (i + 1) as nat,
                            replies@.len() as nat,
                        );
                        assert(possible_draws(weight, parent_replies, padded));
                        assert(offered_all(start, key@, offers, padded, replies@.len() as nat)
                            is None);
                    }
                    return Err(error);
                },
            }
            i += 1;
        }
        Ok(())
    }

    /// Ends the loading: the comments found are put together as trees, and
    /// the trees of the comments at the depth of the page are the answer.
    pub fn finish(self) -> (trees: Vec<CommentDetail>)
        ensures
            forest_of(trees@) == assembled(self@.found, self@.init_depth as int),
    {
        assemble(&self.found, self.init_depth)
    }
}

} // verus!
