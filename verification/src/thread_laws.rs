//! What holds of the trees that threading builds from a flat set of
//! comments: every comment hangs where its chain of parents says, and none
//! appears twice.

use crate::comments::{
    grouped, grouped_upto, is_last_of_id, is_reply_to, lemma_max_chain_bounds, max_chain,
    threaded, threaded_comments, threaded_replies, threaded_roots, CommentTree,
};
use crate::expansion::{assembled, selected, tree_with_id};
use vstd::prelude::*;

verus! {

/// Whether no comment of the set has replies attached.
pub open spec fn is_flat(comments: Seq<CommentTree>) -> bool {
    forall|i: int| 0 <= i < comments.len() ==> (#[trigger] comments[i]).children.len() == 0
}

/// Whether the tree stands at depth `depth` with every comment in it where
/// its chain of parents says: the chain of the root is `depth` long, and
/// the chain of each reply ends in the comment it hangs below and is one
/// longer than the chain of that comment.
pub open spec fn well_placed(tree: CommentTree, depth: int) -> bool
    decreases tree,
{
    &&& tree.parent_comments.len() == depth
    &&& forall|i: int|
        0 <= i < tree.children.len() ==> {
            &&& (#[trigger] tree.children[i]).parent_comments.len() > 0
            &&& tree.children[i].parent_comments.last() == tree.id
            &&& well_placed(tree.children[i], depth + 1)
        }
}

/// The identifiers of the comments of a tree.
pub open spec fn ids_of(tree: CommentTree) -> Set<Seq<u8>>
    decreases tree,
{
    ids_of_all(tree.children).insert(tree.id)
}

/// The identifiers of the comments of several trees.
pub open spec fn ids_of_all(trees: Seq<CommentTree>) -> Set<Seq<u8>>
    decreases trees,
{
    if trees.len() == 0 {
        Set::empty()
    } else {
        ids_of_all(trees.drop_last()).union(ids_of(trees.last()))
    }
}

/// Whether no identifier stands twice in the tree: the comment at the root
/// is not among its replies, direct or indirect, no comment is among the
/// replies of two comments, and the same holds of every reply.
pub open spec fn no_repeats(tree: CommentTree) -> bool
    decreases tree,
{
    &&& !ids_of_all(tree.children).contains(tree.id)
    &&& no_repeats_all(tree.children)
}

/// Whether no identifier stands twice in the trees, within one or in two.
pub open spec fn no_repeats_all(trees: Seq<CommentTree>) -> bool
    decreases trees,
{
    trees.len() == 0 || {
        &&& no_repeats_all(trees.drop_last())
        &&& no_repeats(trees.last())
        &&& ids_of_all(trees.drop_last()).disjoint(ids_of(trees.last()))
    }
}

/// Whether the comments of the pool have identifiers of their own.
pub open spec fn distinct_ids(pool: Seq<CommentTree>) -> bool {
    forall|i: int, j: int| 0 <= i < j < pool.len() ==> pool[i].id != pool[j].id
}

/// Whether `comment` is one of the first `upto` comments of the set, and the
/// last of its identifier.
pub open spec fn is_kept(comments: Seq<CommentTree>, upto: nat, comment: CommentTree) -> bool {
    exists|i: int|
        0 <= i < upto && i < comments.len() && is_last_of_id(comments, i) && #[trigger] comments[i]
            == comment
}

/// Grouping leaves comments of the set, each with an identifier of its own.
pub proof fn lemma_grouped_is_distinct(comments: Seq<CommentTree>, upto: nat)
    requires
        upto <= comments.len(),
    ensures
        distinct_ids(grouped_upto(comments, upto)),
        forall|k: int|
            0 <= k < grouped_upto(comments, upto).len() ==> is_kept(
                comments,
                upto,
                #[trigger] grouped_upto(comments, upto)[k],
            ),
    decreases upto,
{
    if upto > 0 {
        let before = grouped_upto(comments, (upto - 1) as nat);
        let now = grouped_upto(comments, upto);
        lemma_grouped_is_distinct(comments, (upto - 1) as nat);
        assert forall|k: int| 0 <= k < now.len() implies is_kept(comments, upto, #[trigger] now[k]) by {
            if k < before.len() {
                assert(is_kept(comments, (upto - 1) as nat, before[k]));
                let i = choose|i: int|
                    0 <= i < upto - 1 && i < comments.len() && is_last_of_id(comments, i)
                        && #[trigger] comments[i] == before[k];
                assert(comments[i] == now[k]);
            } else {
                assert(comments[upto - 1] == now[k]);
            }
        }
        assert forall|a: int, b: int| 0 <= a < b < now.len() implies now[a].id != now[b].id by {
            if b == before.len() {
                assert(is_kept(comments, (upto - 1) as nat, before[a]));
                let i = choose|i: int|
                    0 <= i < upto - 1 && i < comments.len() && is_last_of_id(comments, i)
                        && #[trigger] comments[i] == before[a];
                assert(comments[upto - 1].id != comments[i].id);
            }
        }
    }
}

/// What was flat before grouping is flat after it.
pub proof fn lemma_grouped_is_flat(comments: Seq<CommentTree>)
    requires
        is_flat(comments),
    ensures
        is_flat(grouped(comments)),
{
    lemma_grouped_is_distinct(comments, comments.len());
    let pool = grouped(comments);
    assert forall|k: int| 0 <= k < pool.len() implies (#[trigger] pool[k]).children.len()
        == 0 by {
        assert(is_kept(comments, comments.len(), pool[k]));
        let i = choose|i: int|
            0 <= i < comments.len() && is_last_of_id(comments, i) && #[trigger] comments[i]
                == pool[k];
        assert(comments[i].children.len() == 0);
    }
}

/// A comment with its replies attached is well placed, if it stands at the
/// depth that its chain of parents says.
proof fn lemma_threaded_is_well_placed(pool: Seq<CommentTree>, node: CommentTree, depth: int)
    requires
        is_flat(pool),
        node.children.len() == 0,
        node.parent_comments.len() == depth,
    ensures
        well_placed(threaded(pool, node, depth), depth),
    decreases max_chain(pool) - depth, pool.len() + 1,
{
    let tree = threaded(pool, node, depth);
    let replies = threaded_replies(pool, node.id, depth, pool.len());
    lemma_replies_are_well_placed(pool, node.id, depth, pool.len());
    assert(tree.children =~= replies);
}

/// The replies that are attached to a comment are well placed below it.
proof fn lemma_replies_are_well_placed(
    pool: Seq<CommentTree>,
    parent: Seq<u8>,
    depth: int,
    upto: nat,
)
    requires
        is_flat(pool),
        depth >= 0,
        upto <= pool.len(),
    ensures
        forall|i: int|
            0 <= i < threaded_replies(pool, parent, depth, upto).len() ==> {
                &&& (#[trigger] threaded_replies(pool, parent, depth, upto)[i]).parent_comments.len()
                    > 0
                &&& threaded_replies(pool, parent, depth, upto)[i].parent_comments.last() == parent
                &&& well_placed(threaded_replies(pool, parent, depth, upto)[i], depth + 1)
            },
    decreases max_chain(pool) - depth, upto,
{
    if upto > 0 {
        lemma_replies_are_well_placed(pool, parent, depth, (upto - 1) as nat);
        let before = threaded_replies(pool, parent, depth, (upto - 1) as nat);
        let now = threaded_replies(pool, parent, depth, upto);
        let comment = pool[upto - 1];
        if is_reply_to(comment, parent, depth) {
            lemma_max_chain_bounds(pool, upto - 1);
            lemma_threaded_is_well_placed(pool, comment, depth + 1);
            assert(now == before.push(threaded(pool, comment, depth + 1)));
        } else {
            assert(now == before);
        }
        assert forall|i: int| 0 <= i < now.len() implies {
            &&& (#[trigger] now[i]).parent_comments.len() > 0
            &&& now[i].parent_comments.last() == parent
            &&& well_placed(now[i], depth + 1)
        } by {
            if i < before.len() {
                assert(now[i] == before[i]);
            }
        }
    }
}

/// Of the first `upto` comments of the pool, those at depth `init_depth` are
/// well placed with their replies attached.
proof fn lemma_roots_are_well_placed(pool: Seq<CommentTree>, init_depth: int, upto: nat)
    requires
        is_flat(pool),
        upto <= pool.len(),
    ensures
        forall|i: int|
            0 <= i < threaded_roots(pool, init_depth, upto).len() ==> well_placed(
                #[trigger] threaded_roots(pool, init_depth, upto)[i],
                init_depth,
            ),
    decreases upto,
{
    if upto > 0 {
        lemma_roots_are_well_placed(pool, init_depth, (upto - 1) as nat);
        let before = threaded_roots(pool, init_depth, (upto - 1) as nat);
        let now = threaded_roots(pool, init_depth, upto);
        if pool[upto - 1].parent_comments.len() == init_depth {
            lemma_threaded_is_well_placed(pool, pool[upto - 1], init_depth);
            assert(now == before.push(threaded(pool, pool[upto - 1], init_depth)));
        } else {
            assert(now == before);
        }
        assert forall|i: int| 0 <= i < now.len() implies well_placed(#[trigger] now[i], init_depth) by {
            if i < before.len() {
                assert(now[i] == before[i]);
            }
        }
    }
}

/// Threading a flat set of comments puts every comment where its chain of
/// parents says: each tree stands at depth `init_depth`, and every reply in
/// it hangs below the comment in which its chain of parents ends, one level
/// further down.
pub proof fn lemma_threads_are_well_placed(comments: Seq<CommentTree>, init_depth: int)
    requires
        is_flat(comments),
    ensures
        forall|i: int|
            0 <= i < threaded_comments(comments, init_depth).len() ==> well_placed(
                #[trigger] threaded_comments(comments, init_depth)[i],
                init_depth,
            ),
{
    lemma_grouped_is_flat(comments);
    lemma_roots_are_well_placed(grouped(comments), init_depth, grouped(comments).len());
}

/// Whether the comment at `p` is the one that the comment at `k` replies to:
/// the chain of `k` ends in it and is one longer than its own.
spec fn is_parent(pool: Seq<CommentTree>, p: int, k: int) -> bool {
    &&& 0 <= p < pool.len()
    &&& pool[k].parent_comments.len() == pool[p].parent_comments.len() + 1
    &&& pool[k].parent_comments.last() == pool[p].id
}

/// The place of the comment that the comment at `k` replies to, if it is in
/// the pool.
spec fn parent_index(pool: Seq<CommentTree>, k: int) -> Option<int> {
    if exists|p: int| is_parent(pool, p, k) {
        Some(choose|p: int| is_parent(pool, p, k))
    } else {
        None
    }
}

/// The place of the comment at depth `depth` that the comment at `k` hangs
/// below, directly or indirectly, or is itself.
spec fn ancestor_at(pool: Seq<CommentTree>, k: int, depth: int) -> Option<int>
    decreases pool[k].parent_comments.len() - depth,
{
    let length = pool[k].parent_comments.len();
    if length == depth {
        Some(k)
    } else if length < depth {
        None
    } else {
        match parent_index(pool, k) {
            Some(p) => ancestor_at(pool, p, depth),
            None => None,
        }
    }
}

/// Whether the comment with the identifier `id` hangs below the comment at
/// `j`, which stands at depth `depth`, or is that comment.
spec fn descends_from(pool: Seq<CommentTree>, id: Seq<u8>, depth: int, j: int) -> bool {
    exists|m: int| 0 <= m < pool.len() && #[trigger] pool[m].id == id && ancestor_at(pool, m, depth) == Some(j)
}

/// Whether the comment with the identifier `id` hangs below one of the first
/// `upto` comments of the pool that reply to `parent` at depth `depth`.
spec fn descends_from_reply(
    pool: Seq<CommentTree>,
    id: Seq<u8>,
    parent: Seq<u8>,
    depth: int,
    upto: nat,
) -> bool {
    exists|j: int|
        0 <= j < upto && j < pool.len() && is_reply_to(#[trigger] pool[j], parent, depth)
            && descends_from(pool, id, depth + 1, j)
}

/// Whether the comment with the identifier `id` hangs below one of the first
/// `upto` comments of the pool that stand at depth `depth`.
spec fn descends_from_root(pool: Seq<CommentTree>, id: Seq<u8>, depth: int, upto: nat) -> bool {
    exists|j: int|
        0 <= j < upto && j < pool.len() && (#[trigger] pool[j]).parent_comments.len() == depth
            && descends_from(pool, id, depth, j)
}

/// Among comments with identifiers of their own, a comment replies to one
/// comment at most.
proof fn lemma_parent_is_unique(pool: Seq<CommentTree>, p: int, k: int)
    requires
        distinct_ids(pool),
        is_parent(pool, p, k),
    ensures
        parent_index(pool, k) == Some(p),
{
    let q = choose|q: int| is_parent(pool, q, k);
    assert(pool[q].id == pool[p].id);
    if q < p {
        assert(pool[q].id != pool[p].id);
    } else if p < q {
        assert(pool[p].id != pool[q].id);
    }
}

/// What a comment hangs below at some depth stands at that depth, and the
/// comment itself stands no higher.
proof fn lemma_ancestor_stands_at_depth(pool: Seq<CommentTree>, m: int, depth: int)
    requires
        0 <= m < pool.len(),
        ancestor_at(pool, m, depth) is Some,
    ensures
        0 <= ancestor_at(pool, m, depth)->0 < pool.len(),
        pool[ancestor_at(pool, m, depth)->0].parent_comments.len() == depth,
        pool[m].parent_comments.len() >= depth,
    decreases pool[m].parent_comments.len() - depth,
{
    if pool[m].parent_comments.len() > depth {
        let p = parent_index(pool, m)->0;
        assert(is_parent(pool, p, m));
        lemma_ancestor_stands_at_depth(pool, p, depth);
    }
}

/// What hangs below a comment hangs below the comment that this one replies
/// to.
proof fn lemma_ancestor_of_ancestor(pool: Seq<CommentTree>, m: int, j: int, k: int, depth: int)
    requires
        distinct_ids(pool),
        0 <= m < pool.len(),
        0 <= j < pool.len(),
        ancestor_at(pool, m, depth + 1) == Some(j),
        is_parent(pool, k, j),
        pool[k].parent_comments.len() == depth,
    ensures
        ancestor_at(pool, m, depth) == Some(k),
    decreases pool[m].parent_comments.len() - depth,
{
    if pool[m].parent_comments.len() == depth + 1 {
        assert(m == j);
        lemma_parent_is_unique(pool, k, j);
        assert(ancestor_at(pool, k, depth) == Some(k));
    } else {
        lemma_ancestor_stands_at_depth(pool, m, depth + 1);
        let p = parent_index(pool, m)->0;
        assert(is_parent(pool, p, m));
        lemma_ancestor_of_ancestor(pool, p, j, k, depth);
    }
}

/// Two comments of one identifier are one comment.
proof fn lemma_one_place_for_an_identifier(pool: Seq<CommentTree>, m: int, n: int)
    requires
        distinct_ids(pool),
        0 <= m < pool.len(),
        0 <= n < pool.len(),
        pool[m].id == pool[n].id,
    ensures
        m == n,
{
    if m < n {
        assert(pool[m].id != pool[n].id);
    } else if n < m {
        assert(pool[n].id != pool[m].id);
    }
}

/// In the tree of a comment no identifier stands twice, and every comment in
/// it hangs below the root.
proof fn lemma_subtree_has_no_repeats(pool: Seq<CommentTree>, k: int, depth: int)
    requires
        distinct_ids(pool),
        is_flat(pool),
        0 <= k < pool.len(),
        pool[k].parent_comments.len() == depth,
    ensures
        no_repeats(threaded(pool, pool[k], depth)),
        forall|id: Seq<u8>|
            ids_of(threaded(pool, pool[k], depth)).contains(id) ==> #[trigger] descends_from(
                pool,
                id,
                depth,
                k,
            ),
    decreases max_chain(pool) - depth, pool.len() + 1,
{
    let tree = threaded(pool, pool[k], depth);
    let replies = threaded_replies(pool, pool[k].id, depth, pool.len());
    lemma_replies_have_no_repeats(pool, k, depth, pool.len());
    assert(tree.children =~= replies);
    assert forall|id: Seq<u8>| ids_of(tree).contains(id) implies #[trigger] descends_from(
        pool,
        id,
        depth,
        k,
    ) by {
        if ids_of_all(replies).contains(id) {
            assert(descends_from_reply(pool, id, pool[k].id, depth, pool.len()));
            let j = choose|j: int|
                0 <= j < pool.len() && is_reply_to(#[trigger] pool[j], pool[k].id, depth)
                    && descends_from(pool, id, depth + 1, j);
            let m = choose|m: int|
                0 <= m < pool.len() && #[trigger] pool[m].id == id && ancestor_at(
                    pool,
                    m,
                    depth + 1,
                ) == Some(j);
            assert(is_parent(pool, k, j));
            lemma_ancestor_of_ancestor(pool, m, j, k, depth);
            assert(pool[m].id == id && ancestor_at(pool, m, depth) == Some(k));
        } else {
            assert(id == pool[k].id);
            assert(pool[k].id == id && ancestor_at(pool, k, depth) == Some(k));
        }
    }
    if ids_of_all(replies).contains(pool[k].id) {
        let id = pool[k].id;
        assert(descends_from_reply(pool, id, pool[k].id, depth, pool.len()));
        let j = choose|j: int|
            0 <= j < pool.len() && is_reply_to(#[trigger] pool[j], pool[k].id, depth)
                && descends_from(pool, id, depth + 1, j);
        let m = choose|m: int|
            0 <= m < pool.len() && #[trigger] pool[m].id == id && ancestor_at(pool, m, depth + 1)
                == Some(j);
        lemma_ancestor_stands_at_depth(pool, m, depth + 1);
        lemma_one_place_for_an_identifier(pool, m, k);
        assert(false);
    }
}

/// Among the replies attached to a comment no identifier stands twice, and
/// every comment among them hangs below a reply to that comment.
proof fn lemma_replies_have_no_repeats(pool: Seq<CommentTree>, k: int, depth: int, upto: nat)
    requires
        distinct_ids(pool),
        is_flat(pool),
        0 <= k < pool.len(),
        pool[k].parent_comments.len() == depth,
        upto <= pool.len(),
    ensures
        no_repeats_all(threaded_replies(pool, pool[k].id, depth, upto)),
        forall|id: Seq<u8>|
            ids_of_all(threaded_replies(pool, pool[k].id, depth, upto)).contains(id)
                ==> #[trigger] descends_from_reply(pool, id, pool[k].id, depth, upto),
    decreases max_chain(pool) - depth, upto,
{
    let parent = pool[k].id;
    if upto > 0 {
        let last = upto - 1;
        let before = threaded_replies(pool, parent, depth, last as nat);
        let now = threaded_replies(pool, parent, depth, upto);
        lemma_replies_have_no_repeats(pool, k, depth, last as nat);
        assert forall|id: Seq<u8>| descends_from_reply(pool, id, parent, depth, last as nat)
            implies descends_from_reply(pool, id, parent, depth, upto) by {
            let j = choose|j: int|
                0 <= j < last && j < pool.len() && is_reply_to(#[trigger] pool[j], parent, depth)
                    && descends_from(pool, id, depth + 1, j);
            assert(is_reply_to(pool[j], parent, depth) && descends_from(pool, id, depth + 1, j));
        }
        if is_reply_to(pool[last], parent, depth) {
            lemma_max_chain_bounds(pool, last);
            let child = threaded(pool, pool[last], depth + 1);
            lemma_subtree_has_no_repeats(pool, last, depth + 1);
            assert(now == before.push(child));
            assert(now.drop_last() =~= before);
            assert(now.last() == child);
            assert forall|id: Seq<u8>| ids_of(child).contains(id) implies descends_from_reply(
                pool,
                id,
                parent,
                depth,
                upto,
            ) by {
                assert(descends_from(pool, id, depth + 1, last));
                assert(is_reply_to(pool[last], parent, depth));
            }
            assert forall|id: Seq<u8>|
                ids_of_all(before).contains(id) && ids_of(child).contains(id) implies false by {
                assert(descends_from_reply(pool, id, parent, depth, last as nat));
                let j = choose|j: int|
                    0 <= j < last && j < pool.len() && is_reply_to(
                        #[trigger] pool[j],
                        parent,
                        depth,
                    ) && descends_from(pool, id, depth + 1, j);
                let m = choose|m: int|
                    0 <= m < pool.len() && #[trigger] pool[m].id == id && ancestor_at(
                        pool,
                        m,
                        depth + 1,
                    ) == Some(j);
                assert(descends_from(pool, id, depth + 1, last));
                let n = choose|n: int|
                    0 <= n < pool.len() && #[trigger] pool[n].id == id && ancestor_at(
                        pool,
                        n,
                        depth + 1,
                    ) == Some(last);
                lemma_one_place_for_an_identifier(pool, m, n);
            }
            assert(ids_of_all(before).disjoint(ids_of(child)));
        } else {
            assert(now == before);
        }
    }
}

/// Among the trees of the comments at one depth no identifier stands twice,
/// and every comment in them hangs below one of these comments.
proof fn lemma_roots_have_no_repeats(pool: Seq<CommentTree>, depth: int, upto: nat)
    requires
        distinct_ids(pool),
        is_flat(pool),
        upto <= pool.len(),
    ensures
        no_repeats_all(threaded_roots(pool, depth, upto)),
        forall|id: Seq<u8>|
            ids_of_all(threaded_roots(pool, depth, upto)).contains(id)
                ==> #[trigger] descends_from_root(pool, id, depth, upto),
    decreases upto,
{
    if upto > 0 {
        let last = upto - 1;
        let before = threaded_roots(pool, depth, last as nat);
        let now = threaded_roots(pool, depth, upto);
        lemma_roots_have_no_repeats(pool, depth, last as nat);
        assert forall|id: Seq<u8>| descends_from_root(pool, id, depth, last as nat)
            implies descends_from_root(pool, id, depth, upto) by {
            let j = choose|j: int|
                0 <= j < last && j < pool.len() && (#[trigger] pool[j]).parent_comments.len()
                    == depth && descends_from(pool, id, depth, j);
            assert(pool[j].parent_comments.len() == depth && descends_from(pool, id, depth, j));
        }
        if pool[last].parent_comments.len() == depth {
            let root = threaded(pool, pool[last], depth);
            lemma_subtree_has_no_repeats(pool, last, depth);
            assert(now == before.push(root));
            assert(now.drop_last() =~= before);
            assert(now.last() == root);
            assert forall|id: Seq<u8>| ids_of(root).contains(id) implies descends_from_root(
                pool,
                id,
                depth,
                upto,
            ) by {
                assert(descends_from(pool, id, depth, last));
                assert(pool[last].parent_comments.len() == depth);
            }
            assert forall|id: Seq<u8>|
                ids_of_all(before).contains(id) && ids_of(root).contains(id) implies false by {
                assert(descends_from_root(pool, id, depth, last as nat));
                let j = choose|j: int|
                    0 <= j < last && j < pool.len() && (#[trigger] pool[j]).parent_comments.len()
                        == depth && descends_from(pool, id, depth, j);
                let m = choose|m: int|
                    0 <= m < pool.len() && #[trigger] pool[m].id == id && ancestor_at(
                        pool,
                        m,
                        depth,
                    ) == Some(j);
                assert(descends_from(pool, id, depth, last));
                let n = choose|n: int|
                    0 <= n < pool.len() && #[trigger] pool[n].id == id && ancestor_at(
                        pool,
                        n,
                        depth,
                    ) == Some(last);
                lemma_one_place_for_an_identifier(pool, m, n);
            }
            assert(ids_of_all(before).disjoint(ids_of(root)));
        } else {
            assert(now == before);
        }
    }
}

/// Threading a flat set of comments lets no comment appear twice: in the
/// trees that it builds no identifier stands in two places, so that no
/// comment is a reply to itself, directly or indirectly, and none hangs
/// below two comments or in two trees.
pub proof fn lemma_no_comment_appears_twice(comments: Seq<CommentTree>, init_depth: int)
    requires
        is_flat(comments),
    ensures
        no_repeats_all(threaded_comments(comments, init_depth)),
{
    lemma_grouped_is_distinct(comments, comments.len());
    lemma_grouped_is_flat(comments);
    lemma_roots_have_no_repeats(grouped(comments), init_depth, grouped(comments).len());
}

/// Whether `tree` is one of `trees`.
pub open spec fn is_one_of(trees: Seq<CommentTree>, tree: CommentTree) -> bool {
    exists|k: int| 0 <= k < trees.len() && #[trigger] trees[k] == tree
}

/// Where no identifier stands twice in several trees, none stands twice in
/// one of them.
proof fn lemma_each_has_no_repeats(trees: Seq<CommentTree>, k: int)
    requires
        no_repeats_all(trees),
        0 <= k < trees.len(),
    ensures
        no_repeats(trees[k]),
    decreases trees.len(),
{
    if k < trees.len() - 1 {
        lemma_each_has_no_repeats(trees.drop_last(), k);
    }
}

/// The tree that is found by its identifier is one of the trees.
proof fn lemma_tree_with_id_is_one_of(trees: Seq<CommentTree>, id: Seq<u8>, upto: nat)
    requires
        upto <= trees.len(),
        tree_with_id(trees, id, upto) is Some,
    ensures
        is_one_of(trees, tree_with_id(trees, id, upto)->0),
    decreases upto,
{
    if upto > 0 {
        if tree_with_id(trees, id, (upto - 1) as nat) is Some {
            lemma_tree_with_id_is_one_of(trees, id, (upto - 1) as nat);
        } else {
            assert(trees[upto - 1] == tree_with_id(trees, id, upto)->0);
        }
    }
}

/// What is selected from trees is made of these trees.
proof fn lemma_selected_are_of_the_trees(
    found: Seq<CommentTree>,
    init_depth: int,
    trees: Seq<CommentTree>,
    upto: nat,
)
    requires
        upto <= found.len(),
    ensures
        forall|i: int|
            0 <= i < selected(found, init_depth, trees, upto).len() ==> is_one_of(
                trees,
                #[trigger] selected(found, init_depth, trees, upto)[i],
            ),
    decreases upto,
{
    if upto > 0 {
        lemma_selected_are_of_the_trees(found, init_depth, trees, (upto - 1) as nat);
        let before = selected(found, init_depth, trees, (upto - 1) as nat);
        let now = selected(found, init_depth, trees, upto);
        let comment = found[upto - 1];
        if tree_with_id(trees, comment.id, trees.len()) is Some {
            lemma_tree_with_id_is_one_of(trees, comment.id, trees.len());
        }
        assert forall|i: int| 0 <= i < now.len() implies is_one_of(trees, #[trigger] now[i]) by {
            if i < before.len() {
                assert(now[i] == before[i]);
            }
        }
    }
}

/// The answer for a page of comments that were found flat is made of trees
/// of their threading: each tree of the answer stands at the depth of the
/// page with every comment in it where its chain of parents says, and no
/// identifier stands twice in it.
pub proof fn lemma_answer_is_made_of_threads(found: Seq<CommentTree>, init_depth: int)
    requires
        is_flat(found),
    ensures
        forall|i: int|
            0 <= i < assembled(found, init_depth).len() ==> {
                &&& is_one_of(
                    threaded_comments(found, init_depth),
                    #[trigger] assembled(found, init_depth)[i],
                )
                &&& well_placed(assembled(found, init_depth)[i], init_depth)
                &&& no_repeats(assembled(found, init_depth)[i])
            },
{
    let trees = threaded_comments(found, init_depth);
    let answer = assembled(found, init_depth);
    lemma_selected_are_of_the_trees(found, init_depth, trees, found.len());
    lemma_threads_are_well_placed(found, init_depth);
    lemma_no_comment_appears_twice(found, init_depth);
    assert forall|i: int| 0 <= i < answer.len() implies {
        &&& is_one_of(trees, #[trigger] answer[i])
        &&& well_placed(answer[i], init_depth)
        &&& no_repeats(answer[i])
    } by {
        assert(is_one_of(trees, answer[i]));
        let k = choose|k: int| 0 <= k < trees.len() && #[trigger] trees[k] == answer[i];
        lemma_each_has_no_repeats(trees, k);
    }
}

} // verus!
