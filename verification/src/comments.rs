//! Comments, and the assembly of a flat set of comments into reply trees.

use crate::api_types::Failure;
use crate::conf::{COMMENT_MAX_DEPTH, COMMENT_MAX_SIZE};
use crate::masked_oid::{
    lemma_numbers_tell_tokens_apart, mask_spec, token_number, unmask_spec, MaskedObjectId,
    MaskingKey, RecordId,
};
use crate::posts::Votes;
use crate::types::Comment;
use std::collections::HashMap;
use vstd::prelude::*;
use vstd::utf8::encode_utf8;

verus! {

/// A comment as returned to readers, with the replies attached to it.
#[derive(Debug)]
pub struct CommentDetail {
    pub id: MaskedObjectId,
    pub username: String,
    pub parent_comments: Vec<MaskedObjectId>,
    pub parent_post: MaskedObjectId,
    pub text: String,
    pub replies: i32,
    pub children: Vec<CommentDetail>,
    pub votes: Votes,
}

/// The request body for creating a comment.
#[derive(Debug)]
pub struct CreateRequest {
    pub text: String,
    pub parent_post: MaskedObjectId,
    pub parent_comments: Vec<MaskedObjectId>,
}

/// What a comment is, as a value: its fields, and its replies as trees.
pub struct CommentTree {
    pub id: Seq<u8>,
    pub username: Seq<char>,
    pub parent_comments: Seq<Seq<u8>>,
    pub parent_post: Seq<u8>,
    pub text: Seq<char>,
    pub replies: i32,
    pub children: Seq<CommentTree>,
    pub votes: Votes,
}

/// The identifiers of a chain of parents, as values.
pub open spec fn chain_of(chain: Seq<MaskedObjectId>) -> Seq<Seq<u8>> {
    Seq::new(chain.len(), |i: int| chain[i]@)
}

/// The tree that a comment stands for.
pub open spec fn tree_of(comment: CommentDetail) -> CommentTree
    decreases comment,
{
    CommentTree {
        id: comment.id@,
        username: comment.username@,
        parent_comments: chain_of(comment.parent_comments@),
        parent_post: comment.parent_post@,
        text: comment.text@,
        replies: comment.replies,
        children: Seq::new(
            comment.children@.len(),
            |i: int|
                if 0 <= i < comment.children@.len() {
                    tree_of(comment.children@[i])
                } else {
                    arbitrary()
                },
        ),
        votes: comment.votes,
    }
}

/// The trees that a sequence of comments stands for.
pub open spec fn forest_of(comments: Seq<CommentDetail>) -> Seq<CommentTree> {
    Seq::new(comments.len(), |i: int| tree_of(comments[i]))
}

impl View for CommentDetail {
    type V = CommentTree;

    open spec fn view(&self) -> CommentTree {
        tree_of(*self)
    }
}

/// The longest chain of parents among the comments of a pool.
pub open spec fn max_chain(pool: Seq<CommentTree>) -> nat
    decreases pool.len(),
{
    if pool.len() == 0 {
        0
    } else {
        let rest = max_chain(pool.drop_last());
        if pool.last().parent_comments.len() > rest {
            pool.last().parent_comments.len()
        } else {
            rest
        }
    }
}

/// No chain of parents in a pool is longer than the longest.
pub proof fn lemma_max_chain_bounds(pool: Seq<CommentTree>, i: int)
    requires
        0 <= i < pool.len(),
    ensures
        pool[i].parent_comments.len() <= max_chain(pool),
    decreases pool.len(),
{
    if i < pool.len() - 1 {
        lemma_max_chain_bounds(pool.drop_last(), i);
    }
}

/// Whether `comment` is a direct reply to the comment `parent` that stands at
/// depth `depth`: its chain of parents ends in `parent` and is one longer than
/// that of `parent`.
pub open spec fn is_reply_to(comment: CommentTree, parent: Seq<u8>, depth: int) -> bool {
    comment.parent_comments.len() == depth + 1 && comment.parent_comments.last() == parent
}

/// `node`, standing at depth `depth`, with its direct and indirect replies
/// from `pool` attached behind the children it already has.
pub open spec fn threaded(pool: Seq<CommentTree>, node: CommentTree, depth: int) -> CommentTree
    decreases max_chain(pool) - depth, pool.len() + 1,
{
    CommentTree {
        children: node.children + threaded_replies(pool, node.id, depth, pool.len()),
        ..node
    }
}

/// The direct replies to `parent` among the first `upto` comments of `pool`,
/// in the order of the pool, each with its own replies attached.
pub open spec fn threaded_replies(
    pool: Seq<CommentTree>,
    parent: Seq<u8>,
    depth: int,
    upto: nat,
) -> Seq<CommentTree>
    decreases max_chain(pool) - depth, upto,
{
    if upto == 0 || upto > pool.len() {
        Seq::empty()
    } else {
        let before = threaded_replies(pool, parent, depth, (upto - 1) as nat);
        let comment = pool[upto - 1];
        if is_reply_to(comment, parent, depth) {
            proof {
                lemma_max_chain_bounds(pool, upto - 1);
            }
            before.push(threaded(pool, comment, depth + 1))
        } else {
            before
        }
    }
}

/// Whether no comment behind position `i` has the identifier of the one at `i`.
pub open spec fn is_last_of_id(comments: Seq<CommentTree>, i: int) -> bool {
    forall|j: int| i < j < comments.len() ==> comments[j].id != comments[i].id
}

/// Of the first `upto` comments, those that are the last of their identifier.
pub open spec fn grouped_upto(comments: Seq<CommentTree>, upto: nat) -> Seq<CommentTree>
    decreases upto,
{
    if upto == 0 || upto > comments.len() {
        Seq::empty()
    } else {
        let before = grouped_upto(comments, (upto - 1) as nat);
        if is_last_of_id(comments, upto - 1) {
            before.push(comments[upto - 1])
        } else {
            before
        }
    }
}

/// The comments grouped by identifier: of several with one identifier the
/// last stands for all.
pub open spec fn grouped(comments: Seq<CommentTree>) -> Seq<CommentTree> {
    grouped_upto(comments, comments.len())
}

/// Of the first `upto` comments of `pool`, those at depth `init_depth`, each
/// with its replies attached.
pub open spec fn threaded_roots(pool: Seq<CommentTree>, init_depth: int, upto: nat) -> Seq<
    CommentTree,
>
    decreases upto,
{
    if upto == 0 || upto > pool.len() {
        Seq::empty()
    } else {
        let before = threaded_roots(pool, init_depth, (upto - 1) as nat);
        if pool[upto - 1].parent_comments.len() == init_depth {
            before.push(threaded(pool, pool[upto - 1], init_depth))
        } else {
            before
        }
    }
}

/// The reply trees of a flat set of comments: the set is grouped by
/// identifier, and every comment at depth `init_depth` becomes a root.
pub open spec fn threaded_comments(comments: Seq<CommentTree>, init_depth: int) -> Seq<
    CommentTree,
> {
    threaded_roots(grouped(comments), init_depth, grouped(comments).len())
}

/// A copy of a chain of parents.
fn duplicate_chain(chain: &Vec<MaskedObjectId>) -> (copy: Vec<MaskedObjectId>)
    ensures
        copy@ == chain@,
{
    let mut copy: Vec<MaskedObjectId> = Vec::new();
    let mut i: usize = 0;
    while i < chain.len()
        invariant
            i <= chain.len(),
            copy@ == chain@.subrange(0, i as int),
        decreases chain.len() - i,
    {
        copy.push(chain[i]);
        assert(copy@ =~= chain@.subrange(0, i + 1));
        i += 1;
    }
    assert(copy@ =~= chain@);
    copy
}

impl CommentDetail {
    /// A copy of the comment and of all the replies attached to it.
    pub fn duplicate(&self) -> (copy: CommentDetail)
        ensures
            copy@ == self@,
        decreases self,
    {
        let mut children: Vec<CommentDetail> = Vec::new();
        let mut i: usize = 0;
        while i < self.children.len()
            invariant
                i <= self.children.len(),
                children@.len() == i,
                forall|j: int| 0 <= j < i ==> tree_of(children@[j]) == tree_of(self.children@[j]),
            decreases self.children.len() - i,
        {
            let child = self.children[i].duplicate();
            children.push(child);
            i += 1;
        }
        let copy = CommentDetail {
            id: self.id,
            username: self.username.clone(),
            parent_comments: duplicate_chain(&self.parent_comments),
            parent_post: self.parent_post,
            text: self.text.clone(),
            replies: self.replies,
            children,
            votes: self.votes,
        };
        assert(tree_of(copy).children =~= tree_of(*self).children);
        copy
    }
}

/// The number of the identifier of the comment at `i`.
pub open spec fn number_at(comments: Seq<CommentDetail>, i: int) -> u128 {
    token_number(comments[i].id@)
}

/// Whether `places` holds, for every identifier among the first `upto`
/// comments, the place of the last of them that has it.
pub open spec fn holds_last_places(
    places: Map<u128, usize>,
    comments: Seq<CommentDetail>,
    upto: int,
) -> bool {
    &&& forall|j: int| 0 <= j < upto ==> places.contains_key(#[trigger] number_at(comments, j))
    &&& forall|number: u128| #[trigger]
        places.contains_key(number) ==> {
            &&& places[number] < upto
            &&& number_at(comments, places[number] as int) == number
            &&& forall|j: int|
                places[number] < j < upto ==> #[trigger] number_at(comments, j) != number
        }
}

/// The place of the last comment of each identifier.
fn last_places(comments: &Vec<CommentDetail>) -> (places: HashMap<u128, usize>)
    ensures
        holds_last_places(places@, comments@, comments@.len() as int),
{
    let mut places: HashMap<u128, usize> = HashMap::new();
    let mut i: usize = 0;
    while i < comments.len()
        invariant
            i <= comments.len(),
            holds_last_places(places@, comments@, i as int),
        decreases comments.len() - i,
    {
        let number = comments[i].id.number();
        let ghost before = places@;
        places.insert(number, i);
        proof {
            assert(number == number_at(comments@, i as int));
            assert forall|j: int| 0 <= j < i + 1 implies places@.contains_key(
                #[trigger] number_at(comments@, j),
            ) by {
                if j < i {
                    assert(before.contains_key(number_at(comments@, j)));
                }
            }
            assert forall|other: u128| #[trigger] places@.contains_key(other) implies {
                &&& places@[other] < i + 1
                &&& number_at(comments@, places@[other] as int) == other
                &&& forall|j: int|
                    places@[other] < j < i + 1 ==> #[trigger] number_at(comments@, j) != other
            } by {
                if other != number {
                    assert(before.contains_key(other));
                    assert(places@[other] == before[other]);
                }
            }
        }
        i += 1;
    }
    places
}

/// A comment is the last of its identifier exactly when it stands at the
/// last place of the number of its identifier.
proof fn lemma_last_place_is_last_of_id(
    places: Map<u128, usize>,
    comments: Seq<CommentDetail>,
    i: int,
)
    requires
        holds_last_places(places, comments, comments.len() as int),
        0 <= i < comments.len(),
    ensures
        places.contains_key(number_at(comments, i)),
        is_last_of_id(forest_of(comments), i) <==> places[number_at(comments, i)] == i,
{
    let trees = forest_of(comments);
    let number = number_at(comments, i);
    assert(places.contains_key(number));
    let last = places[number] as int;
    if last == i {
        assert forall|j: int| i < j < trees.len() implies trees[j].id != trees[i].id by {
            assert(number_at(comments, j) != number);
        }
    } else {
        assert(number_at(comments, last) == number);
        lemma_numbers_tell_tokens_apart(comments[last].id@, comments[i].id@);
        if last < i {
            assert(number_at(comments, i) != number);
        }
        assert(i < last);
        assert(trees[last].id == trees[i].id);
    }
}

/// Groups comments by identifier: of several with one identifier the last
/// stands for all, and the others are dropped.
pub fn group_comments(comments: &Vec<CommentDetail>) -> (pool: Vec<CommentDetail>)
    ensures
        forest_of(pool@) == grouped(forest_of(comments@)),
{
    let ghost trees = forest_of(comments@);
    let places = last_places(comments);
    let mut pool: Vec<CommentDetail> = Vec::new();
    let mut i: usize = 0;
    while i < comments.len()
        invariant
            i <= comments.len(),
            trees == forest_of(comments@),
            holds_last_places(places@, comments@, comments@.len() as int),
            forest_of(pool@) == grouped_upto(trees, i as nat),
        decreases comments.len() - i,
    {
        let ghost before = forest_of(pool@);
        let number = comments[i].id.number();
        proof {
            lemma_last_place_is_last_of_id(places@, comments@, i as int);
        }
        let is_last = match places.get(&number) {
            Some(place) => *place == i,
            None => false,
        };
        if is_last {
            pool.push(comments[i].duplicate());
            assert(forest_of(pool@) =~= before.push(trees[i as int]));
        }
        i += 1;
    }
    pool
}

/// `comment`, standing at depth `depth`, with its replies from `pool`
/// attached.
fn thread_at(depth: usize, comment: &CommentDetail, pool: &Vec<CommentDetail>) -> (node:
    CommentDetail)
    ensures
        node@ == threaded(forest_of(pool@), comment@, depth as int),
    decreases max_chain(forest_of(pool@)) - depth,
{
    let ghost trees = forest_of(pool@);
    let mut node = comment.duplicate();
    let mut i: usize = 0;
    while i < pool.len()
        invariant
            i <= pool.len(),
            trees == forest_of(pool@),
            node@ == (CommentTree {
                children: comment@.children + threaded_replies(
                    trees,
                    comment@.id,
                    depth as int,
                    i as nat,
                ),
                ..comment@
            }),
        decreases pool.len() - i,
    {
        let candidate = &pool[i];
        let length = candidate.parent_comments.len();
        let ghost chain = trees[i as int].parent_comments;
        assert(chain.len() == length);
        if length > 0 && length - 1 == depth && candidate.parent_comments[length - 1].same(
            &comment.id,
        ) {
            assert(chain.last() == candidate.parent_comments@[length - 1]@);
            assert(is_reply_to(trees[i as int], comment@.id, depth as int));
            proof {
                lemma_max_chain_bounds(trees, i as int);
            }
            let child = thread_at(depth + 1, candidate, pool);
            let ghost before = node@;
            node.children.push(child);
            assert(node@.children =~= before.children.push(child@));
            assert(node@.children =~= comment@.children + threaded_replies(
                trees,
                comment@.id,
                depth as int,
                (i + 1) as nat,
            ));
        } else {
            assert(!is_reply_to(trees[i as int], comment@.id, depth as int)) by {
                if chain.len() == depth + 1 {
                    assert(chain.last() == candidate.parent_comments@[length - 1]@);
                }
            }
        }
        i += 1;
    }
    node
}

/// Attaches to `comment`, which stands at depth `depth`, its direct and
/// indirect replies from `comment_map`.
pub fn thread_comment(depth: u32, comment: &CommentDetail, comment_map: &Vec<CommentDetail>) -> (node:
    CommentDetail)
    ensures
        node@ == threaded(forest_of(comment_map@), comment@, depth as int),
{
    thread_at(depth as usize, comment, comment_map)
}

/// Of the comments of `pool`, those at depth `init_depth`, each with its
/// replies from `pool` attached.
pub fn thread_roots(pool: &Vec<CommentDetail>, init_depth: usize) -> (roots: Vec<CommentDetail>)
    ensures
        forest_of(roots@) == threaded_roots(
            forest_of(pool@),
            init_depth as int,
            pool@.len() as nat,
        ),
{
    let ghost trees = forest_of(pool@);
    let mut roots: Vec<CommentDetail> = Vec::new();
    let mut i: usize = 0;
    while i < pool.len()
        invariant
            i <= pool.len(),
            trees == forest_of(pool@),
            forest_of(roots@) == threaded_roots(trees, init_depth as int, i as nat),
        decreases pool.len() - i,
    {
        let ghost before = forest_of(roots@);
        assert(trees[i as int].parent_comments.len() == pool[i as int].parent_comments.len());
        if pool[i].parent_comments.len() == init_depth {
            let root = thread_at(init_depth, &pool[i], pool);
            roots.push(root);
            assert(forest_of(roots@) =~= before.push(root@));
        }
        i += 1;
    }
    roots
}

/// No comment stands at a depth below zero.
proof fn lemma_no_roots_below_zero(pool: Seq<CommentTree>, init_depth: int, upto: nat)
    requires
        init_depth < 0,
    ensures
        threaded_roots(pool, init_depth, upto) == Seq::<CommentTree>::empty(),
    decreases upto,
{
    if upto > 0 && upto <= pool.len() {
        lemma_no_roots_below_zero(pool, init_depth, (upto - 1) as nat);
    }
}

/// Builds the reply trees of a flat set of comments: groups the set by
/// identifier and makes a root of every comment at depth `init_depth`.
pub fn thread_comments(comments: Vec<CommentDetail>, init_depth: i32) -> (roots: Vec<
    CommentDetail,
>)
    ensures
        forest_of(roots@) == threaded_comments(forest_of(comments@), init_depth as int),
{
    let pool = group_comments(&comments);
    if init_depth < 0 {
        proof {
            lemma_no_roots_below_zero(
                forest_of(pool@),
                init_depth as int,
                forest_of(pool@).len(),
            );
        }
        let roots: Vec<CommentDetail> = Vec::new();
        assert(forest_of(roots@) =~= Seq::<CommentTree>::empty());
        return roots;
    }
    thread_roots(&pool, init_depth as usize)
}

/// A comment as it is shown: its identifiers masked under `key`, its text
/// withheld if it was deleted, and no replies attached.
pub open spec fn shown(key: Seq<u8>, comment: Comment) -> CommentTree {
    CommentTree {
        id: mask_spec(key, comment.id@),
        username: comment.username@,
        parent_comments: Seq::new(
            comment.parent_comments@.len(),
            |i: int| mask_spec(key, comment.parent_comments@[i]@),
        ),
        parent_post: mask_spec(key, comment.parent_post@),
        text: if comment.deleted {
            "[deleted]"@
        } else {
            comment.text@
        },
        replies: comment.replies,
        children: Seq::empty(),
        votes: Votes { up: comment.votes_up as u32, down: comment.votes_down as u32 },
    }
}

impl CommentDetail {
    /// The comment as it is shown to readers.
    pub fn from_comment(key: &MaskingKey, comment: &Comment) -> (detail: CommentDetail)
        requires
            comment.votes_up >= 0,
            comment.votes_down >= 0,
        ensures
            detail@ == shown(key@, *comment),
    {
        let mut parent_comments: Vec<MaskedObjectId> = Vec::new();
        let mut i: usize = 0;
        while i < comment.parent_comments.len()
            invariant
                i <= comment.parent_comments.len(),
                parent_comments@.len() == i,
                forall|j: int|
                    0 <= j < i ==> parent_comments@[j]@ == mask_spec(
                        key@,
                        comment.parent_comments@[j]@,
                    ),
            decreases comment.parent_comments.len() - i,
        {
            parent_comments.push(key.mask(&comment.parent_comments[i]));
            i += 1;
        }
        let text = if comment.deleted {
            String::from_str("[deleted]")
        } else {
            comment.text.clone()
        };
        let detail = CommentDetail {
            id: key.mask(&comment.id),
            username: comment.username.clone(),
            parent_comments,
            parent_post: key.mask(&comment.parent_post),
            text,
            replies: comment.replies,
            children: Vec::new(),
            votes: Votes { up: comment.votes_up as u32, down: comment.votes_down as u32 },
        };
        assert(detail@.parent_comments =~= shown(key@, *comment).parent_comments);
        assert(detail@.children =~= shown(key@, *comment).children);
        detail
    }
}

/// A comment that may be created: its text and the identifiers of what it
/// replies to.
#[derive(Debug)]
pub struct NewComment {
    pub text: String,
    pub parent_post: RecordId,
    pub parent_comments: Vec<RecordId>,
}

/// Whether every token of the chain decodes under `key`.
pub open spec fn chain_decodes(key: Seq<u8>, chain: Seq<MaskedObjectId>) -> bool {
    forall|i: int| 0 <= i < chain.len() ==> unmask_spec(key, #[trigger] chain[i]@) is Some
}

/// Checks a request to create a comment, in this order: the text is at most
/// `COMMENT_MAX_SIZE` bytes long, there are at most `COMMENT_MAX_DEPTH`
/// parent comments, and the parent post and every parent comment decode.
pub fn check_comment(key: &MaskingKey, request: &CreateRequest) -> (result: Result<
    NewComment,
    Failure<()>,
>)
    ensures
        match result {
            Ok(comment) => {
                &&& encode_utf8(request.text@).len() <= COMMENT_MAX_SIZE
                &&& request.parent_comments@.len() <= COMMENT_MAX_DEPTH
                &&& comment.text@ == request.text@
                &&& unmask_spec(key@, request.parent_post@) == Some(comment.parent_post@)
                &&& comment.parent_comments@.len() == request.parent_comments@.len()
                &&& forall|i: int|
                    0 <= i < request.parent_comments@.len() ==> unmask_spec(
                        key@,
                        #[trigger] request.parent_comments@[i]@,
                    ) == Some(comment.parent_comments@[i]@)
            },
            Err(Failure::BadRequest(detail)) => {
                if encode_utf8(request.text@).len() > COMMENT_MAX_SIZE {
                    detail@ == "oversized comment text"@
                } else if request.parent_comments@.len() > COMMENT_MAX_DEPTH {
                    detail@ == "too many parent comments"@
                } else {
                    &&& detail@ == "bad masked id"@
                    &&& (unmask_spec(key@, request.parent_post@) is None || !chain_decodes(
                        key@,
                        request.parent_comments@,
                    ))
                }
            },
            Err(_) => false,
        },
{
    if request.text.as_str().as_bytes().len() > COMMENT_MAX_SIZE {
        return Err(Failure::BadRequest("oversized comment text"));
    }
    if request.parent_comments.len() > COMMENT_MAX_DEPTH {
        return Err(Failure::BadRequest("too many parent comments"));
    }
    let parent_post = match key.unmask(&request.parent_post) {
        Ok(id) => id,
        Err(_) => {
            return Err(Failure::BadRequest("bad masked id"));
        },
    };
    let parent_comments = match key.unmask_all(&request.parent_comments) {
        Ok(ids) => ids,
        Err(_) => {
            return Err(Failure::BadRequest("bad masked id"));
        },
    };
    Ok(NewComment { text: request.text.clone(), parent_post, parent_comments })
}

/// The types of comment fetching options.
///
/// - `Root`: Fetches the root comments of a post.
/// - `Thread`: Fetches comments based off a specified comment.
#[derive(Clone, Copy, Debug, PartialEq, Eq)]
pub enum CommentFetchType {
    Root,
    Thread,
}

/// The types of comment sorting options.
///
/// - `New`: Sorts by the time the comment was created.
/// - `Top`: Sorts by the highest absolute score of the comment.
/// - `Worst`: Sorts by the lowest absolute score of the comment.
/// - `Controversial`: Sorts by the closest absolute score to 0; in a tie,
///   the one with the most total votes ranks highest.
/// - `Best`: Sorts by the highest trending score of the comment.
/// - `Replies`: Sorts by the highest number of replies the comment has.
#[derive(Clone, Copy, Debug, PartialEq, Eq)]
pub enum CommentSort {
    New,
    Top,
    Worst,
    Controversial,
    Best,
    Replies,
}

/// The request body for getting comments.
#[derive(Debug)]
pub struct ListQuery {
    /// Whether the comments of a post or the replies to a comment are asked
    /// for.
    pub kind: CommentFetchType,
    /// The post or the comment whose comments are asked for.
    pub parent: MaskedObjectId,
    /// The comments that the reader has seen.
    pub seen: Vec<MaskedObjectId>,
    /// The order in which the comments are asked for.
    pub sort: CommentSort,
}

impl ListQuery {
    /// The identifiers that the query speaks of: the parent and the comments
    /// seen, decoded. A query with a token that does not decode is refused.
    pub fn targets(&self, key: &MaskingKey) -> (result: Result<(RecordId, Vec<RecordId>), Failure<()>>)
        ensures
            match result {
                Ok((parent, seen)) => {
                    &&& unmask_spec(key@, self.parent@) == Some(parent@)
                    &&& seen@.len() == self.seen@.len()
                    &&& forall|i: int|
                        0 <= i < self.seen@.len() ==> unmask_spec(key@, #[trigger] self.seen@[i]@)
                            == Some(seen@[i]@)
                },
                Err(Failure::BadRequest(detail)) => {
                    &&& detail@ == "bad masked id"@
                    &&& (unmask_spec(key@, self.parent@) is None || !chain_decodes(
                        key@,
                        self.seen@,
                    ))
                },
                Err(_) => false,
            },
    {
        let parent = match key.unmask(&self.parent) {
            Ok(id) => id,
            Err(_) => {
                return Err(Failure::BadRequest("bad masked id"));
            },
        };
        let seen = match key.unmask_all(&self.seen) {
            Ok(ids) => ids,
            Err(_) => {
                return Err(Failure::BadRequest("bad masked id"));
            },
        };
        Ok((parent, seen))
    }
}

} // verus!
