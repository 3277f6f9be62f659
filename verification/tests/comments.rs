use forum_core::api_types::Failure;
use forum_core::comments::{
    check_comment, group_comments, thread_comment, thread_comments, thread_roots,
    CommentDetail, CommentFetchType, CommentSort, CreateRequest, ListQuery,
};
use forum_core::masked_oid::{MaskedObjectId, MaskingKey, RecordId};
use forum_core::posts::Votes;
use forum_core::types::Comment;

fn token(n: u8) -> MaskedObjectId {
    MaskedObjectId::from_bytes([n; 16])
}

fn comment(id: u8, parents: &[u8]) -> CommentDetail {
    CommentDetail {
        id: token(id),
        username: format!("user{}", id),
        parent_comments: parents.iter().map(|p| token(*p)).collect(),
        parent_post: token(200),
        text: format!("text {}", id),
        replies: 0,
        children: Vec::new(),
        votes: Votes { up: 0, down: 0 },
    }
}

/// The identifiers of a tree, in brackets that show its shape.
fn shape(node: &CommentDetail) -> String {
    let children: Vec<String> = node.children.iter().map(shape).collect();
    format!("{}[{}]", node.id.bytes[0], children.join(" "))
}

fn shapes(nodes: &[CommentDetail]) -> Vec<String> {
    nodes.iter().map(shape).collect()
}

fn count(node: &CommentDetail, id: u8) -> usize {
    let here = if node.id.bytes[0] == id { 1 } else { 0 };
    here + node.children.iter().map(|c| count(c, id)).sum::<usize>()
}

#[test]
fn replies_hang_below_their_parents() {
    let flat = vec![
        comment(1, &[]),
        comment(2, &[]),
        comment(3, &[1]),
        comment(4, &[1]),
        comment(5, &[1, 3]),
        comment(6, &[2]),
        comment(7, &[1, 3, 5]),
    ];
    let trees = thread_comments(flat, 0);
    assert_eq!(shapes(&trees), vec!["1[3[5[7[]]] 4[]]", "2[6[]]"]);
    assert_eq!(trees[0].children[0].text, "text 3");
    assert_eq!(trees[0].children[0].username, "user3");
}

#[test]
fn the_order_of_the_flat_set_is_kept() {
    let flat = vec![
        comment(7, &[1, 3, 5]),
        comment(6, &[2]),
        comment(4, &[1]),
        comment(5, &[1, 3]),
        comment(2, &[]),
        comment(3, &[1]),
        comment(1, &[]),
    ];
    let trees = thread_comments(flat, 0);
    assert_eq!(shapes(&trees), vec!["2[6[]]", "1[4[] 3[5[7[]]]]"]);
}

#[test]
fn trees_can_start_below_the_top() {
    let flat = vec![
        comment(3, &[1]),
        comment(4, &[1]),
        comment(5, &[1, 3]),
        comment(8, &[9, 4]),
        comment(6, &[2]),
    ];
    let trees = thread_comments(flat, 1);
    assert_eq!(shapes(&trees), vec!["3[5[]]", "4[8[]]", "6[]"]);
}

#[test]
fn a_reply_needs_its_parent_last_in_its_chain_and_one_level_up() {
    let flat = vec![
        comment(1, &[]),
        // Names 1 in its chain, but not last: no reply to 1.
        comment(2, &[1, 9]),
        // Ends in 1, but two levels down: no reply to 1 either.
        comment(3, &[8, 1]),
        // A reply to 1.
        comment(4, &[1]),
    ];
    let trees = thread_comments(flat, 0);
    assert_eq!(shapes(&trees), vec!["1[4[]]"]);
}

#[test]
fn no_comment_is_its_own_child_or_appears_twice() {
    let flat = vec![
        comment(1, &[]),
        // Claims to reply to itself.
        comment(2, &[2]),
        comment(3, &[1]),
        comment(4, &[1, 3]),
        // The same identifier again: the last one stands for both.
        comment(3, &[1]),
        comment(5, &[1, 3]),
    ];
    let trees = thread_comments(flat, 0);
    assert_eq!(shapes(&trees), vec!["1[3[4[] 5[]]]"]);
    for id in 1..=5u8 {
        let total: usize = trees.iter().map(|t| count(t, id)).sum();
        assert!(total <= 1, "comment {} appears {} times", id, total);
    }
}

#[test]
fn of_two_comments_with_one_identifier_the_last_stands() {
    let mut first = comment(1, &[]);
    first.text = String::from("first");
    let mut second = comment(1, &[]);
    second.text = String::from("second");
    let pool = group_comments(&vec![first, comment(2, &[]), second]);
    assert_eq!(pool.len(), 2);
    assert_eq!(pool[0].id.bytes, [2; 16]);
    assert_eq!(pool[1].id.bytes, [1; 16]);
    assert_eq!(pool[1].text, "second");
}

#[test]
fn nothing_stands_at_a_negative_depth() {
    assert!(thread_comments(vec![comment(1, &[]), comment(2, &[1])], -1).is_empty());
    assert!(thread_comments(vec![comment(1, &[])], i32::MIN).is_empty());
    assert!(thread_comments(Vec::new(), 0).is_empty());
    assert!(thread_comments(vec![comment(1, &[])], 5).is_empty());
}

#[test]
fn children_that_are_there_stay_in_front() {
    let mut parent = comment(1, &[]);
    parent.children.push(comment(9, &[1]));
    let pool = vec![comment(3, &[1]), comment(4, &[7])];
    let node = thread_comment(0, &parent, &pool);
    assert_eq!(shape(&node), "1[9[] 3[]]");

    let roots = thread_roots(&pool, 1);
    assert_eq!(shapes(&roots), vec!["3[]", "4[]"]);
}

#[test]
fn a_copy_is_deep() {
    let flat = vec![comment(1, &[]), comment(3, &[1]), comment(5, &[1, 3])];
    let trees = thread_comments(flat, 0);
    let copy = trees[0].duplicate();
    assert_eq!(shape(&copy), shape(&trees[0]));
    assert_eq!(copy.children[0].children[0].parent_comments.len(), 2);
    assert_eq!(copy.children[0].children[0].parent_comments[1].bytes, [3; 16]);
}

fn stored(id: u8, deleted: bool) -> Comment {
    Comment {
        id: RecordId::from_bytes([id; 12]),
        owner: RecordId::from_bytes([50; 12]),
        username: String::from("ada"),
        parent_post: RecordId::from_bytes([60; 12]),
        parent_comments: vec![RecordId::from_bytes([70; 12]), RecordId::from_bytes([71; 12])],
        text: String::from("hello"),
        deleted,
        replies: 4,
        votes_up: 3,
        votes_down: 1,
    }
}

#[test]
fn a_stored_comment_is_shown_with_masked_identifiers() {
    let key = MaskingKey::new(&[3; 16]);
    let detail = CommentDetail::from_comment(&key, &stored(1, false));
    assert_eq!(detail.id.bytes, key.mask(&RecordId::from_bytes([1; 12])).bytes);
    assert_eq!(detail.parent_post.bytes, key.mask(&RecordId::from_bytes([60; 12])).bytes);
    assert_eq!(detail.parent_comments.len(), 2);
    assert_eq!(detail.parent_comments[0].bytes, key.mask(&RecordId::from_bytes([70; 12])).bytes);
    assert_eq!(detail.parent_comments[1].bytes, key.mask(&RecordId::from_bytes([71; 12])).bytes);
    assert_eq!(detail.username, "ada");
    assert_eq!(detail.text, "hello");
    assert_eq!(detail.replies, 4);
    assert_eq!(detail.votes, Votes { up: 3, down: 1 });
    assert!(detail.children.is_empty());
}

#[test]
fn the_text_of_a_deleted_comment_is_withheld() {
    let key = MaskingKey::new(&[3; 16]);
    let detail = CommentDetail::from_comment(&key, &stored(1, true));
    assert_eq!(detail.text, "[deleted]");
    assert_eq!(detail.username, "ada");
}

fn request(key: &MaskingKey, text: String, parents: usize) -> CreateRequest {
    CreateRequest {
        text,
        parent_post: key.mask(&RecordId::from_bytes([1; 12])),
        parent_comments: (0..parents)
            .map(|i| key.mask(&RecordId::from_bytes([10 + i as u8; 12])))
            .collect(),
    }
}

#[test]
fn a_comment_within_the_limits_is_accepted() {
    let key = MaskingKey::new(&[4; 16]);
    let comment = check_comment(&key, &request(&key, "x".repeat(500), 5)).expect("within limits");
    assert_eq!(comment.text.len(), 500);
    assert_eq!(comment.parent_post.bytes, [1; 12]);
    assert_eq!(comment.parent_comments.len(), 5);
    assert_eq!(comment.parent_comments[4].bytes, [14; 12]);
}

#[test]
fn comments_beyond_the_limits_are_refused() {
    let key = MaskingKey::new(&[4; 16]);
    let result = check_comment(&key, &request(&key, "x".repeat(501), 0));
    assert!(matches!(result, Err(Failure::BadRequest("oversized comment text"))));
    // The length is counted in bytes.
    let result = check_comment(&key, &request(&key, "\u{e9}".repeat(251), 0));
    assert!(matches!(result, Err(Failure::BadRequest("oversized comment text"))));
    let result = check_comment(&key, &request(&key, String::from("fine"), 6));
    assert!(matches!(result, Err(Failure::BadRequest("too many parent comments"))));
    // The text is looked at first.
    let result = check_comment(&key, &request(&key, "x".repeat(501), 6));
    assert!(matches!(result, Err(Failure::BadRequest("oversized comment text"))));
}

#[test]
fn comments_with_tokens_that_do_not_decode_are_refused() {
    let key = MaskingKey::new(&[4; 16]);
    let mut bad_post = request(&key, String::from("fine"), 1);
    bad_post.parent_post = token(0);
    assert!(matches!(check_comment(&key, &bad_post), Err(Failure::BadRequest("bad masked id"))));
    let mut bad_parent = request(&key, String::from("fine"), 2);
    bad_parent.parent_comments[1] = token(0);
    assert!(matches!(check_comment(&key, &bad_parent), Err(Failure::BadRequest("bad masked id"))));
}

#[test]
fn a_list_query_names_its_parent_and_what_was_seen() {
    let key = MaskingKey::new(&[4; 16]);
    let query = ListQuery {
        kind: CommentFetchType::Root,
        parent: key.mask(&RecordId::from_bytes([1; 12])),
        seen: vec![key.mask(&RecordId::from_bytes([2; 12]))],
        sort: CommentSort::Best,
    };
    let (parent, seen) = query.targets(&key).expect("tokens decode");
    assert_eq!(parent.bytes, [1; 12]);
    assert_eq!(seen.len(), 1);
    assert_eq!(seen[0].bytes, [2; 12]);

    let query = ListQuery {
        kind: CommentFetchType::Thread,
        parent: token(0),
        seen: Vec::new(),
        sort: CommentSort::New,
    };
    assert!(matches!(query.targets(&key), Err(Failure::BadRequest("bad masked id"))));
}
