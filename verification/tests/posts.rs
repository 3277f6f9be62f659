use forum_core::api_types::Failure;
use forum_core::masked_oid::{MaskedSequentialId, MaskingKey, RecordId};
use forum_core::posts::{check_post, CreateRequest, Created, Detail, ListOrder, ListQuery, Votes};
use forum_core::types::Post;

fn key() -> MaskingKey {
    MaskingKey::new(&[6; 16])
}

#[test]
fn posts_of_up_to_a_thousand_bytes_are_accepted() {
    assert!(check_post(&CreateRequest { text: String::new() }).is_ok());
    assert!(check_post(&CreateRequest { text: "x".repeat(1000) }).is_ok());
    let result = check_post(&CreateRequest { text: "x".repeat(1001) });
    assert!(matches!(result, Err(Failure::BadRequest("oversized post text"))));
    let result = check_post(&CreateRequest { text: "\u{20ac}".repeat(334) });
    assert!(matches!(result, Err(Failure::BadRequest("oversized post text"))));
    assert!(check_post(&CreateRequest { text: "\u{20ac}".repeat(333) }).is_ok());
}

#[test]
fn a_list_is_ordered_as_asked() {
    let key = key();
    assert_eq!(ListQuery::Trending.order(&key).ok(), Some(ListOrder::Trending));
    assert_eq!(
        ListQuery::Recent { before: None }.order(&key).ok(),
        Some(ListOrder::Recent { before: None })
    );
    let cursor = key.mask_sequential(17);
    assert_eq!(
        ListQuery::Recent { before: Some(cursor) }.order(&key).ok(),
        Some(ListOrder::Recent { before: Some(17) })
    );
    let cursor = key.mask_sequential(i64::MAX as u64);
    assert_eq!(
        ListQuery::Recent { before: Some(cursor) }.order(&key).ok(),
        Some(ListOrder::Recent { before: Some(i64::MAX) })
    );
}

#[test]
fn a_cursor_that_is_no_sequential_identifier_is_refused() {
    let key = key();
    let garbage = MaskedSequentialId::from_bytes([0; 16]);
    let result = ListQuery::Recent { before: Some(garbage) }.order(&key);
    assert!(matches!(result, Err(Failure::BadRequest("bad masked sequential id"))));
    // The token of a record is no cursor.
    let record = key.mask(&RecordId::from_bytes([1; 12]));
    let result =
        ListQuery::Recent { before: Some(MaskedSequentialId::from_bytes(record.bytes)) }.order(&key);
    assert!(matches!(result, Err(Failure::BadRequest("bad masked sequential id"))));
    // A number beyond what the store can compare with.
    let cursor = key.mask_sequential(i64::MAX as u64 + 1);
    let result = ListQuery::Recent { before: Some(cursor) }.order(&key);
    assert!(matches!(result, Err(Failure::Unexpected)));
}

#[test]
fn a_post_is_shown_with_masked_identifiers() {
    let key = key();
    let post = Post {
        id: RecordId::from_bytes([8; 12]),
        sequential_id: 12,
        owner: RecordId::from_bytes([9; 12]),
        text: String::from("hello"),
        votes_up: 4,
        votes_down: 1,
        absolute_score: 3,
    };
    let detail = Detail::from_post(&key, &post, String::from("2022-01-01T00:00:00Z"));
    assert_eq!(detail.id.bytes, key.mask(&post.id).bytes);
    assert_eq!(detail.sequential_id.bytes, key.mask_sequential(12).bytes);
    assert!(detail.reply_context.is_none());
    assert_eq!(detail.text, "hello");
    assert_eq!(detail.created_at, "2022-01-01T00:00:00Z");
    assert_eq!(detail.votes, Votes { up: 4, down: 1 });

    let created = Created::of(&key, &post.id);
    assert_eq!(created.id.bytes, key.mask(&post.id).bytes);
}
