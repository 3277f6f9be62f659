//! Posts as they are shown to readers.

use crate::api_types::Failure;
use crate::conf::POST_MAX_SIZE;
use crate::masked_oid::{
    mask_sequential_spec, mask_spec, unmask_sequential_spec, MaskedObjectId,
    MaskedSequentialId, MaskingKey, RecordId,
};
use crate::types::Post;
use vstd::prelude::*;
use vstd::utf8::encode_utf8;

verus! {

/// The two vote counters of a piece of content.
#[derive(Clone, Copy, Debug, PartialEq, Eq, Structural)]
pub struct Votes {
    pub up: u32,
    pub down: u32,
}

/// The post or comment that a post replies to.
#[derive(Clone, Copy, Debug)]
pub struct ReplyContext {
    pub id: MaskedObjectId,
}

/// A post as returned to readers.
#[derive(Debug)]
pub struct Detail {
    pub id: MaskedObjectId,
    pub sequential_id: MaskedSequentialId,
    pub reply_context: Option<ReplyContext>,
    pub text: String,
    pub created_at: String,
    pub votes: Votes,
}

/// The request body for creating a post.
#[derive(Debug)]
pub struct CreateRequest {
    pub text: String,
}

/// The answer to a creation request.
#[derive(Clone, Copy, Debug)]
pub struct Created {
    pub id: MaskedObjectId,
}

/// How a list of posts is asked for.
#[derive(Clone, Copy, Debug)]
pub enum ListQuery {
    /// The newest posts, those before the post `before` if it is given.
    Recent { before: Option<MaskedSequentialId> },
    /// The posts with the highest trending score.
    Trending,
}

/// How the store is asked for a list of posts.
#[derive(Clone, Copy, Debug, PartialEq, Eq)]
pub enum ListOrder {
    /// By sequential identifier, highest first; only those below `before`,
    /// if it is given.
    Recent { before: Option<i64> },
    /// By trending score, highest first.
    Trending,
}

/// Refuses a post whose text is longer than `POST_MAX_SIZE` bytes.
pub fn check_post(request: &CreateRequest) -> (result: Result<(), Failure<()>>)
    ensures
        encode_utf8(request.text@).len() <= POST_MAX_SIZE ==> result is Ok,
        encode_utf8(request.text@).len() > POST_MAX_SIZE ==> (result matches Err(
            Failure::BadRequest(detail),
        ) && detail@ == "oversized post text"@),
{
    if request.text.as_str().as_bytes().len() > POST_MAX_SIZE {
        Err(Failure::BadRequest("oversized post text"))
    } else {
        Ok(())
    }
}

impl ListQuery {
    /// How the store is to be asked. A cursor that does not decode as a
    /// sequential identifier is refused; one that decodes to a number which
    /// no stored identifier can be compared with is an unexpected failure.
    pub fn order(&self, key: &MaskingKey) -> (result: Result<ListOrder, Failure<()>>)
        ensures
            match *self {
                ListQuery::Trending => result == Ok::<ListOrder, Failure<()>>(
                    ListOrder::Trending,
                ),
                ListQuery::Recent { before: None } => result == Ok::<ListOrder, Failure<()>>(
                    ListOrder::Recent { before: None },
                ),
                ListQuery::Recent { before: Some(token) } => match unmask_sequential_spec(
                    key@,
                    token@,
                ) {
                    None => result matches Err(Failure::BadRequest(detail)) && detail@
                        == "bad masked sequential id"@,
                    Some(number) => if number <= i64::MAX {
                        result == Ok::<ListOrder, Failure<()>>(
                            ListOrder::Recent { before: Some(number as i64) },
                        )
                    } else {
                        result is Err && result->Err_0 is Unexpected
                    },
                },
            },
    {
        match self {
            ListQuery::Trending => Ok(ListOrder::Trending),
            ListQuery::Recent { before: None } => Ok(ListOrder::Recent { before: None }),
            ListQuery::Recent { before: Some(token) } => match key.unmask_sequential(token) {
                Err(_) => Err(Failure::BadRequest("bad masked sequential id")),
                Ok(number) => if number <= 0x7fff_ffff_ffff_ffff {
                    Ok(ListOrder::Recent { before: Some(number as i64) })
                } else {
                    Err(Failure::Unexpected)
                },
            },
        }
    }
}

impl Detail {
    /// The post as it is shown to readers, with the time of its creation as
    /// text.
    pub fn from_post(key: &MaskingKey, post: &Post, created_at: String) -> (detail: Detail)
        requires
            post.sequential_id >= 0,
            post.votes_up >= 0,
            post.votes_down >= 0,
        ensures
            detail.id@ == mask_spec(key@, post.id@),
            detail.sequential_id@ == mask_sequential_spec(key@, post.sequential_id as u64),
            detail.reply_context is None,
            detail.text@ == post.text@,
            detail.created_at@ == created_at@,
            detail.votes == (Votes { up: post.votes_up as u32, down: post.votes_down as u32 }),
    {
        Detail {
            id: key.mask(&post.id),
            sequential_id: key.mask_sequential(post.sequential_id as u64),
            reply_context: None,
            text: post.text.clone(),
            created_at,
            votes: Votes { up: post.votes_up as u32, down: post.votes_down as u32 },
        }
    }
}

impl Created {
    /// The answer for content that was created under the identifier `id`.
    pub fn of(key: &MaskingKey, id: &RecordId) -> (created: Created)
        ensures
            created.id@ == mask_spec(key@, id@),
    {
        Created { id: key.mask(id) }
    }
}

} // verus!
