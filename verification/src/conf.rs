//! The fixed settings of the board.

use vstd::prelude::*;

verus! {

/// How long sessions remain usable after their last use, in seconds.
pub const UNUSED_SESSION_TTL: u64 = 5184000;

/// How long to wait between refreshing session TTLs, in seconds.
pub const SESSION_MIN_TIME_BETWEEN_REFRESH: u64 = 86400;

/// The number of posts to return for each request to a post list.
pub const POSTS_PAGE_SIZE: u16 = 5;

/// The maximum length of a post in UTF-8 bytes.
pub const POST_MAX_SIZE: usize = 1000;

/// The maximum length of a comment in UTF-8 bytes.
pub const COMMENT_MAX_SIZE: usize = 500;

/// The maximum number of parent comments above a comment.
pub const COMMENT_MAX_DEPTH: usize = 5;

/// The number of comments to return for the first page of a comment list.
pub const COMMENTS_PAGE_SIZE: u16 = 10;

/// The number of replies that are attached before chance decides.
pub const MIN_REPLYING_COMMENTS_PER_LOAD_IF_AVAILABLE: u32 = 5;

/// The number of attached replies at which a comment list stops growing,
/// and the most replies fetched for one comment.
pub const MAX_REPLYING_COMMENTS_PER_LOAD: u32 = 20;

/// The expected number of replies that chance attaches to one comment.
pub const REPLY_SAMPLING_WEIGHT: u32 = 1;

/// The maximum length of a username.
pub const USERNAME_MAX_LENGTH: usize = 32;

/// The expected value of the `Host` header. Checked in order to protect
/// unauthenticated endpoints from DNS rebinding.
pub const HOST: &'static str = "localhost:3000";

/// The reference point for the time component of vote calculations, in
/// seconds since the Unix epoch: 2022-01-01T00:00:00Z.
pub const TRENDING_EPOCH: i64 = 1640995200;

/// The max number of watched universities a user can have at once.
pub const MAX_WATCHED_UNIVERSITIES: i32 = 3;

/// The max number of results to return when searching for a school by query.
pub const MAX_SCHOOL_RESULTS_PER_QUERY: i32 = 10;

} // verus!
