//! The time component of the trending score.
//!
//! The trending score of a piece of content is
//! `sign(s) * ln(1 + |s|) + offset / decay`, where `s` is its absolute score
//! and `offset` is the number of seconds between the trending epoch and the
//! content's creation. This module computes `offset`.

use crate::conf::TRENDING_EPOCH;
use vstd::prelude::*;

verus! {

/// The number of whole seconds from the trending epoch to the instant
/// `timestamp_millis`, which is in milliseconds since the Unix epoch.
pub open spec fn trending_seconds(timestamp_millis: i64) -> int {
    timestamp_millis as int / 1000 - TRENDING_EPOCH as int
}

/// Whether the trending offset of the instant can be held: the instant is
/// not before the trending epoch, and the offset fits 32 bits.
pub open spec fn has_trending_seconds(timestamp_millis: i64) -> bool {
    timestamp_millis >= 0 && 0 <= trending_seconds(timestamp_millis) <= u32::MAX
}

/// Gets the time-based offset of the trending score for the given
/// timestamp, in seconds.
pub fn get_trending_score_time(timestamp_millis: i64) -> (seconds: u32)
    requires
        has_trending_seconds(timestamp_millis),
    ensures
        seconds == trending_seconds(timestamp_millis),
{
    let since_epoch: i64 = timestamp_millis / 1000 - TRENDING_EPOCH;
    since_epoch as u32
}

/// Gets the time-based offset of the trending score for the given
/// timestamp, where there is one.
pub fn checked_trending_score_time(timestamp_millis: i64) -> (seconds: Option<u32>)
    ensures
        has_trending_seconds(timestamp_millis) ==> seconds == Some(
            trending_seconds(timestamp_millis) as u32,
        ),
        !has_trending_seconds(timestamp_millis) ==> seconds is None,
{
    if timestamp_millis < 0 {
        return None;
    }
    let since_epoch: i64 = timestamp_millis / 1000 - TRENDING_EPOCH;
    if 0 <= since_epoch && since_epoch <= 0xffff_ffff {
        Some(get_trending_score_time(timestamp_millis))
    } else {
        None
    }
}

/// Of two pieces of content, the one created a second or more later has the
/// greater time offset, and so, at equal absolute score, the greater
/// trending score: the time offset grows strictly with the second of
/// creation and never shrinks with the instant of creation.
pub proof fn lemma_trending_seconds_grow_with_time(earlier_millis: i64, later_millis: i64)
    requires
        earlier_millis <= later_millis,
    ensures
        trending_seconds(earlier_millis) <= trending_seconds(later_millis),
        earlier_millis as int / 1000 < later_millis as int / 1000 ==> trending_seconds(
            earlier_millis,
        ) < trending_seconds(later_millis),
        trending_seconds(later_millis) - trending_seconds(earlier_millis) == later_millis as int
            / 1000 - earlier_millis as int / 1000,
{
}

} // verus!
