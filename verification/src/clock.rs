//! The boundary to the wall clock of `std::time` and to the calendar of
//! `chrono`.
//!
//! Nothing in this file is proved. Nothing is claimed of what the clock
//! reads: two readings may differ in any way. Of the calendar it is claimed
//! only that the same time in the same format always gives the same text.

use chrono::DateTime;
use std::fmt::Write;
use std::time::{SystemTime, UNIX_EPOCH};
use vstd::prelude::*;

verus! {

/// The text that `chrono` writes for the time `seconds` and `nanos` after
/// the Unix epoch, UTC, in the `strftime` format `format`. There is none
/// where `chrono` cannot hold the time or cannot write it in that format.
pub uninterp spec fn stamp_text(seconds: i64, nanos: u32, format: Seq<char>) -> Option<Seq<u8>>;

/// `SystemTime::now` and its `duration_since` the Unix epoch: the whole
/// seconds since the epoch and the nanoseconds within the second. `None`
/// stands for a clock that reads a time before the epoch.
#[verifier::external_body]
pub(crate) fn since_epoch() -> (reading: Option<(u64, u32)>) {
    match SystemTime::now().duration_since(UNIX_EPOCH) {
        Ok(elapsed) => Some((elapsed.as_secs(), elapsed.subsec_nanos())),
        Err(_) => None,
    }
}

/// `DateTime::from_timestamp` and `DateTime::format`, the text taken as
/// bytes. `from_timestamp` gives no time for seconds out of its range or
/// nanoseconds that do not fit the second, and the writing fails on a
/// format that `chrono` does not know; both come back as `None`.
#[verifier::external_body]
pub(crate) fn stamp_of(seconds: i64, nanos: u32, format: &str) -> (stamp: Option<Vec<u8>>)
    ensures
        stamp is Some <==> stamp_text(seconds, nanos, format@) is Some,
        stamp matches Some(bytes) ==> stamp_text(seconds, nanos, format@) == Some(bytes@),
{
    let time = DateTime::from_timestamp(seconds, nanos)?;
    let mut text = String::new();
    write!(text, "{}", time.format(format)).ok()?;
    Some(text.into_bytes())
}

} // verus!
