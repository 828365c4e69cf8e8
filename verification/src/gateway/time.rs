//! The time of an attempt, as the clock reads it.
//!
//! A reading is the whole seconds since the Unix epoch and the nanoseconds
//! within the second, or `None` where the clock stands before the epoch.
//! Not every reading gives a time that can be written down or counted in
//! milliseconds; where it does not, there is no time, and nothing is
//! attempted.

use crate::clock::{stamp_of, stamp_text};
use vstd::prelude::*;

verus! {

/// How the time of an attempt is written: year, month, day, hour, minute,
/// second and milliseconds, closed by `Z`.
pub const STAMP_FORMAT: &'static str = "%Y-%m-%dT%H:%M:%S.%3fZ";

/// The time of `reading` as it is written into a capture, if it can be
/// written.
pub open spec fn stamp_at(reading: Option<(u64, u32)>) -> Option<Seq<u8>> {
    match reading {
        Some((seconds, nanos)) => if seconds <= i64::MAX {
            stamp_text(seconds as i64, nanos, STAMP_FORMAT@)
        } else {
            None
        },
        None => None,
    }
}

/// The time of `reading` in milliseconds since the epoch, if it can be
/// counted so.
pub open spec fn millis_at(reading: Option<(u64, u32)>) -> Option<i64> {
    match reading {
        Some((seconds, nanos)) => if seconds * 1000 + nanos / 1_000_000 <= i64::MAX {
            Some((seconds * 1000 + nanos / 1_000_000) as i64)
        } else {
            None
        },
        None => None,
    }
}

/// The bytes of `stamp`, if there is one.
pub open spec fn text_of(stamp: Option<Vec<u8>>) -> Option<Seq<u8>> {
    match stamp {
        Some(bytes) => Some(bytes@),
        None => None,
    }
}

/// Writes the time of `reading` as it goes into a capture.
pub fn stamp(reading: Option<(u64, u32)>) -> (stamp: Option<Vec<u8>>)
    ensures
        text_of(stamp) == stamp_at(reading),
{
    match reading {
        Some((seconds, nanos)) => {
            if seconds <= i64::MAX as u64 {
                stamp_of(seconds as i64, nanos, STAMP_FORMAT)
            } else {
                None
            }
        },
        None => None,
    }
}

/// Counts the time of `reading` in milliseconds since the epoch.
pub fn millis(reading: Option<(u64, u32)>) -> (millis: Option<i64>)
    ensures
        millis == millis_at(reading),
{
    match reading {
        Some((seconds, nanos)) => {
            let within: u64 = (nanos / 1_000_000) as u64;
            if seconds <= (i64::MAX as u64 - within) / 1000 {
                Some((seconds * 1000 + within) as i64)
            } else {
                None
            }
        },
        None => None,
    }
}

} // verus!
