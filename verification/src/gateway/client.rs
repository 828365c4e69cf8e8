//! The outcome of one call to the authorizer.
//!
//! The call itself is made by whoever holds the connection; what comes back
//! is judged here.

use vstd::prelude::*;

verus! {

/// How a capture went: whether the authorizer accepted it, and how long the
/// call took in milliseconds, connection setup included.
#[derive(Clone, Copy, Debug, PartialEq, Eq, Structural)]
pub struct Capture {
    pub success: bool,
    pub elapsed: u128,
}

/// Whether a call that ended with `status` was accepted. `None` stands for a
/// call that ended without a response; only a status from 200 to 299 is an
/// acceptance.
pub open spec fn accepted(status: Option<u16>) -> bool {
    match status {
        Some(code) => 200 <= code < 300,
        None => false,
    }
}

/// Judges a call that ended with `status` after `elapsed` milliseconds.
pub fn capture_default(status: Option<u16>, elapsed: u128) -> (capture: Capture)
    ensures
        capture.success == accepted(status),
        capture.elapsed == elapsed,
{
    let success = match status {
        Some(code) => 200 <= code && code < 300,
        None => false,
    };
    Capture { success, elapsed }
}

} // verus!
