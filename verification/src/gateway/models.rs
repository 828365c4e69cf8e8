//! The values that the gateway exchanges with its callers, the authorizer
//! and the storage engine.
//!
//! Amounts count thousandths of the currency unit, times are milliseconds
//! since the Unix epoch, and a correlation id is the 128-bit number of its
//! UUID.

pub use crate::database::entity::{SummaryOrigin, SummaryQuery, SummaryResponse};

use crate::clock::since_epoch;
use crate::gateway::time::{millis, millis_at};
use vstd::prelude::*;

verus! {

/// A payment as it is submitted.
#[derive(Clone, Copy, Debug, PartialEq, Eq, Structural)]
pub struct PaymentRequest {
    pub correlation_id: u128,
    pub amount: i64,
}

/// A payment as the authorizer is sent it: the submitted payment with the
/// time of the attempt.
#[derive(Clone, Copy, Debug, PartialEq, Eq, Structural)]
pub struct PaymentProcessorRequest {
    pub correlation_id: u128,
    pub amount: i64,
    pub requested_at: i64,
}

/// What an authorizer says of its own health.
#[derive(Clone, Copy, Debug, PartialEq, Eq, Structural)]
pub struct ServiceHealthResponse {
    pub failing: bool,
    pub min_response_time: usize,
}

impl PaymentRequest {
    /// The capture of this payment for an attempt at `requested_at`.
    pub fn to_processor_at(&self, requested_at: i64) -> (capture: PaymentProcessorRequest)
        ensures
            capture == (PaymentProcessorRequest {
                correlation_id: self.correlation_id,
                amount: self.amount,
                requested_at,
            }),
    {
        PaymentProcessorRequest {
            correlation_id: self.correlation_id,
            amount: self.amount,
            requested_at,
        }
    }

    /// The capture of this payment for an attempt now. Each call reads the
    /// clock, so a second attempt carries a time of its own. There is no
    /// capture while the clock gives no time.
    pub fn to_processor(&self) -> (capture: Option<PaymentProcessorRequest>)
        ensures
            exists|reading: Option<(u64, u32)>|
                capture == capture_at(*self, #[trigger] millis_at(reading)),
    {
        let reading = since_epoch();
        match millis(reading) {
            Some(requested_at) => Some(self.to_processor_at(requested_at)),
            None => None,
        }
    }
}

/// The capture of `payment` for an attempt at `requested_at`, if there is a
/// time.
pub open spec fn capture_at(payment: PaymentRequest, requested_at: Option<i64>) -> Option<
    PaymentProcessorRequest,
> {
    match requested_at {
        Some(at) => Some(
            PaymentProcessorRequest {
                correlation_id: payment.correlation_id,
                amount: payment.amount,
                requested_at: at,
            },
        ),
        None => None,
    }
}

} // verus!
