//! The entry point of new work.

use crate::gateway::service::Service;
use vstd::prelude::*;

verus! {

/// The status that acknowledges a submitted payment.
pub const ACCEPTED: u16 = 202;

/// Takes in a payment. It is queued as it came and acknowledged at once,
/// whatever the state of the authorizer.
pub fn payments(service: &mut Service, request: &[u8]) -> (status: u16)
    ensures
        status == ACCEPTED,
        final(service).pending() == old(service).pending().push(request@),
        final(service).health_state() == old(service).health_state(),
        final(service).trigger_ms() == old(service).trigger_ms(),
        final(service).worker_count() == old(service).worker_count(),
{
    let mut entry: Vec<u8> = Vec::new();
    entry.extend_from_slice(request);
    assert(entry@ =~= request@);
    service.submit(entry);
    ACCEPTED
}

} // verus!
