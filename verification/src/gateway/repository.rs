//! The gateway's calls to the storage engine: the requests it sends, what
//! it makes of the answers, and how often it tries.

use crate::umbral_socket::command::{token_of, Command, SendError};
use crate::umbral_socket::frame::Request;
use vstd::prelude::*;

verus! {

/// How many times a call to the storage engine is tried.
pub const ATTEMPTS: u32 = 3;

/// How long the caller sleeps after a failed try, in milliseconds.
pub const BACKOFF: u64 = 100;

/// What to do after a call to the storage engine failed.
#[derive(Clone, Copy, Debug, PartialEq, Eq, Structural)]
pub enum RetryStep {
    /// Sleep for the backoff, then try again.
    Again,
    /// Sleep for the backoff, then give up: the storage engine is
    /// unavailable, which the gateway does not survive.
    StorageUnavailable,
    /// The storage engine answered and refused the call. Trying again would
    /// change nothing: hand the error to the caller.
    Surface,
}

/// The count of the failed tries of one call.
#[derive(Clone, Copy, Debug, PartialEq, Eq, Structural)]
pub struct Repository {
    pub failures: u32,
}

/// What follows a failure with `error` that comes after `failures` counted
/// ones. Only a failure of the transport is counted and tried again.
pub open spec fn step_after(failures: u32, error: SendError) -> RetryStep {
    if error != SendError::Transport {
        RetryStep::Surface
    } else if failures + 1 < ATTEMPTS {
        RetryStep::Again
    } else {
        RetryStep::StorageUnavailable
    }
}

/// The count after a failure with `error` that comes after `failures`
/// counted ones.
pub open spec fn count_after(failures: u32, error: SendError) -> u32 {
    if error == SendError::Transport && failures < ATTEMPTS {
        (failures + 1) as u32
    } else {
        failures
    }
}

/// The payload that a summary call hands to its caller: what came back, or
/// nothing if the call failed.
pub open spec fn summary_of(answer: Result<Seq<u8>, SendError>) -> Seq<u8> {
    match answer {
        Ok(payload) => payload,
        Err(_) => Seq::empty(),
    }
}

impl Repository {
    /// A call that has not failed yet.
    pub fn new() -> (repository: Repository)
        ensures
            repository.failures == 0,
    {
        Repository { failures: 0 }
    }

    /// The request that saves `capture` in the default stream.
    pub fn insert_default(capture: Vec<u8>) -> (request: Request)
        ensures
            request.command@ == token_of(Command::Save),
            request.payload@ == capture@,
    {
        Request { command: Command::Save.token(), payload: capture }
    }

    /// The request that purges both streams. It has no payload.
    pub fn purge_payments() -> (request: Request)
        ensures
            request.command@ == token_of(Command::Purge),
            request.payload@ == Seq::<u8>::empty(),
    {
        Request { command: Command::Purge.token(), payload: Vec::new() }
    }

    /// The request for a summary; `query` is the range as the storage engine
    /// reads it.
    pub fn get_summary(query: Vec<u8>) -> (request: Request)
        ensures
            request.command@ == token_of(Command::Summary),
            request.payload@ == query@,
    {
        Request { command: Command::Summary.token(), payload: query }
    }

    /// What a summary call hands to its caller.
    pub fn summary_payload(answer: Result<Vec<u8>, SendError>) -> (payload: Vec<u8>)
        ensures
            payload@ == summary_of(
                match answer {
                    Ok(bytes) => Ok(bytes@),
                    Err(error) => Err(error),
                },
            ),
    {
        match answer {
            Ok(bytes) => bytes,
            Err(_) => Vec::new(),
        }
    }

    /// Takes note of a failed try and says what follows it. A failure of
    /// the transport is counted: up to the last try the call is tried
    /// again, and the last failure is final. Any other failure is handed on.
    pub fn failed(&mut self, error: SendError) -> (step: RetryStep)
        ensures
            step == step_after(old(self).failures, error),
            final(self).failures == count_after(old(self).failures, error),
    {
        match error {
            SendError::Transport => {
                if self.failures < ATTEMPTS {
                    self.failures += 1;
                }
                if self.failures < ATTEMPTS {
                    RetryStep::Again
                } else {
                    RetryStep::StorageUnavailable
                }
            },
            _ => RetryStep::Surface,
        }
    }
}

/// The count of a call whose transport failed `tries` times in a row.
pub open spec fn failures_after(tries: nat) -> u32
    decreases tries,
{
    if tries == 0 {
        0
    } else {
        count_after(failures_after((tries - 1) as nat), SendError::Transport)
    }
}

/// A call whose transport keeps failing is tried three times and no more:
/// the first two failures lead to another try and every later one is
/// final. The caller has by then slept three backoffs, 300 milliseconds.
pub proof fn lemma_three_tries(tries: nat)
    ensures
        failures_after(tries) <= ATTEMPTS,
        step_after(failures_after(tries), SendError::Transport) == if tries < 2 {
            RetryStep::Again
        } else {
            RetryStep::StorageUnavailable
        },
        ATTEMPTS * BACKOFF == 300,
    decreases tries,
{
    if tries > 0 {
        lemma_three_tries((tries - 1) as nat);
    }
    lemma_failures_saturate(tries);
}

proof fn lemma_failures_saturate(tries: nat)
    ensures
        failures_after(tries) == if tries < ATTEMPTS {
            tries as u32
        } else {
            ATTEMPTS
        },
    decreases tries,
{
    if tries > 0 {
        lemma_failures_saturate((tries - 1) as nat);
    }
}

} // verus!
