//! The adaptive dispatch engine.
//!
//! A `Service` owns the intake queue and the health flag. It decides; it does
//! not call the authorizer or the storage engine. The task that runs a
//! dispatcher or a worker asks the service for its next step, performs the
//! capture that the step names, and reports how it went.

use crate::clock::since_epoch;
use crate::gateway::time::{stamp, stamp_at};
use crate::seg_queue::{entries_new, entries_pop, entries_push, entry_items};
use crossbeam_queue::SegQueue;
use vstd::prelude::*;

verus! {

/// What the engine believes of the authorizer.
#[derive(Clone, Copy, Debug, PartialEq, Eq, Structural)]
pub enum HealthState {
    /// One attempt per tick, by the dispatcher alone.
    Probing,
    /// Every worker may attempt captures.
    Flooding,
}

/// Whether a worker sleeps or drains the queue.
#[derive(Clone, Copy, Debug, PartialEq, Eq, Structural)]
pub enum WorkerState {
    Waiting,
    Draining,
}

/// One flood worker.
#[derive(Clone, Copy, Debug, PartialEq, Eq, Structural)]
pub struct Worker {
    pub state: WorkerState,
}

/// How often the dispatcher probes.
#[derive(Clone, Copy, Debug, PartialEq, Eq, Structural)]
pub struct Dispatcher {
    /// The time between two ticks, in milliseconds.
    pub cadence: u64,
}

/// One attempt to capture a queued request.
#[derive(Debug, PartialEq, Eq)]
pub struct Attempt {
    /// The entry as it was submitted; it goes back to the queue on failure.
    pub entry: Vec<u8>,
    /// The entry with the time of this attempt: what the authorizer is sent
    /// and what is persisted on success.
    pub capture: Vec<u8>,
}

/// What a dispatcher or worker does next.
#[derive(Debug, PartialEq, Eq)]
pub enum Step {
    /// Nothing to attempt: wait for the next tick or wake signal.
    Wait,
    /// Send the capture to the authorizer and report the result.
    Attempt(Attempt),
    /// The entry holds no closing brace and cannot carry a time. It has left
    /// the queue for good.
    Rejected(Vec<u8>),
}

/// What follows a probe.
#[derive(Debug, PartialEq, Eq)]
pub struct ProbeOutcome {
    /// The capture to save in the storage engine, if the probe succeeded.
    pub persist: Option<Vec<u8>>,
    /// Whether to signal every worker to wake.
    pub wake_workers: bool,
}

/// What follows a worker's attempt.
#[derive(Debug, PartialEq, Eq)]
pub struct FloodOutcome {
    /// The capture to save in the storage engine, if the attempt succeeded.
    pub persist: Option<Vec<u8>>,
    /// Whether the worker goes on draining.
    pub keep_draining: bool,
}

/// The byte `}`.
pub const CLOSING_BRACE: u8 = 125;

/// The bytes `,"requestedAt":"`.
pub open spec fn field_open() -> Seq<u8> {
    seq![44u8, 34, 114, 101, 113, 117, 101, 115, 116, 101, 100, 65, 116, 34, 58, 34]
}

/// The bytes `"}`.
pub open spec fn field_close() -> Seq<u8> {
    seq![34u8, 125]
}

/// The index of the last closing brace of `request`, or -1 if it has none.
pub open spec fn last_brace(request: Seq<u8>) -> int
    decreases request.len(),
{
    if request.len() == 0 {
        -1
    } else if request.last() == CLOSING_BRACE {
        request.len() - 1
    } else {
        last_brace(request.drop_last())
    }
}

/// `request` up to its last closing brace, then the field `requestedAt` with
/// `stamp` as its text, then a closing brace.
pub open spec fn enriched(request: Seq<u8>, stamp: Seq<u8>) -> Seq<u8> {
    request.take(last_brace(request)) + field_open() + stamp + field_close()
}

/// Whether `step` is what taking the head of `before` gives when the time
/// reads `stamp`, and `after` is what the queue then holds.
pub open spec fn is_step(
    before: Seq<Seq<u8>>,
    after: Seq<Seq<u8>>,
    step: Step,
    stamp: Seq<u8>,
) -> bool {
    if before.len() == 0 {
        step is Wait && after == before
    } else if last_brace(before.first()) < 0 {
        &&& step matches Step::Rejected(entry)
        &&& entry@ == before.first()
        &&& after == before.drop_first()
    } else {
        &&& step matches Step::Attempt(attempt)
        &&& attempt.entry@ == before.first()
        &&& attempt.capture@ == enriched(before.first(), stamp)
        &&& after == before.drop_first()
    }
}

proof fn lemma_last_brace_bounds(request: Seq<u8>)
    ensures
        -1 <= last_brace(request) < request.len(),
        last_brace(request) >= 0 ==> request[last_brace(request)] == CLOSING_BRACE,
        forall|j: int| last_brace(request) < j < request.len() ==> request[j] != CLOSING_BRACE,
    decreases request.len(),
{
    if request.len() > 0 && request.last() != CLOSING_BRACE {
        let front = request.drop_last();
        lemma_last_brace_bounds(front);
        assert forall|j: int| last_brace(request) < j < request.len() implies request[j]
            != CLOSING_BRACE by {
            if j < front.len() {
                assert(front[j] == request[j]);
            }
        }
    }
}

proof fn lemma_last_brace_is(request: Seq<u8>, i: int)
    requires
        -1 <= i < request.len(),
        i >= 0 ==> request[i] == CLOSING_BRACE,
        forall|j: int| i < j < request.len() ==> request[j] != CLOSING_BRACE,
    ensures
        last_brace(request) == i,
{
    lemma_last_brace_bounds(request);
}

/// The position of the last closing brace of `request`.
pub fn find_last_brace(request: &[u8]) -> (position: Option<usize>)
    ensures
        position is None <==> last_brace(request@) < 0,
        position matches Some(i) ==> i == last_brace(request@) && i < request.len(),
{
    let mut i: usize = request.len();
    while i > 0
        invariant
            i <= request.len(),
            forall|j: int| i <= j < request.len() ==> request@[j] != CLOSING_BRACE,
        decreases i,
    {
        i -= 1;
        if request[i] == CLOSING_BRACE {
            proof {
                lemma_last_brace_is(request@, i as int);
            }
            return Some(i);
        }
    }
    proof {
        lemma_last_brace_is(request@, -1);
    }
    None
}

/// Adds the time of an attempt, `stamp`, to a submitted request. A request
/// without a closing brace cannot be enriched.
pub fn enrich_json_at(request: &[u8], stamp: &[u8]) -> (capture: Option<Vec<u8>>)
    ensures
        capture is None <==> last_brace(request@) < 0,
        capture matches Some(bytes) ==> bytes@ == enriched(request@, stamp@),
{
    match find_last_brace(request) {
        None => None,
        Some(position) => {
            let mut bytes: Vec<u8> = Vec::new();
            let mut i: usize = 0;
            while i < position
                invariant
                    i <= position < request.len(),
                    bytes@ == request@.take(i as int),
                decreases position - i,
            {
                bytes.push(request[i]);
                i += 1;
            }
            let open: [u8; 16] = [
                44,
                34,
                114,
                101,
                113,
                117,
                101,
                115,
                116,
                101,
                100,
                65,
                116,
                34,
                58,
                34,
            ];
            let close: [u8; 2] = [34, 125];
            bytes.extend_from_slice(open.as_slice());
            bytes.extend_from_slice(stamp);
            bytes.extend_from_slice(close.as_slice());
            assert(open@ =~= field_open());
            assert(close@ =~= field_close());
            assert(bytes@ =~= enriched(request@, stamp@));
            Some(bytes)
        },
    }
}

/// The capture of `request` for an attempt at the time that `stamp` spells.
/// There is none without a time, and none for a request without a closing
/// brace.
pub open spec fn capture_of(request: Seq<u8>, stamp: Option<Seq<u8>>) -> Option<Seq<u8>> {
    match stamp {
        Some(text) => if last_brace(request) >= 0 {
            Some(enriched(request, text))
        } else {
            None
        },
        None => None,
    }
}

/// The bytes of `capture`, if there is one.
pub open spec fn bytes_of(capture: Option<Vec<u8>>) -> Option<Seq<u8>> {
    match capture {
        Some(bytes) => Some(bytes@),
        None => None,
    }
}

/// Adds the time of an attempt, read from the clock, to a submitted request.
/// A request without a closing brace cannot be enriched, and nothing can
/// while the clock gives no time.
pub fn enrich_json(request: &[u8]) -> (capture: Option<Vec<u8>>)
    ensures
        exists|reading: Option<(u64, u32)>|
            bytes_of(capture) == capture_of(request@, #[trigger] stamp_at(reading)),
        last_brace(request@) < 0 ==> capture is None,
{
    let reading = since_epoch();
    match stamp(reading) {
        Some(text) => enrich_json_at(request, text.as_slice()),
        None => None,
    }
}

/// Whether `step` is what a tick gives when the time is what `stamp`
/// spells, and `after` is what the queue then holds. Without a time the
/// tick takes nothing and waits.
pub open spec fn is_tick(
    before: Seq<Seq<u8>>,
    after: Seq<Seq<u8>>,
    step: Step,
    stamp: Option<Seq<u8>>,
) -> bool {
    match stamp {
        Some(text) => is_step(before, after, step, text),
        None => step is Wait && after == before,
    }
}

/// Whether a worker in `state` takes an entry while the engine is in
/// `health`: only a draining worker of a flooding engine does.
pub open spec fn may_take(state: WorkerState, health: HealthState) -> bool {
    state == WorkerState::Draining && health == HealthState::Flooding
}

/// Whether `step` is what the turn of a worker in the state `worker` gives
/// while the engine is in `health` and the time reads `stamp`, `after` is
/// what the queue then holds, and `then` is the worker's state afterwards.
/// A worker that may not take an entry waits and leaves the queue alone. One
/// that may takes the head entry, and returns to waiting if there is none.
pub open spec fn is_turn(
    worker: WorkerState,
    health: HealthState,
    before: Seq<Seq<u8>>,
    after: Seq<Seq<u8>>,
    step: Step,
    stamp: Seq<u8>,
    then: WorkerState,
) -> bool {
    if may_take(worker, health) {
        &&& is_step(before, after, step, stamp)
        &&& then == if before.len() == 0 {
            WorkerState::Waiting
        } else {
            WorkerState::Draining
        }
    } else {
        &&& step is Wait
        &&& after == before
        &&& then == WorkerState::Waiting
    }
}

/// Whether `step` is what a worker's turn gives when the time is what
/// `stamp` spells. Without a time the worker takes nothing and returns to
/// waiting.
pub open spec fn is_turn_on(
    worker: WorkerState,
    health: HealthState,
    before: Seq<Seq<u8>>,
    after: Seq<Seq<u8>>,
    step: Step,
    stamp: Option<Seq<u8>>,
    then: WorkerState,
) -> bool {
    match stamp {
        Some(text) => is_turn(worker, health, before, after, step, text, then),
        None => step is Wait && after == before && then == WorkerState::Waiting,
    }
}

/// Whether an attempt that ended so makes its worker stop draining: a
/// failure does, and a success slower than `trigger`.
pub open spec fn backs_off(success: bool, elapsed: u128, trigger: u128) -> bool {
    !success || elapsed > trigger
}

impl Worker {
    /// A worker that waits for the wake signal.
    pub fn new() -> (worker: Worker)
        ensures
            worker.state == WorkerState::Waiting,
    {
        Worker { state: WorkerState::Waiting }
    }

    /// The wake signal: the worker starts draining.
    pub fn wake(&mut self)
        ensures
            final(self).state == WorkerState::Draining,
    {
        self.state = WorkerState::Draining;
    }
}

/// The wake signal to every worker.
pub fn wake_all(workers: &mut Vec<Worker>)
    ensures
        final(workers)@.len() == old(workers)@.len(),
        forall|i: int|
            0 <= i < final(workers)@.len() ==> (#[trigger] final(workers)@[i]).state
                == WorkerState::Draining,
{
    let mut i: usize = 0;
    while i < workers.len()
        invariant
            i <= workers.len(),
            workers@.len() == old(workers)@.len(),
            forall|j: int| 0 <= j < i ==> (#[trigger] workers@[j]).state == WorkerState::Draining,
        decreases workers.len() - i,
    {
        workers.set(i, Worker { state: WorkerState::Draining });
        i += 1;
    }
}

/// The intake queue and the health flag of the dispatch engine.
pub struct Service {
    queue: SegQueue<Vec<u8>>,
    health: HealthState,
    trigger: u128,
    workers: usize,
}

impl Service {
    /// The queued entries, oldest first.
    pub closed spec fn pending(&self) -> Seq<Seq<u8>> {
        entry_items(self.queue)
    }

    /// What the engine believes of the authorizer.
    pub closed spec fn health_state(&self) -> HealthState {
        self.health
    }

    /// The latency, in milliseconds, up to which a success counts as fast.
    pub closed spec fn trigger_ms(&self) -> u128 {
        self.trigger
    }

    /// The number of flood workers.
    pub closed spec fn worker_count(&self) -> usize {
        self.workers
    }

    /// An engine with an empty queue, in probing mode.
    pub fn new(trigger: u128, workers: usize) -> (service: Service)
        ensures
            service.pending() == Seq::<Seq<u8>>::empty(),
            service.health_state() == HealthState::Probing,
            service.trigger_ms() == trigger,
            service.worker_count() == workers,
    {
        Service { queue: entries_new(), health: HealthState::Probing, trigger, workers }
    }

    /// What the engine believes of the authorizer.
    pub fn health(&self) -> (health: HealthState)
        ensures
            health == self.health_state(),
    {
        self.health
    }

    /// The latency threshold in milliseconds.
    pub fn trigger(&self) -> (trigger: u128)
        ensures
            trigger == self.trigger_ms(),
    {
        self.trigger
    }

    /// The number of flood workers.
    pub fn workers(&self) -> (workers: usize)
        ensures
            workers == self.worker_count(),
    {
        self.workers
    }

    /// Accepts a request: it joins the queue at the tail. Nothing is checked.
    pub fn submit(&mut self, request: Vec<u8>)
        ensures
            final(self).pending() == old(self).pending().push(request@),
            final(self).health_state() == old(self).health_state(),
            final(self).trigger_ms() == old(self).trigger_ms(),
            final(self).worker_count() == old(self).worker_count(),
    {
        entries_push(&mut self.queue, request);
    }

    /// The dispatcher's state: one probe each second.
    pub fn initialize_dispatcher(&self) -> (dispatcher: Dispatcher)
        ensures
            dispatcher.cadence == 1000,
    {
        Dispatcher { cadence: 1000 }
    }

    /// The workers' states: as many as configured, all waiting.
    pub fn initialize_workers(&self) -> (workers: Vec<Worker>)
        ensures
            workers@.len() == self.worker_count(),
            forall|i: int|
                0 <= i < workers@.len() ==> (#[trigger] workers@[i]).state == WorkerState::Waiting,
    {
        let mut workers: Vec<Worker> = Vec::new();
        let mut i: usize = 0;
        while i < self.workers
            invariant
                i <= self.workers,
                workers@.len() == i,
                forall|j: int|
                    0 <= j < workers@.len() ==> (#[trigger] workers@[j]).state
                        == WorkerState::Waiting,
            decreases self.workers - i,
        {
            workers.push(Worker { state: WorkerState::Waiting });
            i += 1;
        }
        workers
    }

    /// Takes the head entry, if any, and enriches it with `stamp`.
    fn take_at(&mut self, stamp: &[u8]) -> (step: Step)
        ensures
            is_step(old(self).pending(), final(self).pending(), step, stamp@),
            final(self).health_state() == old(self).health_state(),
            final(self).trigger_ms() == old(self).trigger_ms(),
            final(self).worker_count() == old(self).worker_count(),
    {
        match entries_pop(&mut self.queue) {
            None => Step::Wait,
            Some(entry) => {
                match enrich_json_at(entry.as_slice(), stamp) {
                    None => Step::Rejected(entry),
                    Some(capture) => Step::Attempt(Attempt { entry, capture }),
                }
            },
        }
    }

    /// One tick of the dispatcher, the time of the attempt being `stamp`:
    /// with an empty queue it waits; otherwise it takes exactly one entry.
    pub fn dispatcher_tick_at(&mut self, stamp: &[u8]) -> (step: Step)
        ensures
            is_step(old(self).pending(), final(self).pending(), step, stamp@),
            final(self).health_state() == old(self).health_state(),
            final(self).trigger_ms() == old(self).trigger_ms(),
            final(self).worker_count() == old(self).worker_count(),
    {
        self.take_at(stamp)
    }

    /// One tick of the dispatcher, the time of the attempt read from the
    /// clock. While the clock gives no time, the tick takes nothing and
    /// waits.
    pub fn dispatcher_tick(&mut self) -> (step: Step)
        ensures
            exists|reading: Option<(u64, u32)>|
                is_tick(
                    old(self).pending(),
                    final(self).pending(),
                    step,
                    #[trigger] stamp_at(reading),
                ),
            final(self).health_state() == old(self).health_state(),
            final(self).trigger_ms() == old(self).trigger_ms(),
            final(self).worker_count() == old(self).worker_count(),
    {
        let reading = since_epoch();
        match stamp(reading) {
            Some(text) => self.take_at(text.as_slice()),
            None => Step::Wait,
        }
    }

    /// The result of a probe. A failure puts the entry back at the tail and
    /// changes nothing else. A success is persisted; if it took no longer
    /// than the trigger, the engine starts flooding and wakes the workers.
    pub fn dispatcher_result(&mut self, attempt: Attempt, success: bool, elapsed: u128) -> (outcome:
        ProbeOutcome)
        ensures
            success ==> final(self).pending() == old(self).pending(),
            success ==> outcome.persist is Some && outcome.persist->0@ == attempt.capture@,
            !success ==> final(self).pending() == old(self).pending().push(attempt.entry@),
            !success ==> outcome.persist is None,
            outcome.wake_workers == (success && elapsed <= old(self).trigger_ms()),
            final(self).health_state() == if success && elapsed <= old(self).trigger_ms() {
                HealthState::Flooding
            } else {
                old(self).health_state()
            },
            final(self).trigger_ms() == old(self).trigger_ms(),
            final(self).worker_count() == old(self).worker_count(),
    {
        if success {
            let fast = elapsed <= self.trigger;
            if fast {
                self.health = HealthState::Flooding;
            }
            ProbeOutcome { persist: Some(attempt.capture), wake_workers: fast }
        } else {
            entries_push(&mut self.queue, attempt.entry);
            ProbeOutcome { persist: None, wake_workers: false }
        }
    }

    /// A worker's next step, the time of the attempt being `stamp`. A waiting
    /// worker, and any worker while the engine probes, takes nothing and
    /// waits. A draining worker of a flooding engine takes one entry; with an
    /// empty queue it returns to waiting.
    pub fn worker_next_at(&mut self, worker: &mut Worker, stamp: &[u8]) -> (step: Step)
        ensures
            is_turn(
                old(worker).state,
                old(self).health_state(),
                old(self).pending(),
                final(self).pending(),
                step,
                stamp@,
                final(worker).state,
            ),
            final(self).health_state() == old(self).health_state(),
            final(self).trigger_ms() == old(self).trigger_ms(),
            final(self).worker_count() == old(self).worker_count(),
    {
        let draining = match worker.state {
            WorkerState::Draining => true,
            WorkerState::Waiting => false,
        };
        let flooding = match self.health {
            HealthState::Flooding => true,
            HealthState::Probing => false,
        };
        if draining && flooding {
            let step = self.take_at(stamp);
            match step {
                Step::Wait => {
                    worker.state = WorkerState::Waiting;
                },
                _ => {},
            }
            step
        } else {
            worker.state = WorkerState::Waiting;
            Step::Wait
        }
    }

    /// A worker's next step, the time of the attempt read from the clock.
    /// While the clock gives no time, the worker takes nothing and returns to
    /// waiting.
    pub fn worker_next(&mut self, worker: &mut Worker) -> (step: Step)
        ensures
            exists|reading: Option<(u64, u32)>|
                is_turn_on(
                    old(worker).state,
                    old(self).health_state(),
                    old(self).pending(),
                    final(self).pending(),
                    step,
                    #[trigger] stamp_at(reading),
                    final(worker).state,
                ),
            final(self).health_state() == old(self).health_state(),
            final(self).trigger_ms() == old(self).trigger_ms(),
            final(self).worker_count() == old(self).worker_count(),
    {
        let reading = since_epoch();
        match stamp(reading) {
            Some(text) => self.worker_next_at(worker, text.as_slice()),
            None => {
                worker.state = WorkerState::Waiting;
                Step::Wait
            },
        }
    }

    /// The result of a worker's attempt. A success is persisted; a failure
    /// puts the entry back at the tail. After a failure, or a success slower
    /// than the trigger, the engine probes again and this worker returns to
    /// waiting; other workers are not touched.
    pub fn worker_result(
        &mut self,
        worker: &mut Worker,
        attempt: Attempt,
        success: bool,
        elapsed: u128,
    ) -> (outcome: FloodOutcome)
        ensures
            success ==> final(self).pending() == old(self).pending(),
            success ==> outcome.persist is Some && outcome.persist->0@ == attempt.capture@,
            !success ==> final(self).pending() == old(self).pending().push(attempt.entry@),
            !success ==> outcome.persist is None,
            outcome.keep_draining == !backs_off(success, elapsed, old(self).trigger_ms()),
            final(self).health_state() == if backs_off(success, elapsed, old(self).trigger_ms()) {
                HealthState::Probing
            } else {
                old(self).health_state()
            },
            final(worker).state == if backs_off(success, elapsed, old(self).trigger_ms()) {
                WorkerState::Waiting
            } else {
                old(worker).state
            },
            final(self).trigger_ms() == old(self).trigger_ms(),
            final(self).worker_count() == old(self).worker_count(),
    {
        let stop = !success || elapsed > self.trigger;
        if stop {
            self.health = HealthState::Probing;
            worker.state = WorkerState::Waiting;
        }
        if success {
            FloodOutcome { persist: Some(attempt.capture), keep_draining: !stop }
        } else {
            entries_push(&mut self.queue, attempt.entry);
            FloodOutcome { persist: None, keep_draining: false }
        }
    }
}

} // verus!
