//! The books of the intake queue: where every submitted request is, in
//! whatever order the dispatcher and the workers act.
//!
//! Nothing here runs. The ledger is the model against which the engine's
//! steps are stated, and the laws below are proved of it.

use crate::gateway::service::{enriched, is_step, last_brace, Step};
use vstd::multiset::Multiset;
use vstd::prelude::*;

verus! {

/// What happens to the intake queue. The dispatcher and the workers act in
/// any order, so between the taking of an entry and the report on its
/// capture other events may lie.
pub enum Event {
    /// A request is submitted.
    Submit(Seq<u8>),
    /// The dispatcher or a worker takes the head of the queue.
    Take,
    /// The capture of an entry that was taken has ended.
    Report { entry: Seq<u8>, success: bool },
}

/// Where the submitted entries are: waiting in the queue, taken for a
/// capture that has not ended yet, persisted, or rejected.
pub struct Ledger {
    pub queued: Seq<Seq<u8>>,
    pub in_flight: Multiset<Seq<u8>>,
    pub persisted: Multiset<Seq<u8>>,
    pub rejected: Multiset<Seq<u8>>,
    pub submitted: Multiset<Seq<u8>>,
}

/// The ledger before anything was submitted.
pub open spec fn empty_ledger() -> Ledger {
    Ledger {
        queued: Seq::empty(),
        in_flight: Multiset::empty(),
        persisted: Multiset::empty(),
        rejected: Multiset::empty(),
        submitted: Multiset::empty(),
    }
}

/// The ledger after `event`. A submitted entry joins the tail. Taking
/// removes the head: an entry without a closing brace is rejected, any
/// other is in flight. A report ends one flight of its entry: after a
/// success the entry is persisted, after a failure it is back at the tail.
/// Taking from an empty queue and a report on an entry that is not in
/// flight change nothing.
pub open spec fn after_event(ledger: Ledger, event: Event) -> Ledger {
    match event {
        Event::Submit(entry) => Ledger {
            queued: ledger.queued.push(entry),
            submitted: ledger.submitted.insert(entry),
            ..ledger
        },
        Event::Take => if ledger.queued.len() == 0 {
            ledger
        } else if last_brace(ledger.queued.first()) < 0 {
            Ledger {
                queued: ledger.queued.drop_first(),
                rejected: ledger.rejected.insert(ledger.queued.first()),
                ..ledger
            }
        } else {
            Ledger {
                queued: ledger.queued.drop_first(),
                in_flight: ledger.in_flight.insert(ledger.queued.first()),
                ..ledger
            }
        },
        Event::Report { entry, success } => if ledger.in_flight.count(entry) == 0 {
            ledger
        } else if success {
            Ledger {
                in_flight: ledger.in_flight.remove(entry),
                persisted: ledger.persisted.insert(entry),
                ..ledger
            }
        } else {
            Ledger {
                queued: ledger.queued.push(entry),
                in_flight: ledger.in_flight.remove(entry),
                ..ledger
            }
        },
    }
}

/// The ledger after `events`, in their order.
pub open spec fn after_events(events: Seq<Event>) -> Ledger
    decreases events.len(),
{
    if events.len() == 0 {
        empty_ledger()
    } else {
        after_event(after_events(events.drop_last()), events.last())
    }
}

/// The ledger after one probe of the dispatcher: the head of the queue is
/// taken and, unless it was rejected, the end of its capture is reported.
pub open spec fn after_probe(ledger: Ledger, success: bool) -> Ledger {
    let taken = after_event(ledger, Event::Take);
    if ledger.queued.len() > 0 && last_brace(ledger.queued.first()) >= 0 {
        after_event(taken, Event::Report { entry: ledger.queued.first(), success })
    } else {
        taken
    }
}

/// Whether `entry`, which waits at `index` of the queue, is persisted by
/// one of the next `probes` probes, given that its own attempts fail
/// `failures` times and then succeed, and however the attempts on the
/// entries before it end.
pub open spec fn is_delivered_within(
    ledger: Ledger,
    entry: Seq<u8>,
    index: int,
    failures: nat,
    probes: nat,
) -> bool
    decreases probes,
{
    if probes == 0 || index < 0 || index >= ledger.queued.len() || ledger.queued[index] != entry {
        false
    } else if index > 0 {
        &&& is_delivered_within(
            after_probe(ledger, true),
            entry,
            index - 1,
            failures,
            (probes - 1) as nat,
        )
        &&& is_delivered_within(
            after_probe(ledger, false),
            entry,
            index - 1,
            failures,
            (probes - 1) as nat,
        )
    } else if failures > 0 {
        is_delivered_within(
            after_probe(ledger, false),
            entry,
            ledger.queued.len() - 1,
            (failures - 1) as nat,
            (probes - 1) as nat,
        )
    } else {
        after_probe(ledger, true).persisted.count(entry) == ledger.persisted.count(entry) + 1
    }
}

/// The submission of `entry` followed by `failures` attempts on it that
/// fail.
pub open spec fn failed_attempts(entry: Seq<u8>, failures: nat) -> Seq<Event>
    decreases failures,
{
    if failures == 0 {
        seq![Event::Submit(entry)]
    } else {
        failed_attempts(entry, (failures - 1) as nat).push(Event::Take).push(
            Event::Report { entry, success: false },
        )
    }
}

proof fn lemma_head_and_tail(entries: Seq<Seq<u8>>)
    requires
        entries.len() > 0,
    ensures
        entries.to_multiset() == entries.drop_first().to_multiset().insert(entries.first()),
{
    assert(entries.remove(0) =~= entries.drop_first());
    vstd::seq_lib::to_multiset_remove(entries, 0);
    entries.to_multiset_ensures();
    assert(entries.to_multiset().count(entries.first()) > 0);
    assert(entries.to_multiset() =~= entries.to_multiset().remove(entries.first()).insert(
        entries.first(),
    ));
}

/// The ledger follows the engine. Where the ledger's queue is the engine's,
/// the step that a tick or a worker's turn takes is the `Take` of the
/// ledger: both leave the same queue, a rejected entry is booked as
/// rejected and an entry to attempt as in flight. Where the attempt is then
/// reported, the engine and the `Report` of the ledger leave the same queue
/// again, and the engine hands over a capture for persisting exactly when
/// the ledger books the entry as persisted.
pub proof fn lemma_ledger_follows_the_engine(
    ledger: Ledger,
    taken: Seq<Seq<u8>>,
    step: Step,
    stamp: Seq<u8>,
    success: bool,
)
    requires
        is_step(ledger.queued, taken, step, stamp),
    ensures
        after_event(ledger, Event::Take).queued == taken,
        step is Wait ==> after_event(ledger, Event::Take) == ledger,
        step matches Step::Rejected(entry) ==> after_event(ledger, Event::Take).rejected
            == ledger.rejected.insert(entry@),
        step matches Step::Attempt(attempt) ==> {
            let flying = after_event(ledger, Event::Take);
            let landed = after_event(flying, Event::Report { entry: attempt.entry@, success });
            &&& flying.in_flight == ledger.in_flight.insert(attempt.entry@)
            &&& attempt.capture@ == enriched(attempt.entry@, stamp)
            &&& landed.in_flight == ledger.in_flight
            &&& success ==> landed.queued == taken && landed.persisted == ledger.persisted.insert(
                attempt.entry@,
            )
            &&& !success ==> landed.queued == taken.push(attempt.entry@) && landed.persisted
                == ledger.persisted
        },
{
    match step {
        Step::Attempt(attempt) => {
            let entry = attempt.entry@;
            assert(ledger.in_flight.insert(entry).remove(entry) =~= ledger.in_flight);
        },
        _ => {},
    }
}

/// In whatever order requests are submitted, taken and reported on, every
/// submitted request is in exactly one place: in the queue, in flight,
/// persisted or rejected. No failure loses a request, and none is persisted
/// more often than it was submitted.
pub proof fn lemma_entries_are_conserved(events: Seq<Event>)
    ensures
        ({
            let ledger = after_events(events);
            ledger.queued.to_multiset().add(ledger.in_flight).add(ledger.persisted).add(
                ledger.rejected,
            ) == ledger.submitted
        }),
    decreases events.len(),
{
    let empty = Seq::<Seq<u8>>::empty();
    empty.to_multiset_ensures();
    if events.len() == 0 {
        let ledger = empty_ledger();
        assert(ledger.queued.to_multiset().add(ledger.in_flight).add(ledger.persisted).add(
            ledger.rejected,
        ) =~= ledger.submitted);
    } else {
        lemma_entries_are_conserved(events.drop_last());
        let before = after_events(events.drop_last());
        let after = after_event(before, events.last());
        let held = before.queued.to_multiset().add(before.in_flight).add(before.persisted).add(
            before.rejected,
        );
        let holds = after.queued.to_multiset().add(after.in_flight).add(after.persisted).add(
            after.rejected,
        );
        match events.last() {
            Event::Submit(entry) => {
                vstd::seq_lib::to_multiset_build(before.queued, entry);
                assert(holds =~= held.insert(entry));
            },
            Event::Take => {
                if before.queued.len() > 0 {
                    lemma_head_and_tail(before.queued);
                    assert(holds =~= held);
                }
            },
            Event::Report { entry, success } => {
                if before.in_flight.count(entry) > 0 {
                    vstd::seq_lib::to_multiset_build(before.queued, entry);
                    assert(holds =~= held);
                }
            },
        }
    }
}

/// Every queued request that can be captured is persisted after finitely
/// many probes, whatever else is in the queue: if the authorizer fails its
/// first `failures` attempts and accepts the next, then, however the
/// attempts on the other entries end, it is persisted within `failures`
/// rounds of the queue and the probes that bring it to the head. This holds
/// for every number of failures: no attempt is the last, and a failed entry
/// goes nowhere but back to the tail.
pub proof fn lemma_every_request_is_delivered(
    ledger: Ledger,
    index: int,
    failures: nat,
    probes: nat,
)
    requires
        0 <= index < ledger.queued.len(),
        last_brace(ledger.queued[index]) >= 0,
        probes >= failures * ledger.queued.len() + index + 1,
    ensures
        is_delivered_within(ledger, ledger.queued[index], index, failures, probes),
    decreases probes,
{
    let entry = ledger.queued[index];
    let length = ledger.queued.len();
    let head = ledger.queued.first();
    if index > 0 {
        let kept = after_probe(ledger, true);
        let requeued = after_probe(ledger, false);
        assert(ledger.queued.drop_first()[index - 1] == entry);
        assert(kept.queued == ledger.queued.drop_first());
        assert(requeued.queued == ledger.queued.drop_first() || requeued.queued
            == ledger.queued.drop_first().push(head));
        assert(kept.queued[index - 1] == entry);
        assert(requeued.queued[index - 1] == entry);
        assert(failures * kept.queued.len() <= failures * length) by (nonlinear_arith)
            requires
                kept.queued.len() <= length,
        ;
        assert(failures * requeued.queued.len() <= failures * length) by (nonlinear_arith)
            requires
                requeued.queued.len() <= length,
        ;
        lemma_every_request_is_delivered(kept, index - 1, failures, (probes - 1) as nat);
        lemma_every_request_is_delivered(requeued, index - 1, failures, (probes - 1) as nat);
    } else if failures > 0 {
        let requeued = after_probe(ledger, false);
        assert(requeued.queued == ledger.queued.drop_first().push(entry));
        assert(requeued.queued[length - 1] == entry);
        assert((failures - 1) * length + length == failures * length) by (nonlinear_arith);
        lemma_every_request_is_delivered(
            requeued,
            length - 1,
            (failures - 1) as nat,
            (probes - 1) as nat,
        );
    } else {
        let taken = after_event(ledger, Event::Take);
        assert(taken.in_flight.count(entry) > 0);
    }
}

/// A lone request that can be captured is persisted once, however many
/// attempts fail before the one that succeeds: nothing is then left in the
/// queue or in flight, and the request is the one persisted entry.
pub proof fn lemma_lone_entry_is_persisted_once(entry: Seq<u8>, failures: nat)
    requires
        last_brace(entry) >= 0,
    ensures
        after_events(
            failed_attempts(entry, failures).push(Event::Take).push(
                Event::Report { entry, success: true },
            ),
        ) == (Ledger {
            queued: Seq::empty(),
            in_flight: Multiset::empty(),
            persisted: Multiset::singleton(entry),
            rejected: Multiset::empty(),
            submitted: Multiset::singleton(entry),
        }),
{
    let waiting = failed_attempts(entry, failures);
    let taken = waiting.push(Event::Take);
    let reported = taken.push(Event::Report { entry, success: true });
    lemma_lone_entry_waits(entry, failures);
    assert(reported.drop_last() =~= taken);
    assert(taken.drop_last() =~= waiting);
    let flying = after_events(taken);
    assert(seq![entry].first() == entry);
    assert(flying.queued =~= Seq::<Seq<u8>>::empty());
    assert(flying.in_flight =~= Multiset::singleton(entry));
    let landed = after_events(reported);
    assert(landed.in_flight =~= Multiset::empty());
    assert(landed.persisted =~= Multiset::singleton(entry));
}

proof fn lemma_lone_entry_waits(entry: Seq<u8>, failures: nat)
    requires
        last_brace(entry) >= 0,
    ensures
        after_events(failed_attempts(entry, failures)) == (Ledger {
            queued: seq![entry],
            in_flight: Multiset::empty(),
            persisted: Multiset::empty(),
            rejected: Multiset::empty(),
            submitted: Multiset::singleton(entry),
        }),
    decreases failures,
{
    let events = failed_attempts(entry, failures);
    if failures == 0 {
        assert(events.drop_last() =~= Seq::<Event>::empty());
        assert(after_events(Seq::<Event>::empty()) == empty_ledger());
        assert(events.last() == Event::Submit(entry));
        let ledger = after_events(events);
        assert(ledger.queued =~= seq![entry]);
        assert(ledger.submitted =~= Multiset::singleton(entry));
    } else {
        let waiting = failed_attempts(entry, (failures - 1) as nat);
        let taken = waiting.push(Event::Take);
        lemma_lone_entry_waits(entry, (failures - 1) as nat);
        assert(events.drop_last() =~= taken);
        assert(taken.drop_last() =~= waiting);
        let flying = after_events(taken);
        assert(seq![entry].first() == entry);
        assert(flying.queued =~= Seq::<Seq<u8>>::empty());
        assert(flying.in_flight =~= Multiset::singleton(entry));
        let landed = after_events(events);
        assert(landed.in_flight =~= Multiset::empty());
        assert(landed.queued =~= seq![entry]);
    }
}

} // verus!
