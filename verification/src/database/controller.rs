//! The handlers of the storage commands: save, purge and the time-ranged
//! summary.

use crate::database::entity::{
    Origin, PaymentRequest, State, SummaryOrigin, SummaryQuery, SummaryResponse,
};
use vstd::prelude::*;

verus! {

/// Whether `record` counts for `query`. A range applies only when both ends
/// are given; both ends are inclusive.
pub open spec fn in_range(record: PaymentRequest, query: SummaryQuery) -> bool {
    match (query.from, query.to) {
        (Some(from), Some(to)) => from <= record.requested_at <= to,
        _ => true,
    }
}

/// The records of `records` that count for `query`, in their order.
pub open spec fn selected(records: Seq<PaymentRequest>, query: SummaryQuery) -> Seq<
    PaymentRequest,
> {
    records.filter(|record: PaymentRequest| in_range(record, query))
}

/// The exact sum of the amounts of `records`, in thousandths.
pub open spec fn total_thousandths(records: Seq<PaymentRequest>) -> int
    decreases records.len(),
{
    if records.len() == 0 {
        0
    } else {
        total_thousandths(records.drop_last()) + records.last().amount
    }
}

/// `thousandths` in hundredths, rounded to the nearest; a tie goes to the
/// even neighbour.
pub open spec fn round_half_even(thousandths: int) -> int {
    let floor = thousandths / 10;
    let rest = thousandths % 10;
    if rest < 5 {
        floor
    } else if rest > 5 {
        floor + 1
    } else if floor % 2 == 0 {
        floor
    } else {
        floor + 1
    }
}

/// How many records of `records` count for `query`.
pub open spec fn requests_in(records: Seq<PaymentRequest>, query: SummaryQuery) -> nat {
    selected(records, query).len()
}

/// The total of the records that count for `query`, in hundredths. The sum
/// is exact and rounded once.
pub open spec fn amount_in(records: Seq<PaymentRequest>, query: SummaryQuery) -> int {
    round_half_even(total_thousandths(selected(records, query)))
}

/// Whether `window` is the summary of `records` for `query`.
pub open spec fn is_window(
    window: SummaryOrigin,
    records: Seq<PaymentRequest>,
    query: SummaryQuery,
) -> bool {
    &&& window.total_requests == requests_in(records, query)
    &&& window.total_amount == amount_in(records, query)
}

/// What a purge leaves of a stream.
pub open spec fn purged(records: Seq<PaymentRequest>) -> Seq<PaymentRequest> {
    Seq::empty()
}

/// The stream of `state` that holds the records of `origin`.
pub open spec fn stream_of(state: State, origin: Origin) -> Seq<PaymentRequest> {
    match origin {
        Origin::Default => state.default@,
        Origin::Fallback => state.fallback@,
    }
}

proof fn lemma_total_push(records: Seq<PaymentRequest>, record: PaymentRequest)
    ensures
        total_thousandths(records.push(record)) == total_thousandths(records) + record.amount,
{
    assert(records.push(record).drop_last() =~= records);
}

proof fn lemma_selected_push(
    records: Seq<PaymentRequest>,
    record: PaymentRequest,
    query: SummaryQuery,
)
    ensures
        selected(records.push(record), query) == if in_range(record, query) {
            selected(records, query).push(record)
        } else {
            selected(records, query)
        },
{
    records.lemma_filter_push(record, |r: PaymentRequest| in_range(r, query));
}

proof fn lemma_total_concat(front: Seq<PaymentRequest>, back: Seq<PaymentRequest>)
    ensures
        total_thousandths(front + back) == total_thousandths(front) + total_thousandths(back),
    decreases back.len(),
{
    if back.len() == 0 {
        assert(front + back =~= front);
    } else {
        lemma_total_concat(front, back.drop_last());
        assert((front + back).drop_last() =~= front + back.drop_last());
    }
}

/// Rounds an exact sum in thousandths to hundredths, a tie going to the even
/// neighbour.
pub fn round_to_hundredths(thousandths: i128) -> (hundredths: i128)
    ensures
        hundredths == round_half_even(thousandths as int),
{
    if thousandths >= 0 {
        let floor: i128 = thousandths / 10;
        let rest: i128 = thousandths % 10;
        if rest < 5 {
            floor
        } else if rest > 5 {
            floor + 1
        } else if floor % 2 == 0 {
            floor
        } else {
            floor + 1
        }
    } else {
        // -(thousandths) may not fit; count down from -1 instead.
        let below: i128 = -(thousandths + 1);
        let quotient: i128 = below / 10;
        let remainder: i128 = below % 10;
        let floor: i128 = -quotient - 1;
        let rest: i128 = 9 - remainder;
        assert(thousandths == 10 * floor + rest);
        if rest < 5 {
            floor
        } else if rest > 5 {
            floor + 1
        } else if quotient % 2 == 1 {
            floor
        } else {
            floor + 1
        }
    }
}

/// The summary of `records` for `query`: the count of the records in range
/// and their total, rounded once.
pub fn summarize(records: &Vec<PaymentRequest>, query: &SummaryQuery) -> (window: SummaryOrigin)
    ensures
        is_window(window, records@, *query),
{
    let mut count: usize = 0;
    let mut sum: i128 = 0;
    let mut i: usize = 0;
    while i < records.len()
        invariant
            i <= records.len(),
            count <= i,
            count == requests_in(records@.take(i as int), *query),
            sum == total_thousandths(selected(records@.take(i as int), *query)),
            -(count as int) * 0x8000_0000_0000_0000 <= sum <= (count as int)
                * 0x7fff_ffff_ffff_ffff,
        decreases records.len() - i,
    {
        let record = records[i];
        proof {
            let seen = records@.take(i as int);
            assert(records@.take(i + 1) =~= seen.push(record));
            lemma_selected_push(seen, record, *query);
            lemma_total_push(selected(seen, *query), record);
        }
        let counts = match (query.from, query.to) {
            (Some(from), Some(to)) => from <= record.requested_at && record.requested_at <= to,
            _ => true,
        };
        if counts {
            count += 1;
            sum += record.amount as i128;
        }
        i += 1;
    }
    assert(records@.take(records.len() as int) =~= records@);
    SummaryOrigin { total_requests: count, total_amount: round_to_hundredths(sum) }
}

/// SAVE: appends `request` to the stream of `origin`. It always succeeds.
pub fn save(state: &mut State, origin: Origin, request: PaymentRequest)
    ensures
        stream_of(*final(state), origin) == stream_of(*old(state), origin).push(request),
        origin == Origin::Default ==> final(state).fallback@ == old(state).fallback@,
        origin == Origin::Fallback ==> final(state).default@ == old(state).default@,
{
    match origin {
        Origin::Default => state.default.push(request),
        Origin::Fallback => state.fallback.push(request),
    }
}

/// PURGE: removes every record from both streams.
pub fn purge(state: &mut State)
    ensures
        final(state).default@ == purged(old(state).default@),
        final(state).fallback@ == purged(old(state).fallback@),
{
    loop
        ensures
            state.default@.len() == 0,
        decreases state.default@.len(),
    {
        if state.default.pop().is_none() {
            break ;
        }
    }
    loop
        invariant
            state.default@.len() == 0,
        ensures
            state.default@.len() == 0,
            state.fallback@.len() == 0,
        decreases state.fallback@.len(),
    {
        if state.fallback.pop().is_none() {
            break ;
        }
    }
    assert(state.default@ =~= Seq::empty());
    assert(state.fallback@ =~= Seq::empty());
}

/// SUMMARY: drains each stream, summarizes what was drained and puts it back.
/// Both streams hold afterwards what they held before, in the same order.
pub fn summary(state: &mut State, query: &SummaryQuery) -> (response: SummaryResponse)
    ensures
        is_window(response.default, old(state).default@, *query),
        is_window(response.fallback, old(state).fallback@, *query),
        final(state).default@ == old(state).default@,
        final(state).fallback@ == old(state).fallback@,
{
    let default_items = state.default.drain();
    let fallback_items = state.fallback.drain();
    let default_summary = summarize(&default_items, query);
    let fallback_summary = summarize(&fallback_items, query);
    state.default.restore(default_items);
    state.fallback.restore(fallback_items);
    SummaryResponse { default: default_summary, fallback: fallback_summary }
}

/// A purge empties a stream whatever it held, so a second purge changes
/// nothing, and the summary of a purged stream is zero requests and a zero
/// amount for every query.
pub proof fn lemma_purge_is_idempotent(records: Seq<PaymentRequest>, query: SummaryQuery)
    ensures
        purged(records).len() == 0,
        purged(purged(records)) == purged(records),
        requests_in(purged(records), query) == 0,
        amount_in(purged(records), query) == 0,
{
    assert(selected(Seq::<PaymentRequest>::empty(), query) =~= Seq::<PaymentRequest>::empty());
}

/// A record saved to a stream is counted by every later summary whose range
/// holds it: the count grows by one and the exact sum by its amount.
pub proof fn lemma_saved_record_is_counted(
    records: Seq<PaymentRequest>,
    record: PaymentRequest,
    query: SummaryQuery,
)
    requires
        in_range(record, query),
    ensures
        requests_in(records.push(record), query) == requests_in(records, query) + 1,
        total_thousandths(selected(records.push(record), query)) == total_thousandths(
            selected(records, query),
        ) + record.amount,
{
    lemma_selected_push(records, record, query);
    lemma_total_push(selected(records, query), record);
}

/// A record that reaches a stream after a summary drained it and before the
/// summary put the drained records back is not lost: the stream then holds
/// it together with every drained record, and a later summary counts it.
pub proof fn lemma_save_between_drain_and_restore_is_kept(
    drained: Seq<PaymentRequest>,
    record: PaymentRequest,
    query: SummaryQuery,
)
    ensures
        (seq![record] + drained).contains(record),
        forall|i: int|
            0 <= i < drained.len() ==> (seq![record] + drained).contains(#[trigger] drained[i]),
        (seq![record] + drained).len() == drained.len() + 1,
        in_range(record, query) ==> requests_in(seq![record] + drained, query) == requests_in(
            drained,
            query,
        ) + 1,
        in_range(record, query) ==> total_thousandths(selected(seq![record] + drained, query))
            == total_thousandths(selected(drained, query)) + record.amount,
        !in_range(record, query) ==> selected(seq![record] + drained, query) == selected(
            drained,
            query,
        ),
{
    let arrived = seq![record];
    let stream = arrived + drained;
    let counts = |r: PaymentRequest| in_range(r, query);
    assert(stream[0] == record);
    assert forall|i: int| 0 <= i < drained.len() implies stream.contains(
        #[trigger] drained[i],
    ) by {
        assert(stream[i + 1] == drained[i]);
    }
    Seq::filter_distributes_over_add(arrived, drained, counts);
    assert(arrived =~= Seq::<PaymentRequest>::empty().push(record));
    lemma_selected_push(Seq::<PaymentRequest>::empty(), record, query);
    assert(selected(Seq::<PaymentRequest>::empty(), query) =~= Seq::<PaymentRequest>::empty());
    lemma_total_concat(selected(arrived, query), selected(drained, query));
    if in_range(record, query) {
        lemma_total_push(Seq::<PaymentRequest>::empty(), record);
    } else {
        assert(selected(arrived, query) + selected(drained, query) =~= selected(drained, query));
    }
}

} // verus!
