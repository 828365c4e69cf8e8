//! The records of the storage engine and the streams that hold them.
//!
//! Amounts are exact decimals in fixed point. A stored amount counts
//! thousandths of the currency unit; a summary's total counts hundredths.
//! Times are milliseconds since the Unix epoch, UTC.

use crate::seg_queue::{record_items, records_new, records_pop, records_push};
use crossbeam_queue::SegQueue;
use vstd::prelude::*;

verus! {

/// One captured payment as the storage engine keeps it.
#[derive(Clone, Copy, Debug, PartialEq, Eq, Structural)]
pub struct PaymentRequest {
    /// The amount, in thousandths of the currency unit.
    pub amount: i64,
    /// When the capture was attempted, in milliseconds since the epoch.
    pub requested_at: i64,
}

/// The totals of one stream over the queried range.
#[derive(Clone, Copy, Debug, PartialEq, Eq, Structural)]
pub struct SummaryOrigin {
    /// How many records fall into the range.
    pub total_requests: usize,
    /// The sum of their amounts, in hundredths of the currency unit.
    pub total_amount: i128,
}

/// The answer to a summary query: one window for each stream.
#[derive(Clone, Copy, Debug, PartialEq, Eq, Structural)]
pub struct SummaryResponse {
    pub default: SummaryOrigin,
    pub fallback: SummaryOrigin,
}

/// An optional time range, both ends inclusive.
#[derive(Clone, Copy, Debug, PartialEq, Eq, Structural)]
pub struct SummaryQuery {
    pub from: Option<i64>,
    pub to: Option<i64>,
}

/// Which authorizer tier processed a record, and so which stream holds it.
#[derive(Clone, Copy, Debug, PartialEq, Eq, Structural)]
pub enum Origin {
    Default,
    Fallback,
}

/// The record that a queue item stands for.
pub open spec fn record_of(item: (i64, i64)) -> PaymentRequest {
    PaymentRequest { amount: item.0, requested_at: item.1 }
}

/// A stream of records in arrival order, oldest first.
pub struct Stream {
    queue: SegQueue<(i64, i64)>,
}

impl View for Stream {
    type V = Seq<PaymentRequest>;

    closed spec fn view(&self) -> Seq<PaymentRequest> {
        record_items(self.queue).map_values(|item: (i64, i64)| record_of(item))
    }
}

impl Stream {
    /// An empty stream.
    pub fn new() -> (stream: Stream)
        ensures
            stream@ == Seq::<PaymentRequest>::empty(),
    {
        Stream { queue: records_new() }
    }

    /// Appends `record` at the tail.
    pub fn push(&mut self, record: PaymentRequest)
        ensures
            final(self)@ == old(self)@.push(record),
    {
        records_push(&mut self.queue, (record.amount, record.requested_at));
    }

    /// Removes the oldest record, if there is one.
    pub fn pop(&mut self) -> (record: Option<PaymentRequest>)
        ensures
            old(self)@.len() == 0 ==> record is None && final(self)@ == old(self)@,
            old(self)@.len() > 0 ==> record == Some(old(self)@.first()),
            old(self)@.len() > 0 ==> final(self)@ == old(self)@.drop_first(),
    {
        match records_pop(&mut self.queue) {
            Some(item) => Some(PaymentRequest { amount: item.0, requested_at: item.1 }),
            None => None,
        }
    }

    /// Takes every record out of the stream, oldest first.
    pub fn drain(&mut self) -> (records: Vec<PaymentRequest>)
        ensures
            records@ == old(self)@,
            final(self)@ == Seq::<PaymentRequest>::empty(),
    {
        let mut records: Vec<PaymentRequest> = Vec::new();
        loop
            invariant
                records@ + self@ == old(self)@,
            ensures
                self@ == Seq::<PaymentRequest>::empty(),
                records@ == old(self)@,
            decreases self@.len(),
        {
            match self.pop() {
                Some(record) => {
                    records.push(record);
                },
                None => {
                    break ;
                },
            }
        }
        records
    }

    /// Puts `records` back at the tail, in their order.
    pub fn restore(&mut self, records: Vec<PaymentRequest>)
        ensures
            final(self)@ == old(self)@ + records@,
    {
        let mut i: usize = 0;
        while i < records.len()
            invariant
                i <= records.len(),
                self@ == old(self)@ + records@.take(i as int),
            decreases records.len() - i,
        {
            self.push(records[i]);
            i += 1;
        }
    }
}

/// The two record streams of the storage engine.
pub struct State {
    pub default: Stream,
    pub fallback: Stream,
}

impl State {
    /// A state with both streams empty.
    pub fn new() -> (state: State)
        ensures
            state.default@ == Seq::<PaymentRequest>::empty(),
            state.fallback@ == Seq::<PaymentRequest>::empty(),
    {
        State { default: Stream::new(), fallback: Stream::new() }
    }
}

impl Default for State {
    fn default() -> (state: State)
        ensures
            state.default@ == Seq::<PaymentRequest>::empty(),
            state.fallback@ == Seq::<PaymentRequest>::empty(),
    {
        State::new()
    }
}

} // verus!
