//! The boundary to `crossbeam_queue::SegQueue`, the unbounded lock-free queue
//! that backs the record streams and the intake queue.
//!
//! Nothing in this file is proved. Every function takes the queue by exclusive
//! reference, so what is claimed is the queue's behaviour without concurrent
//! access: first in, first out.

use crossbeam_queue::SegQueue;
use vstd::prelude::*;

verus! {

/// `crossbeam_queue::SegQueue`, of which nothing is seen but what the
/// functions below say.
#[verifier::external_type_specification]
#[verifier::external_body]
#[verifier::reject_recursive_types(T)]
pub struct ExSegQueue<T>(SegQueue<T>);

/// The records held by a stream queue, head first. Each item is a pair of the
/// amount and the time of the request.
pub uninterp spec fn record_items(queue: SegQueue<(i64, i64)>) -> Seq<(i64, i64)>;

/// `SegQueue::new`: the new queue holds nothing.
#[verifier::external_body]
pub(crate) fn records_new() -> (queue: SegQueue<(i64, i64)>)
    ensures
        record_items(queue) == Seq::<(i64, i64)>::empty(),
{
    SegQueue::new()
}

/// `SegQueue::push`: the item is appended at the tail and nothing else changes.
#[verifier::external_body]
pub(crate) fn records_push(queue: &mut SegQueue<(i64, i64)>, item: (i64, i64))
    ensures
        record_items(*final(queue)) == record_items(*old(queue)).push(item),
{
    queue.push(item)
}

/// `SegQueue::pop`: an empty queue gives `None` and stays empty; otherwise the
/// head item is removed and returned.
#[verifier::external_body]
pub(crate) fn records_pop(queue: &mut SegQueue<(i64, i64)>) -> (item: Option<(i64, i64)>)
    ensures
        record_items(*old(queue)).len() == 0 ==> item is None && record_items(*final(queue))
            == record_items(*old(queue)),
        record_items(*old(queue)).len() > 0 ==> item == Some(record_items(*old(queue)).first())
            && record_items(*final(queue)) == record_items(*old(queue)).drop_first(),
{
    queue.pop()
}

/// The entries held by an intake queue, head first, each as its bytes.
pub uninterp spec fn entry_items(queue: SegQueue<Vec<u8>>) -> Seq<Seq<u8>>;

/// `SegQueue::new`: the new queue holds nothing.
#[verifier::external_body]
pub(crate) fn entries_new() -> (queue: SegQueue<Vec<u8>>)
    ensures
        entry_items(queue) == Seq::<Seq<u8>>::empty(),
{
    SegQueue::new()
}

/// `SegQueue::push`: the entry is appended at the tail and nothing else
/// changes.
#[verifier::external_body]
pub(crate) fn entries_push(queue: &mut SegQueue<Vec<u8>>, entry: Vec<u8>)
    ensures
        entry_items(*final(queue)) == entry_items(*old(queue)).push(entry@),
{
    queue.push(entry)
}

/// `SegQueue::pop`: an empty queue gives `None` and stays empty; otherwise the
/// head entry is removed and returned.
#[verifier::external_body]
pub(crate) fn entries_pop(queue: &mut SegQueue<Vec<u8>>) -> (entry: Option<Vec<u8>>)
    ensures
        entry_items(*old(queue)).len() == 0 ==> entry is None && entry_items(*final(queue))
            == entry_items(*old(queue)),
        entry_items(*old(queue)).len() > 0 ==> entry is Some && entry->0@ == entry_items(
            *old(queue),
        ).first() && entry_items(*final(queue)) == entry_items(*old(queue)).drop_first(),
{
    queue.pop()
}

} // verus!
