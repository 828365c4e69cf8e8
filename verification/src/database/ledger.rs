//! The books of one record stream: where every saved record is while saves
//! and summaries interleave.
//!
//! A summary works in two steps with a gap between them: it drains the
//! stream into a working set of its own, and later puts the working set
//! back. Saves may fall into the gap, and so may the steps of another
//! summary. Nothing here runs; the laws below are proved of this model.

use crate::database::controller::{
    in_range, lemma_save_between_drain_and_restore_is_kept, requests_in,
};
use crate::database::entity::{PaymentRequest, SummaryQuery};
use vstd::multiset::Multiset;
use vstd::prelude::*;

verus! {

/// What happens to a stream.
pub enum Change {
    /// A record is saved.
    Save(PaymentRequest),
    /// A summary takes all that the stream holds into its working set.
    Drain,
    /// A summary puts records of its working set back at the tail.
    Restore(Seq<PaymentRequest>),
}

/// Where the saved records are: in the stream, or in the working set of a
/// summary that has not put them back yet.
pub struct Books {
    pub stream: Seq<PaymentRequest>,
    pub drained: Multiset<PaymentRequest>,
    pub saved: Multiset<PaymentRequest>,
}

/// The books of a stream to which nothing was saved.
pub open spec fn empty_books() -> Books {
    Books { stream: Seq::empty(), drained: Multiset::empty(), saved: Multiset::empty() }
}

/// The books after `change`. Putting back records that no summary holds
/// changes nothing.
pub open spec fn after_change(books: Books, change: Change) -> Books {
    match change {
        Change::Save(record) => Books {
            stream: books.stream.push(record),
            saved: books.saved.insert(record),
            ..books
        },
        Change::Drain => Books {
            stream: Seq::empty(),
            drained: books.drained.add(books.stream.to_multiset()),
            ..books
        },
        Change::Restore(records) => if records.to_multiset().subset_of(books.drained) {
            Books {
                stream: books.stream + records,
                drained: books.drained.sub(records.to_multiset()),
                ..books
            }
        } else {
            books
        },
    }
}

/// The books after `changes`, in their order.
pub open spec fn after_changes(changes: Seq<Change>) -> Books
    decreases changes.len(),
{
    if changes.len() == 0 {
        empty_books()
    } else {
        after_change(after_changes(changes.drop_last()), changes.last())
    }
}

/// The books follow the stream. Where the books' stream is what a `Stream`
/// holds, `Stream::push` and `save` do to it what the change `Save` does,
/// `Stream::drain` what `Drain` does, its result being what goes into the
/// working set, and `Stream::restore` what `Restore` does. A whole
/// `summary`, which drains a stream and restores what it drained, leaves
/// the books as they were.
pub proof fn lemma_books_follow_the_stream(
    books: Books,
    record: PaymentRequest,
    pushed: Seq<PaymentRequest>,
    drained: Seq<PaymentRequest>,
    emptied: Seq<PaymentRequest>,
    records: Seq<PaymentRequest>,
    restored: Seq<PaymentRequest>,
)
    requires
        pushed == books.stream.push(record),
        drained == books.stream,
        emptied == Seq::<PaymentRequest>::empty(),
        restored == books.stream + records,
    ensures
        after_change(books, Change::Save(record)).stream == pushed,
        after_change(books, Change::Save(record)).drained == books.drained,
        after_change(books, Change::Drain).stream == emptied,
        after_change(books, Change::Drain).drained == books.drained.add(drained.to_multiset()),
        records.to_multiset().subset_of(books.drained) ==> after_change(
            books,
            Change::Restore(records),
        ).stream == restored,
        after_change(after_change(books, Change::Drain), Change::Restore(drained)) == books,
{
    let working = after_change(books, Change::Drain);
    let back = after_change(working, Change::Restore(drained));
    assert(drained.to_multiset().subset_of(working.drained));
    assert(back.stream =~= books.stream);
    assert(back.drained =~= books.drained);
}

/// However saves and the two steps of summaries interleave, every saved
/// record is in exactly one place: in the stream or in the working set of a
/// summary. Once every summary has put back what it drained, the stream
/// holds exactly the saved records, and a summary that follows reads them
/// all.
pub proof fn lemma_saved_records_are_kept(changes: Seq<Change>)
    ensures
        ({
            let books = after_changes(changes);
            &&& books.stream.to_multiset().add(books.drained) == books.saved
            &&& books.drained.len() == 0 ==> books.stream.to_multiset() == books.saved
        }),
    decreases changes.len(),
{
    let empty = Seq::<PaymentRequest>::empty();
    empty.to_multiset_ensures();
    if changes.len() == 0 {
        let books = empty_books();
        assert(books.stream.to_multiset().add(books.drained) =~= books.saved);
    } else {
        lemma_saved_records_are_kept(changes.drop_last());
        let before = after_changes(changes.drop_last());
        let after = after_change(before, changes.last());
        match changes.last() {
            Change::Save(record) => {
                vstd::seq_lib::to_multiset_build(before.stream, record);
                assert(after.stream.to_multiset().add(after.drained) =~= after.saved);
            },
            Change::Drain => {
                assert(after.stream.to_multiset().add(after.drained) =~= after.saved);
            },
            Change::Restore(records) => {
                if records.to_multiset().subset_of(before.drained) {
                    vstd::seq_lib::lemma_multiset_commutative(before.stream, records);
                    assert(after.stream.to_multiset().add(after.drained) =~= after.saved);
                }
            },
        }
    }
    let books = after_changes(changes);
    if books.drained.len() == 0 {
        vstd::multiset::lemma_multiset_empty_len(books.drained);
        assert(books.stream.to_multiset() =~= books.saved);
    }
}

/// A save that falls between the two steps of a summary is in the stream
/// when the summary has put its working set back, and the summary that
/// follows counts it if its range holds it.
pub proof fn lemma_racing_save_is_counted(
    before: Seq<Change>,
    record: PaymentRequest,
    query: SummaryQuery,
)
    requires
        after_changes(before).drained.len() == 0,
    ensures
        ({
            let drained = after_changes(before).stream;
            let changes = before.push(Change::Drain).push(Change::Save(record)).push(
                Change::Restore(drained),
            );
            let books = after_changes(changes);
            &&& books.stream == seq![record] + drained
            &&& books.drained.len() == 0
            &&& books.saved == after_changes(before).saved.insert(record)
            &&& in_range(record, query) ==> requests_in(books.stream, query) == requests_in(
                drained,
                query,
            ) + 1
        }),
{
    let start = after_changes(before);
    let drained = start.stream;
    let first = before.push(Change::Drain);
    let second = first.push(Change::Save(record));
    let third = second.push(Change::Restore(drained));
    assert(first.drop_last() =~= before);
    assert(second.drop_last() =~= first);
    assert(third.drop_last() =~= second);
    lemma_saved_records_are_kept(before);
    vstd::multiset::lemma_multiset_empty_len(start.drained);
    let emptied = after_changes(first);
    assert(emptied.drained =~= drained.to_multiset());
    let saved = after_changes(second);
    assert(saved.stream =~= seq![record]);
    assert(drained.to_multiset().subset_of(saved.drained));
    let books = after_changes(third);
    assert(books.stream =~= seq![record] + drained);
    assert(books.drained =~= Multiset::empty());
    lemma_save_between_drain_and_restore_is_kept(drained, record, query);
}

} // verus!
