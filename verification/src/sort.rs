//! Putting records in order.
//!
//! Records are ordered by node identity and, for one node, by the first index
//! of their window. Sorting is stable: records that the order does not tell
//! apart keep the order in which they came.

use crate::order::lemma_text_lt_irreflexive;
use crate::record::{lemma_key_total, lemma_key_transitive, AvrHistoryRecord, RecordView};
use vstd::prelude::*;

verus! {

/// Whether no record of `records` comes after a later one.
pub open spec fn is_sorted(records: Seq<RecordView>) -> bool {
    forall|i: int, j: int| 0 <= i < j < records.len() ==> records[i].key_le(records[j])
}

/// Where `record` goes into `records`: behind the last record that does not
/// come after it.
pub open spec fn insertion_point(records: Seq<RecordView>, record: RecordView) -> int
    decreases records.len(),
{
    if records.len() == 0 {
        0
    } else if record.key_lt(records.last()) {
        insertion_point(records.drop_last(), record)
    } else {
        records.len() as int
    }
}

/// `records` with `record` put in at its place.
pub open spec fn sorted_insert(records: Seq<RecordView>, record: RecordView) -> Seq<RecordView> {
    records.insert(insertion_point(records, record), record)
}

/// `records` in order: each record in turn put in at its place among those
/// before it.
pub open spec fn sorted_records(records: Seq<RecordView>) -> Seq<RecordView>
    decreases records.len(),
{
    if records.len() == 0 {
        Seq::empty()
    } else {
        sorted_insert(sorted_records(records.drop_last()), records.last())
    }
}

/// The place of a record lies within the sequence, every record behind it
/// comes after the record, and the one before it does not.
pub proof fn lemma_insertion_point(records: Seq<RecordView>, record: RecordView)
    ensures
        0 <= insertion_point(records, record) <= records.len(),
        forall|k: int|
            insertion_point(records, record) <= k < records.len() ==> record.key_lt(
                #[trigger] records[k],
            ),
        insertion_point(records, record) > 0 ==> !record.key_lt(
            records[insertion_point(records, record) - 1],
        ),
    decreases records.len(),
{
    if records.len() > 0 && record.key_lt(records.last()) {
        let front = records.drop_last();
        lemma_insertion_point(front, record);
        assert forall|k: int| insertion_point(records, record) <= k < records.len() implies record.key_lt(
            #[trigger] records[k],
        ) by {
            if k < front.len() {
                assert(records[k] == front[k]);
            }
        }
    }
}

/// Putting a record in at its place keeps a sorted sequence sorted.
pub proof fn lemma_sorted_insert(records: Seq<RecordView>, record: RecordView)
    requires
        is_sorted(records),
    ensures
        is_sorted(sorted_insert(records, record)),
{
    let p = insertion_point(records, record);
    let out = sorted_insert(records, record);
    lemma_insertion_point(records, record);
    assert forall|i: int, j: int| 0 <= i < j < out.len() implies out[i].key_le(out[j]) by {
        if j == p {
            // out[i] is records[i], which does not come after records[p - 1]
            lemma_key_total(record, records[p - 1]);
            if i < p - 1 {
                lemma_key_transitive(records[i], records[p - 1], record);
            }
        } else if i == p {
            assert(out[j] == records[j - 1]);
        } else {
            let a = if i < p { i } else { i - 1 };
            let b = if j < p { j } else { j - 1 };
            assert(out[i] == records[a] && out[j] == records[b]);
        }
    }
}

/// Sorting gives a sorted sequence that holds the same records, each as
/// often as before.
pub proof fn lemma_sorted_records(records: Seq<RecordView>)
    ensures
        is_sorted(sorted_records(records)),
        sorted_records(records).len() == records.len(),
        sorted_records(records).to_multiset() == records.to_multiset(),
    decreases records.len(),
{
    broadcast use vstd::seq_lib::group_to_multiset_ensures;

    if records.len() == 0 {
        assert(records =~= Seq::empty());
    } else {
        let front = records.drop_last();
        let sorted_front = sorted_records(front);
        lemma_sorted_records(front);
        lemma_insertion_point(sorted_front, records.last());
        lemma_sorted_insert(sorted_front, records.last());
        assert(records =~= front.push(records.last()));
    }
}

/// Sorting leaves a sorted sequence as it is.
pub proof fn lemma_sorted_is_fixed(records: Seq<RecordView>)
    requires
        is_sorted(records),
    ensures
        sorted_records(records) == records,
    decreases records.len(),
{
    if records.len() == 0 {
        assert(records =~= Seq::empty());
    } else {
        let front = records.drop_last();
        lemma_sorted_is_fixed(front);
        if front.len() > 0 {
            lemma_key_total(records.last(), front.last());
        }
        assert(front.insert(front.len() as int, records.last()) =~= records);
    }
}

/// Whether `record` has the place of `other` in the order: the same node and
/// the same first index.
pub open spec fn same_place(record: RecordView, other: RecordView) -> bool {
    &&& record.node_identity == other.node_identity
    &&& record.first_valid_index == other.first_valid_index
}

/// Sorting is stable: the records that share a place in the order stand in
/// the sorted sequence in the order in which they came.
pub proof fn lemma_sort_is_stable(records: Seq<RecordView>, place: RecordView)
    ensures
        sorted_records(records).filter(|r: RecordView| same_place(r, place)) == records.filter(
            |r: RecordView| same_place(r, place),
        ),
    decreases records.len(),
{
    reveal(Seq::filter);
    let here = |r: RecordView| same_place(r, place);
    if records.len() > 0 {
        let front = records.drop_last();
        let last = records.last();
        let sorted_front = sorted_records(front);
        let at = insertion_point(sorted_front, last);
        lemma_sort_is_stable(front, place);
        lemma_insertion_point(sorted_front, last);
        let before = sorted_front.take(at);
        let behind = sorted_front.skip(at);
        assert(sorted_front =~= before + behind);
        assert(sorted_insert(sorted_front, last) =~= before.push(last) + behind);
        assert(before.push(last).drop_last() =~= before);
        Seq::filter_distributes_over_add(before, behind, here);
        Seq::filter_distributes_over_add(before.push(last), behind, here);
        if here(last) {
            assert forall|k: int| 0 <= k < behind.len() implies !here(#[trigger] behind[k]) by {
                assert(last.key_lt(sorted_front[at + k]));
                lemma_text_lt_irreflexive(last.node_identity);
            }
            behind.lemma_all_neg_filter_empty(here);
            assert(behind.filter(here) =~= Seq::empty());
        }
    }
}

/// Sorts `records` by node identity and first index, stably.
pub fn sort_records(records: Vec<AvrHistoryRecord>) -> (sorted: Vec<AvrHistoryRecord>)
    ensures
        sorted.deep_view() == sorted_records(records.deep_view()),
        is_sorted(sorted.deep_view()),
        sorted.deep_view().to_multiset() == records.deep_view().to_multiset(),
{
    let ghost input = records.deep_view();
    let ghost items = records@;
    let mut sorted: Vec<AvrHistoryRecord> = Vec::new();
    assert(sorted.deep_view() =~= sorted_records(input.take(0)));
    for record in it: records
        invariant
            it.seq() == items,
            input.len() == items.len(),
            forall|k: int| 0 <= k < items.len() ==> input[k] == (#[trigger] items[k])@,
            sorted.deep_view() == sorted_records(input.take(it.index())),
    {
        let ghost before = sorted.deep_view();
        let mut at: usize = sorted.len();
        assert(before.take(at as int) =~= before);
        while at > 0 && record.comes_before(&sorted[at - 1])
            invariant
                at <= sorted.len(),
                before == sorted.deep_view(),
                insertion_point(before, record@) == insertion_point(before.take(at as int), record@),
            decreases at,
        {
            assert(before.take(at as int).drop_last() =~= before.take(at - 1));
            at -= 1;
        }
        sorted.insert(at, record);
        proof {
            let done = it.index();
            assert(before.take(before.len() as int) =~= before);
            assert(sorted.deep_view() =~= sorted_insert(before, record@));
            assert(input.take(done + 1).drop_last() =~= input.take(done));
        }
    }
    proof {
        assert(input.take(input.len() as int) =~= input);
        lemma_sorted_records(input);
    }
    sorted
}

} // verus!
