//! The rules that make lookups unambiguous.
//!
//! A window may not end before it begins, and two windows of one node may not
//! overlap. Among sorted records it is enough to hold each record against the
//! next one.

use crate::record::{lemma_key_between, AvrHistoryRecord, RecordView, Window};
use crate::sort::is_sorted;
use vstd::prelude::*;

verus! {

/// A broken rule.
#[derive(Clone, Debug, PartialEq, Eq)]
pub enum InvariantError {
    /// Two windows of `node` overlap: `range_a` reaches the beginning of
    /// `range_b`, which follows it.
    OverlapDetected { node: String, range_a: Window, range_b: Window },
    /// A window of `node` ends at `last`, before it begins at `first`.
    InvalidRange { node: String, first: u64, last: u64 },
}

/// What an [`InvariantError`] holds.
pub enum InvariantErrorView {
    OverlapDetected { node: Seq<char>, range_a: Window, range_b: Window },
    InvalidRange { node: Seq<char>, first: u64, last: u64 },
}

impl View for InvariantError {
    type V = InvariantErrorView;

    open spec fn view(&self) -> InvariantErrorView {
        match self {
            InvariantError::OverlapDetected { node, range_a, range_b } => {
                InvariantErrorView::OverlapDetected {
                    node: node@,
                    range_a: *range_a,
                    range_b: *range_b,
                }
            },
            InvariantError::InvalidRange { node, first, last } => InvariantErrorView::InvalidRange {
                node: node@,
                first: *first,
                last: *last,
            },
        }
    }
}

/// Whether the record at `i` breaks a rule: its window ends before it
/// begins, or it runs into the record behind it.
pub open spec fn violates_at(records: Seq<RecordView>, i: int) -> bool {
    ||| !records[i].has_valid_range()
    ||| (i + 1 < records.len() && records[i].runs_into(records[i + 1]))
}

/// Whether no record breaks a rule.
pub open spec fn windows_are_valid(records: Seq<RecordView>) -> bool {
    forall|i: int| 0 <= i < records.len() ==> !violates_at(records, i)
}

/// The rule that the record at `i` breaks. A window that ends before it
/// begins is reported as such, whatever follows it.
pub open spec fn violation_at(records: Seq<RecordView>, i: int) -> InvariantErrorView
    recommends
        0 <= i < records.len(),
        violates_at(records, i),
{
    if !records[i].has_valid_range() {
        InvariantErrorView::InvalidRange {
            node: records[i].node_identity,
            first: records[i].first_valid_index,
            last: records[i].last_valid_index.unwrap(),
        }
    } else {
        InvariantErrorView::OverlapDetected {
            node: records[i].node_identity,
            range_a: records[i].window(),
            range_b: records[i + 1].window(),
        }
    }
}

/// Whether the record at `i` is the first that breaks a rule.
pub open spec fn first_violation_at(records: Seq<RecordView>, i: int) -> bool {
    &&& 0 <= i < records.len()
    &&& violates_at(records, i)
    &&& forall|j: int| 0 <= j < i ==> !violates_at(records, j)
}

/// Whether `error` reports the first broken rule of `records`.
pub open spec fn fails_validation_with(records: Seq<RecordView>, error: InvariantErrorView) -> bool {
    exists|i: int| first_violation_at(records, i) && error == violation_at(records, i)
}

/// Records that fail are not valid, and they fail with one error only.
pub proof fn lemma_violation_is_unique(
    records: Seq<RecordView>,
    a: InvariantErrorView,
    b: InvariantErrorView,
)
    requires
        fails_validation_with(records, a),
        fails_validation_with(records, b),
    ensures
        !windows_are_valid(records),
        a == b,
{
    let i = choose|i: int| first_violation_at(records, i) && a == violation_at(records, i);
    let j = choose|j: int| first_violation_at(records, j) && b == violation_at(records, j);
    assert(i == j) by {
        if i < j {
            assert(!violates_at(records, i));
        }
        if j < i {
            assert(!violates_at(records, j));
        }
    }
}

/// Among sorted records that keep the rules, an earlier window of a node
/// ends before any later window of that node begins.
pub proof fn lemma_windows_are_disjoint(records: Seq<RecordView>, i: int, j: int)
    requires
        is_sorted(records),
        windows_are_valid(records),
        0 <= i < j < records.len(),
        records[i].node_identity == records[j].node_identity,
    ensures
        records[i].last_valid_index is Some,
        records[i].last_valid_index.unwrap() < records[j].first_valid_index,
{
    assert(!violates_at(records, i));
    if i + 1 < j {
        lemma_key_between(records[i], records[i + 1], records[j]);
    }
}

/// Among sorted records that keep the rules, at most one record of a node
/// covers a given index.
pub proof fn lemma_cover_is_unique(records: Seq<RecordView>, index: u64, i: int, j: int)
    requires
        is_sorted(records),
        windows_are_valid(records),
        0 <= i < records.len(),
        0 <= j < records.len(),
        records[i].node_identity == records[j].node_identity,
        records[i].covers(index),
        records[j].covers(index),
    ensures
        i == j,
{
    if i < j {
        lemma_windows_are_disjoint(records, i, j);
    }
    if j < i {
        lemma_windows_are_disjoint(records, j, i);
    }
}

/// Holds each record against the rules, in order, and reports the first
/// that breaks one.
pub fn validate(records: &Vec<AvrHistoryRecord>) -> (result: Result<(), InvariantError>)
    ensures
        result is Ok <==> windows_are_valid(records.deep_view()),
        result matches Err(error) ==> fails_validation_with(records.deep_view(), error@),
{
    let ghost views = records.deep_view();
    let mut i: usize = 0;
    while i < records.len()
        invariant
            i <= records.len(),
            views == records.deep_view(),
            forall|j: int| 0 <= j < i ==> !violates_at(views, j),
        decreases records.len() - i,
    {
        let record = &records[i];
        if let Some(last) = record.last_valid_index {
            if last < record.first_valid_index {
                let error = InvariantError::InvalidRange {
                    node: record.node_identity.clone(),
                    first: record.first_valid_index,
                    last,
                };
                assert(first_violation_at(views, i as int));
                return Err(error);
            }
        }
        if i + 1 < records.len() {
            let next = &records[i + 1];
            let reaches = match record.last_valid_index {
                Some(last) => last >= next.first_valid_index,
                None => true,
            };
            if reaches && record.node_identity == next.node_identity {
                let error = InvariantError::OverlapDetected {
                    node: record.node_identity.clone(),
                    range_a: record.window(),
                    range_b: next.window(),
                };
                assert(first_violation_at(views, i as int));
                return Err(error);
            }
        }
        i += 1;
    }
    Ok(())
}

} // verus!
