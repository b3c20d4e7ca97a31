//! The attestation history of a network, ready for lookups.

use crate::record::{
    encode_record, lemma_key_between, lemma_key_total, lemma_key_transitive, position,
    AvrHistoryRecord, AvrHistoryRecordShadow, RecordShadowView, RecordView,
};
use crate::report::{ReportView, VerificationReport};
use crate::sort::{is_sorted, sort_records, sorted_records};
use crate::validate::{
    fails_validation_with, lemma_cover_is_unique, lemma_windows_are_disjoint, validate,
    windows_are_valid, InvariantError,
};
use vstd::prelude::*;

verus! {

/// What the history says of a node at an index.
#[derive(Clone, Copy, Debug, PartialEq, Eq)]
pub enum LookupResult<'a> {
    /// No window of the node covers the index.
    NoRecord,
    /// A window covers the index and says that no valid report exists.
    ExplicitNoReport,
    /// A window covers the index, with this report.
    Report(&'a VerificationReport),
}

/// What a [`LookupResult`] holds.
pub enum LookupView {
    NoRecord,
    ExplicitNoReport,
    Report(ReportView),
}

impl<'a> View for LookupResult<'a> {
    type V = LookupView;

    open spec fn view(&self) -> LookupView {
        match self {
            LookupResult::NoRecord => LookupView::NoRecord,
            LookupResult::ExplicitNoReport => LookupView::ExplicitNoReport,
            LookupResult::Report(report) => LookupView::Report(report@),
        }
    }
}

/// Whether records are as a history holds them: sorted, every window valid,
/// no two windows of a node overlapping.
pub open spec fn well_formed(records: Seq<RecordView>) -> bool {
    &&& is_sorted(records)
    &&& windows_are_valid(records)
}

/// Whether the record at `i` is of `node` and covers `index`.
pub open spec fn covering(records: Seq<RecordView>, node: Seq<char>, index: u64, i: int) -> bool {
    &&& 0 <= i < records.len()
    &&& records[i].node_identity == node
    &&& records[i].covers(index)
}

/// Whether `result` is what `records` say of `node` at `index`.
pub open spec fn answers(
    records: Seq<RecordView>,
    node: Seq<char>,
    index: u64,
    result: LookupView,
) -> bool {
    match result {
        LookupView::NoRecord => forall|i: int| !covering(records, node, index, i),
        LookupView::ExplicitNoReport => exists|i: int|
            covering(records, node, index, i) && records[i].report is None,
        LookupView::Report(report) => exists|i: int|
            covering(records, node, index, i) && records[i].report == Some(report),
    }
}

/// The shadows of `records`, one for one.
pub open spec fn encode_records(records: Seq<RecordView>) -> Seq<RecordShadowView> {
    records.map_values(|r: RecordView| encode_record(r))
}

/// A history answers every question in one way only.
pub proof fn lemma_lookup_is_unambiguous(
    records: Seq<RecordView>,
    node: Seq<char>,
    index: u64,
    a: LookupView,
    b: LookupView,
)
    requires
        well_formed(records),
        answers(records, node, index, a),
        answers(records, node, index, b),
    ensures
        a == b,
{
    if a !is NoRecord && b !is NoRecord {
        let i = choose|i: int|
            covering(records, node, index, i) && match a {
                LookupView::Report(report) => records[i].report == Some(report),
                _ => records[i].report is None,
            };
        let j = choose|j: int|
            covering(records, node, index, j) && match b {
                LookupView::Report(report) => records[j].report == Some(report),
                _ => records[j].report is None,
            };
        lemma_cover_is_unique(records, index, i, j);
    }
}

/// The history of attestation of the nodes of a network: which report, if
/// any, backed each node's key over which range of indices.
///
/// A history is built once and never changes. Its records are sorted by node
/// identity and first index, every window is valid, and no two windows of one
/// node overlap.
#[derive(Debug, PartialEq, Eq)]
pub struct AvrHistoryConfig {
    node: Vec<AvrHistoryRecord>,
}

impl View for AvrHistoryConfig {
    type V = Seq<RecordView>;

    closed spec fn view(&self) -> Seq<RecordView> {
        self.node.deep_view()
    }
}

impl Clone for AvrHistoryConfig {
    fn clone(&self) -> (copy: AvrHistoryConfig)
        ensures
            copy@ == self@,
    {
        proof {
            use_type_invariant(self);
        }
        let mut node: Vec<AvrHistoryRecord> = Vec::new();
        let mut i: usize = 0;
        while i < self.node.len()
            invariant
                i <= self.node.len(),
                node@.len() == i,
                forall|k: int| 0 <= k < i ==> (#[trigger] node@[k])@ == self.node@[k]@,
            decreases self.node.len() - i,
        {
            node.push(self.node[i].clone());
            i += 1;
        }
        assert(node.deep_view() =~= self.node.deep_view());
        AvrHistoryConfig { node }
    }
}

impl Default for AvrHistoryConfig {
    /// The history that holds no record.
    fn default() -> (config: AvrHistoryConfig)
        ensures
            config@ == Seq::<RecordView>::empty(),
    {
        let config = AvrHistoryConfig { node: Vec::new() };
        assert(config@ =~= Seq::<RecordView>::empty());
        config
    }
}

impl AvrHistoryConfig {
    #[verifier::type_invariant]
    spec fn holds_rules(&self) -> bool {
        well_formed(self.node.deep_view())
    }

    /// Builds a history from records in any order: sorts them, then holds
    /// them against the rules. Fails with the first broken rule among the
    /// sorted records, and never gives a history that breaks one.
    pub fn new(records: Vec<AvrHistoryRecord>) -> (result: Result<AvrHistoryConfig, InvariantError>)
        ensures
            result is Ok <==> windows_are_valid(sorted_records(records.deep_view())),
            result matches Ok(config) ==> {
                &&& config@ == sorted_records(records.deep_view())
                &&& well_formed(config@)
                &&& config@.to_multiset() == records.deep_view().to_multiset()
            },
            result matches Err(error) ==> fails_validation_with(
                sorted_records(records.deep_view()),
                error@,
            ),
    {
        let sorted = sort_records(records);
        match validate(&sorted) {
            Ok(()) => Ok(AvrHistoryConfig { node: sorted }),
            Err(error) => Err(error),
        }
    }

    /// The records, in order.
    pub fn records(&self) -> (records: &Vec<AvrHistoryRecord>)
        ensures
            records.deep_view() == self@,
            well_formed(self@),
    {
        proof {
            use_type_invariant(self);
        }
        &self.node
    }

    /// The number of records.
    pub fn len(&self) -> (len: usize)
        ensures
            len == self@.len(),
    {
        self.node.len()
    }

    /// What the history says of `node_identity` at `index`: the report of
    /// the window that covers the index, the fact that this window holds
    /// none, or the fact that no window covers the index.
    pub fn lookup(&self, node_identity: &str, index: u64) -> (result: LookupResult<'_>)
        ensures
            answers(self@, node_identity@, index, result@),
            well_formed(self@),
    {
        proof {
            use_type_invariant(self);
        }
        let ghost records = self.node.deep_view();
        let ghost wanted = position(node_identity@, index);
        let mut low: usize = 0;
        let mut high: usize = self.node.len();
        while low < high
            invariant
                low <= high <= self.node.len(),
                records == self.node.deep_view(),
                is_sorted(records),
                wanted == position(node_identity@, index),
                forall|k: int| 0 <= k < low ==> (#[trigger] records[k]).key_le(wanted),
                forall|k: int| high <= k < records.len() ==> wanted.key_lt(#[trigger] records[k]),
            decreases high - low,
        {
            let middle = low + (high - low) / 2;
            if self.node[middle].begins_by(node_identity, index) {
                assert forall|k: int| 0 <= k < middle + 1 implies (#[trigger] records[k]).key_le(
                    wanted,
                ) by {
                    if k < middle {
                        lemma_key_transitive(records[k], records[middle as int], wanted);
                    }
                }
                low = middle + 1;
            } else {
                assert forall|k: int| middle <= k < records.len() implies wanted.key_lt(
                    #[trigger] records[k],
                ) by {
                    lemma_key_total(wanted, records[middle as int]);
                    if middle < k {
                        lemma_key_transitive(wanted, records[middle as int], records[k]);
                    }
                }
                high = middle;
            }
        }
        if low > 0 && self.node[low - 1].is_valid_for(node_identity, index) {
            assert(covering(records, node_identity@, index, low - 1));
            match &self.node[low - 1].report {
                Some(report) => LookupResult::Report(report),
                None => LookupResult::ExplicitNoReport,
            }
        } else {
            assert forall|i: int| !covering(records, node_identity@, index, i) by {
                if covering(records, node_identity@, index, i) {
                    lemma_key_total(wanted, records[i]);
                    assert(i < low);
                    if i < low - 1 {
                        lemma_key_between(records[i], records[low - 1], wanted);
                        lemma_windows_are_disjoint(records, i, low - 1);
                    }
                }
            }
            LookupResult::NoRecord
        }
    }

    /// Writes the history as shadows, record by record and in order.
    pub fn to_shadow(&self) -> (shadows: Vec<AvrHistoryRecordShadow>)
        ensures
            shadows.deep_view() == encode_records(self@),
    {
        let mut shadows: Vec<AvrHistoryRecordShadow> = Vec::new();
        let mut i: usize = 0;
        while i < self.node.len()
            invariant
                i <= self.node.len(),
                shadows@.len() == i,
                forall|k: int|
                    0 <= k < i ==> (#[trigger] shadows@[k])@ == encode_record(self.node@[k]@),
            decreases self.node.len() - i,
        {
            shadows.push(AvrHistoryRecordShadow::encode(&self.node[i]));
            i += 1;
        }
        assert(shadows.deep_view() =~= encode_records(self@));
        shadows
    }
}

} // verus!
