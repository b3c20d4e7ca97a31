//! One validity window of one node, and the order of windows.

use crate::order::{
    compare_text, lemma_text_lt_asymmetric, lemma_text_lt_irreflexive, lemma_text_lt_total,
    lemma_text_lt_transitive, text_lt, TextOrder,
};
use crate::report::{
    decode_optional_report, encode_optional_report, lemma_optional_report_roundtrip,
    optional_shadow_fails_with, optional_shadow_is_valid, DecodeError, ReportView, ShadowView,
    VerificationReport, VerificationReportShadow,
};
use vstd::prelude::*;

verus! {

/// An inclusive range of indices. Without a `last` it is open-ended: it runs
/// through the most recent index known.
#[derive(Clone, Copy, Debug, PartialEq, Eq, Structural)]
pub struct Window {
    pub first: u64,
    pub last: Option<u64>,
}

/// The attestation state of one node over one window: a report that was
/// valid there, or the fact that none was.
#[derive(Debug, PartialEq, Eq, PartialOrd, Ord)]
pub struct AvrHistoryRecord {
    /// The node whose attestation this is.
    pub node_identity: String,
    /// The first index of the window.
    pub first_valid_index: u64,
    /// The last index of the window; `None` leaves it open-ended.
    pub last_valid_index: Option<u64>,
    /// The report that backs the node's key in this window. `None` says
    /// that no valid report exists there, which is not the same as not
    /// knowing.
    pub report: Option<VerificationReport>,
}

/// What an [`AvrHistoryRecord`] holds.
pub struct RecordView {
    pub node_identity: Seq<char>,
    pub first_valid_index: u64,
    pub last_valid_index: Option<u64>,
    pub report: Option<ReportView>,
}

impl View for AvrHistoryRecord {
    type V = RecordView;

    open spec fn view(&self) -> RecordView {
        RecordView {
            node_identity: self.node_identity@,
            first_valid_index: self.first_valid_index,
            last_valid_index: self.last_valid_index,
            report: self.report.deep_view(),
        }
    }
}

impl DeepView for AvrHistoryRecord {
    type V = RecordView;

    open spec fn deep_view(&self) -> RecordView {
        self@
    }
}

impl Clone for AvrHistoryRecord {
    fn clone(&self) -> (copy: AvrHistoryRecord)
        ensures
            copy@ == self@,
    {
        AvrHistoryRecord {
            node_identity: self.node_identity.clone(),
            first_valid_index: self.first_valid_index,
            last_valid_index: self.last_valid_index,
            report: match &self.report {
                Some(report) => Some(report.clone()),
                None => None,
            },
        }
    }
}

impl RecordView {
    /// The record's window.
    pub open spec fn window(self) -> Window {
        Window { first: self.first_valid_index, last: self.last_valid_index }
    }

    /// Whether the window does not end before it begins.
    pub open spec fn has_valid_range(self) -> bool {
        self.last_valid_index matches Some(last) ==> self.first_valid_index <= last
    }

    /// Whether `index` lies in the window.
    pub open spec fn covers(self, index: u64) -> bool {
        &&& self.first_valid_index <= index
        &&& self.last_valid_index matches Some(last) ==> index <= last
    }

    /// Whether the window reaches `index` or goes beyond it. An open-ended
    /// window reaches every index.
    pub open spec fn reaches(self, index: u64) -> bool {
        self.last_valid_index matches Some(last) ==> last >= index
    }

    /// Whether `self` and `next` speak of the same node and `self` reaches
    /// the beginning of `next`.
    pub open spec fn runs_into(self, next: RecordView) -> bool {
        &&& self.node_identity == next.node_identity
        &&& self.reaches(next.first_valid_index)
    }

    /// Whether `self` comes strictly before `other`: by node identity, and
    /// for one node by the first index.
    pub open spec fn key_lt(self, other: RecordView) -> bool {
        ||| text_lt(self.node_identity, other.node_identity)
        ||| (self.node_identity == other.node_identity && self.first_valid_index
            < other.first_valid_index)
    }

    /// Whether `self` does not come after `other`.
    pub open spec fn key_le(self, other: RecordView) -> bool {
        ||| text_lt(self.node_identity, other.node_identity)
        ||| (self.node_identity == other.node_identity && self.first_valid_index
            <= other.first_valid_index)
    }
}

/// A record that stands for the position `(node, index)` in the order of
/// records: open-ended and without a report.
pub open spec fn position(node: Seq<char>, index: u64) -> RecordView {
    RecordView {
        node_identity: node,
        first_valid_index: index,
        last_valid_index: None,
        report: None,
    }
}

/// Of two records, one does not come after the other.
pub proof fn lemma_key_total(a: RecordView, b: RecordView)
    ensures
        a.key_lt(b) || b.key_le(a),
        !(a.key_lt(b) && b.key_le(a)),
{
    lemma_text_lt_total(a.node_identity, b.node_identity);
    lemma_text_lt_asymmetric(a.node_identity, b.node_identity);
    lemma_text_lt_irreflexive(a.node_identity);
}

/// The order of records is transitive.
pub proof fn lemma_key_transitive(a: RecordView, b: RecordView, c: RecordView)
    requires
        a.key_le(b),
        b.key_le(c),
    ensures
        a.key_le(c),
        a.key_lt(b) || b.key_lt(c) ==> a.key_lt(c),
{
    if text_lt(a.node_identity, b.node_identity) && text_lt(b.node_identity, c.node_identity) {
        lemma_text_lt_transitive(a.node_identity, b.node_identity, c.node_identity);
    }
}

/// A record that lies between two records of one node is of that node too.
pub proof fn lemma_key_between(a: RecordView, b: RecordView, c: RecordView)
    requires
        a.key_le(b),
        b.key_le(c),
        a.node_identity == c.node_identity,
    ensures
        b.node_identity == a.node_identity,
        a.first_valid_index <= b.first_valid_index <= c.first_valid_index,
{
    lemma_text_lt_irreflexive(a.node_identity);
    lemma_text_lt_asymmetric(a.node_identity, b.node_identity);
    if text_lt(a.node_identity, b.node_identity) && text_lt(b.node_identity, c.node_identity) {
        lemma_text_lt_transitive(a.node_identity, b.node_identity, c.node_identity);
    }
}

impl AvrHistoryRecord {
    /// The record's window.
    pub fn window(&self) -> (window: Window)
        ensures
            window == self@.window(),
    {
        Window { first: self.first_valid_index, last: self.last_valid_index }
    }

    /// Whether `index` lies in the record's window.
    pub fn covers(&self, index: u64) -> (covered: bool)
        ensures
            covered == self@.covers(index),
    {
        self.first_valid_index <= index && match self.last_valid_index {
            Some(last) => index <= last,
            None => true,
        }
    }

    /// Whether the record is of `node` and its window covers `index`.
    pub fn is_valid_for(&self, node: &str, index: u64) -> (valid: bool)
        ensures
            valid == (self@.node_identity == node@ && self@.covers(index)),
    {
        self.covers(index) && compare_text(self.node_identity.as_str(), node) == TextOrder::Same
    }

    /// Whether the record comes strictly before `other` in the order of
    /// records.
    pub fn comes_before(&self, other: &AvrHistoryRecord) -> (before: bool)
        ensures
            before == self@.key_lt(other@),
    {
        match compare_text(self.node_identity.as_str(), other.node_identity.as_str()) {
            TextOrder::Before => true,
            TextOrder::Same => self.first_valid_index < other.first_valid_index,
            TextOrder::After => false,
        }
    }

    /// Whether the record begins at the position `(node, index)` or before
    /// it in the order of records.
    pub fn begins_by(&self, node: &str, index: u64) -> (begun: bool)
        ensures
            begun == self@.key_le(position(node@, index)),
    {
        match compare_text(self.node_identity.as_str(), node) {
            TextOrder::Before => true,
            TextOrder::Same => self.first_valid_index <= index,
            TextOrder::After => false,
        }
    }
}

/// A record as text formats hold it: the report replaced by its shadow.
#[derive(Clone, Debug, PartialEq, Eq)]
pub struct AvrHistoryRecordShadow {
    /// The node whose attestation this is.
    pub node_identity: String,
    /// The first index of the window.
    pub first_valid_index: u64,
    /// The last index of the window; `None` leaves it open-ended.
    pub last_valid_index: Option<u64>,
    /// The shadow of the report; `None` where the record holds no report.
    pub report: Option<VerificationReportShadow>,
}

/// What an [`AvrHistoryRecordShadow`] holds.
pub struct RecordShadowView {
    pub node_identity: Seq<char>,
    pub first_valid_index: u64,
    pub last_valid_index: Option<u64>,
    pub report: Option<ShadowView>,
}

impl View for AvrHistoryRecordShadow {
    type V = RecordShadowView;

    open spec fn view(&self) -> RecordShadowView {
        RecordShadowView {
            node_identity: self.node_identity@,
            first_valid_index: self.first_valid_index,
            last_valid_index: self.last_valid_index,
            report: self.report.deep_view(),
        }
    }
}

impl DeepView for AvrHistoryRecordShadow {
    type V = RecordShadowView;

    open spec fn deep_view(&self) -> RecordShadowView {
        self@
    }
}

/// The shadow of `record`.
pub open spec fn encode_record(record: RecordView) -> RecordShadowView {
    RecordShadowView {
        node_identity: record.node_identity,
        first_valid_index: record.first_valid_index,
        last_valid_index: record.last_valid_index,
        report: encode_optional_report(record.report),
    }
}

/// The record that `shadow` stands for, where its report reads.
pub open spec fn decode_record(shadow: RecordShadowView) -> RecordView
    recommends
        optional_shadow_is_valid(shadow.report),
{
    RecordView {
        node_identity: shadow.node_identity,
        first_valid_index: shadow.first_valid_index,
        last_valid_index: shadow.last_valid_index,
        report: decode_optional_report(shadow.report),
    }
}

/// Every record can be read back from its shadow.
pub proof fn lemma_record_roundtrip(record: RecordView)
    ensures
        optional_shadow_is_valid(encode_record(record).report),
        decode_record(encode_record(record)) == record,
{
    lemma_optional_report_roundtrip(record.report);
}

impl AvrHistoryRecordShadow {
    /// Writes `record` as its shadow: identity and window as they are, the
    /// report through [`VerificationReportShadow::encode_optional`].
    pub fn encode(record: &AvrHistoryRecord) -> (shadow: AvrHistoryRecordShadow)
        ensures
            shadow@ == encode_record(record@),
    {
        AvrHistoryRecordShadow {
            node_identity: record.node_identity.clone(),
            first_valid_index: record.first_valid_index,
            last_valid_index: record.last_valid_index,
            report: VerificationReportShadow::encode_optional(&record.report),
        }
    }

    /// Reads the record back. Succeeds exactly when the report's shadow
    /// reads; the error is that of the report.
    pub fn decode(self) -> (result: Result<AvrHistoryRecord, DecodeError>)
        ensures
            result is Ok <==> optional_shadow_is_valid(self@.report),
            result matches Ok(record) ==> record@ == decode_record(self@),
            result matches Err(error) ==> optional_shadow_fails_with(self@.report, error),
    {
        match VerificationReportShadow::decode_optional(&self.report) {
            Ok(report) => Ok(
                AvrHistoryRecord {
                    node_identity: self.node_identity,
                    first_valid_index: self.first_valid_index,
                    last_valid_index: self.last_valid_index,
                    report,
                },
            ),
            Err(error) => Err(error),
        }
    }
}

} // verus!
