//! Attestation reports and their text-safe shadow.
//!
//! A report carries binary evidence. Text formats cannot hold raw bytes, so a
//! report is written through its shadow, in which every binary field is
//! hexadecimal text and the body passes through unchanged.

use crate::hex::{decoded, encoded, is_hex};
use vstd::prelude::*;

verus! {

/// Evidence from an attestation authority that a node ran inside a genuine
/// enclave.
#[derive(Debug, PartialEq, Eq, PartialOrd, Ord)]
pub struct VerificationReport {
    /// Signature over the body.
    pub signature: Vec<u8>,
    /// Certificates that lead from the signing key to the authority's root.
    pub certificate_chain: Vec<Vec<u8>>,
    /// The signed report itself.
    pub body: String,
}

/// What a [`VerificationReport`] holds.
pub struct ReportView {
    pub signature: Seq<u8>,
    pub certificate_chain: Seq<Seq<u8>>,
    pub body: Seq<char>,
}

impl View for VerificationReport {
    type V = ReportView;

    open spec fn view(&self) -> ReportView {
        ReportView {
            signature: self.signature@,
            certificate_chain: self.certificate_chain@.map_values(|c: Vec<u8>| c@),
            body: self.body@,
        }
    }
}

impl DeepView for VerificationReport {
    type V = ReportView;

    open spec fn deep_view(&self) -> ReportView {
        self@
    }
}

impl Clone for VerificationReport {
    fn clone(&self) -> (copy: VerificationReport)
        ensures
            copy@ == self@,
    {
        let mut certificate_chain: Vec<Vec<u8>> = Vec::new();
        let mut i: usize = 0;
        while i < self.certificate_chain.len()
            invariant
                i <= self.certificate_chain.len(),
                certificate_chain@.len() == i,
                forall|k: int|
                    0 <= k < i ==> (#[trigger] certificate_chain@[k])@
                        == self.certificate_chain@[k]@,
            decreases self.certificate_chain.len() - i,
        {
            let certificate = self.certificate_chain[i].clone();
            assert(certificate@ =~= self.certificate_chain@[i as int]@);
            certificate_chain.push(certificate);
            i += 1;
        }
        let signature = self.signature.clone();
        assert(signature@ =~= self.signature@);
        let copy = VerificationReport { signature, certificate_chain, body: self.body.clone() };
        assert(copy@.certificate_chain =~= self@.certificate_chain);
        copy
    }
}

/// A report as text formats hold it: binary fields in hexadecimal.
#[derive(Clone, Debug, PartialEq, Eq)]
pub struct VerificationReportShadow {
    /// The signature, in hexadecimal.
    pub signature: String,
    /// The certificates, each in hexadecimal.
    pub certificate_chain: Vec<String>,
    /// The signed report itself.
    pub body: String,
}

/// What a [`VerificationReportShadow`] holds.
pub struct ShadowView {
    pub signature: Seq<char>,
    pub certificate_chain: Seq<Seq<char>>,
    pub body: Seq<char>,
}

impl View for VerificationReportShadow {
    type V = ShadowView;

    open spec fn view(&self) -> ShadowView {
        ShadowView {
            signature: self.signature@,
            certificate_chain: self.certificate_chain@.map_values(|c: String| c@),
            body: self.body@,
        }
    }
}

impl DeepView for VerificationReportShadow {
    type V = ShadowView;

    open spec fn deep_view(&self) -> ShadowView {
        self@
    }
}

/// A binary field of a report.
#[derive(Clone, Copy, Debug, PartialEq, Eq, Structural)]
pub enum ReportField {
    /// The signature.
    Signature,
    /// The certificate at `index` of the chain.
    Certificate { index: usize },
}

/// Why a shadow could not be read back.
#[derive(Clone, Copy, Debug, PartialEq, Eq, Structural)]
pub enum DecodeError {
    /// `field` is of odd length or holds something other than hexadecimal
    /// digits.
    InvalidHex { field: ReportField },
}

/// The shadow of `report`.
pub open spec fn encode_report(report: ReportView) -> ShadowView {
    ShadowView {
        signature: encoded(report.signature),
        certificate_chain: report.certificate_chain.map_values(|c: Seq<u8>| encoded(c)),
        body: report.body,
    }
}

/// Whether every binary field of `shadow` is hexadecimal.
pub open spec fn shadow_is_valid(shadow: ShadowView) -> bool {
    &&& is_hex(shadow.signature)
    &&& forall|i: int|
        0 <= i < shadow.certificate_chain.len() ==> is_hex(#[trigger] shadow.certificate_chain[i])
}

/// The report that a valid `shadow` stands for.
pub open spec fn decode_report(shadow: ShadowView) -> ReportView
    recommends
        shadow_is_valid(shadow),
{
    ReportView {
        signature: decoded(shadow.signature),
        certificate_chain: shadow.certificate_chain.map_values(|c: Seq<char>| decoded(c)),
        body: shadow.body,
    }
}

/// Whether `error` names the first field of `shadow` that is not hexadecimal,
/// the signature counting before the certificates.
pub open spec fn shadow_fails_with(shadow: ShadowView, error: DecodeError) -> bool {
    match error {
        DecodeError::InvalidHex { field: ReportField::Signature } => !is_hex(shadow.signature),
        DecodeError::InvalidHex { field: ReportField::Certificate { index } } => {
            &&& is_hex(shadow.signature)
            &&& index < shadow.certificate_chain.len()
            &&& !is_hex(shadow.certificate_chain[index as int])
            &&& forall|j: int| 0 <= j < index ==> is_hex(#[trigger] shadow.certificate_chain[j])
        },
    }
}

/// What reading the optional `shadow` gives: the report it stands for, or
/// no report where there is no shadow.
pub open spec fn decode_optional_report(shadow: Option<ShadowView>) -> Option<ReportView> {
    match shadow {
        Some(s) => Some(decode_report(s)),
        None => None,
    }
}

/// The shadow of an optional report: absent exactly when the report is.
pub open spec fn encode_optional_report(report: Option<ReportView>) -> Option<ShadowView> {
    match report {
        Some(r) => Some(encode_report(r)),
        None => None,
    }
}

/// Whether reading the optional `shadow` succeeds. An absent shadow always
/// reads, as an absent report.
pub open spec fn optional_shadow_is_valid(shadow: Option<ShadowView>) -> bool {
    match shadow {
        Some(s) => shadow_is_valid(s),
        None => true,
    }
}

/// Whether reading the optional `shadow` fails with `error`.
pub open spec fn optional_shadow_fails_with(shadow: Option<ShadowView>, error: DecodeError) -> bool {
    match shadow {
        Some(s) => shadow_fails_with(s, error),
        None => false,
    }
}

/// A shadow that fails is not valid, and it fails with one error only.
pub proof fn lemma_failure_is_unique(shadow: ShadowView, a: DecodeError, b: DecodeError)
    requires
        shadow_fails_with(shadow, a),
        shadow_fails_with(shadow, b),
    ensures
        !shadow_is_valid(shadow),
        a == b,
{
}

/// Every report can be read back from its shadow: writing loses nothing.
pub proof fn lemma_report_roundtrip(report: ReportView)
    ensures
        shadow_is_valid(encode_report(report)),
        decode_report(encode_report(report)) == report,
{
    let shadow = encode_report(report);
    crate::hex::lemma_decode_encode(report.signature);
    assert forall|i: int| 0 <= i < shadow.certificate_chain.len() implies is_hex(
        #[trigger] shadow.certificate_chain[i],
    ) by {
        crate::hex::lemma_decode_encode(report.certificate_chain[i]);
    }
    let back = decode_report(shadow);
    assert forall|i: int| 0 <= i < report.certificate_chain.len() implies back.certificate_chain[i]
        == report.certificate_chain[i] by {
        crate::hex::lemma_decode_encode(report.certificate_chain[i]);
    }
    assert(back.certificate_chain =~= report.certificate_chain);
}

/// The same holds of an optional report, and an absent report stays absent.
pub proof fn lemma_optional_report_roundtrip(report: Option<ReportView>)
    ensures
        optional_shadow_is_valid(encode_optional_report(report)),
        decode_optional_report(encode_optional_report(report)) == report,
        encode_optional_report(report) is None <==> report is None,
{
    if let Some(r) = report {
        lemma_report_roundtrip(r);
    }
}

impl VerificationReportShadow {
    /// Writes `report` as its shadow: the signature and each certificate in
    /// lowercase hexadecimal, the body as it is.
    pub fn encode(report: &VerificationReport) -> (shadow: VerificationReportShadow)
        ensures
            shadow@ == encode_report(report@),
    {
        let signature = crate::hex::encode(report.signature.as_slice());
        let mut certificate_chain: Vec<String> = Vec::new();
        let mut i: usize = 0;
        while i < report.certificate_chain.len()
            invariant
                i <= report.certificate_chain.len(),
                certificate_chain@.len() == i,
                forall|k: int|
                    0 <= k < i ==> (#[trigger] certificate_chain@[k])@ == encoded(
                        report.certificate_chain@[k]@,
                    ),
            decreases report.certificate_chain.len() - i,
        {
            certificate_chain.push(crate::hex::encode(report.certificate_chain[i].as_slice()));
            i += 1;
        }
        let shadow = VerificationReportShadow {
            signature,
            certificate_chain,
            body: report.body.clone(),
        };
        assert(shadow@.certificate_chain =~= encode_report(report@).certificate_chain);
        shadow
    }

    /// Reads the report back. Succeeds exactly when the signature and every
    /// certificate are hexadecimal text of even length; otherwise the error
    /// names the first field that is not.
    pub fn decode(&self) -> (result: Result<VerificationReport, DecodeError>)
        ensures
            result is Ok <==> shadow_is_valid(self@),
            result matches Ok(report) ==> report@ == decode_report(self@),
            result matches Err(error) ==> shadow_fails_with(self@, error),
    {
        let signature = match crate::hex::decode(self.signature.as_str()) {
            Some(bytes) => bytes,
            None => {
                return Err(DecodeError::InvalidHex { field: ReportField::Signature });
            },
        };
        let mut certificate_chain: Vec<Vec<u8>> = Vec::new();
        let mut i: usize = 0;
        while i < self.certificate_chain.len()
            invariant
                i <= self.certificate_chain.len(),
                certificate_chain@.len() == i,
                is_hex(self@.signature),
                forall|k: int| 0 <= k < i ==> is_hex(#[trigger] self@.certificate_chain[k]),
                forall|k: int|
                    0 <= k < i ==> (#[trigger] certificate_chain@[k])@ == decoded(
                        self.certificate_chain@[k]@,
                    ),
            decreases self.certificate_chain.len() - i,
        {
            match crate::hex::decode(self.certificate_chain[i].as_str()) {
                Some(bytes) => {
                    certificate_chain.push(bytes);
                },
                None => {
                    assert(!is_hex(self@.certificate_chain[i as int]));
                    return Err(DecodeError::InvalidHex { field: ReportField::Certificate { index: i } });
                },
            }
            i += 1;
        }
        let report = VerificationReport { signature, certificate_chain, body: self.body.clone() };
        assert(report@.certificate_chain =~= decode_report(self@).certificate_chain);
        Ok(report)
    }

    /// Writes an optional report. An absent report gives an absent shadow,
    /// which a text format holds as an explicit null and which differs from
    /// the shadow of any report, an empty one included.
    pub fn encode_optional(report: &Option<VerificationReport>) -> (shadow: Option<
        VerificationReportShadow,
    >)
        ensures
            shadow.deep_view() == encode_optional_report(report.deep_view()),
    {
        match report {
            Some(r) => Some(VerificationReportShadow::encode(r)),
            None => None,
        }
    }

    /// Reads an optional shadow back. An absent shadow is an absent report;
    /// a present one is read as [`decode`](Self::decode) reads it.
    pub fn decode_optional(shadow: &Option<VerificationReportShadow>) -> (result: Result<
        Option<VerificationReport>,
        DecodeError,
    >)
        ensures
            result is Ok <==> optional_shadow_is_valid(shadow.deep_view()),
            result matches Ok(report) ==> report.deep_view() == decode_optional_report(
                shadow.deep_view(),
            ),
            result matches Err(error) ==> optional_shadow_fails_with(shadow.deep_view(), error),
    {
        match shadow {
            Some(s) => match s.decode() {
                Ok(report) => Ok(Some(report)),
                Err(error) => Err(error),
            },
            None => Ok(None),
        }
    }
}

} // verus!
