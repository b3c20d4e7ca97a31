//! Building a history from what a file held.
//!
//! A history file is JSON or TOML and holds one list, `node`. Each entry has
//! a `node_identity` (text), a `first_valid_index` (integer), a
//! `last_valid_index` (integer, or null for an open-ended window) and a
//! `report` (null where no valid report exists, or a table of `signature`,
//! `certificate_chain` and `body`, the first in hexadecimal, the second a
//! list of hexadecimal texts). An entry is an [`AvrHistoryRecordShadow`].
//!
//! Loading reads the file, tells its format by its path, parses the text
//! into shadows, reads the shadows back into records, sorts them and holds
//! them against the rules. The callers of [`AvrHistoryConfig::load`] supply
//! the reading and the parsing; every decision is made here. Whatever fails,
//! no history is built: there is no partial result.

use crate::config::{encode_records, well_formed, AvrHistoryConfig};
use crate::format::{format_of, Format};
use crate::record::{
    decode_record, lemma_record_roundtrip, AvrHistoryRecord, AvrHistoryRecordShadow,
    RecordShadowView, RecordView,
};
use crate::report::{optional_shadow_fails_with, optional_shadow_is_valid, DecodeError};
use crate::sort::{lemma_sorted_is_fixed, sorted_records};
use crate::validate::{
    fails_validation_with, windows_are_valid, InvariantError, InvariantErrorView,
};
use vstd::prelude::*;

verus! {

/// Why no history could be loaded.
#[derive(Clone, Debug, PartialEq, Eq)]
pub enum LoadError {
    /// The file at `path` is missing or cannot be read.
    IoError { path: String },
    /// The extension of `path` names no known format.
    UnrecognizedFormat { path: String },
    /// The text is not well-formed in its format, or does not hold a
    /// history; `message` is the parser's own, with line and column.
    ParseError { format: Format, message: String },
    /// The report of the record at position `record` of the file cannot be
    /// read back.
    Decode { record: usize, error: DecodeError },
    /// The records break a rule.
    Invariant(InvariantError),
}

/// What a [`LoadError`] holds.
pub enum LoadErrorView {
    IoError { path: Seq<char> },
    UnrecognizedFormat { path: Seq<char> },
    ParseError { format: Format, message: Seq<char> },
    Decode { record: usize, error: DecodeError },
    Invariant(InvariantErrorView),
}

impl View for LoadError {
    type V = LoadErrorView;

    open spec fn view(&self) -> LoadErrorView {
        match self {
            LoadError::IoError { path } => LoadErrorView::IoError { path: path@ },
            LoadError::UnrecognizedFormat { path } => LoadErrorView::UnrecognizedFormat {
                path: path@,
            },
            LoadError::ParseError { format, message } => LoadErrorView::ParseError {
                format: *format,
                message: message@,
            },
            LoadError::Decode { record, error } => LoadErrorView::Decode {
                record: *record,
                error: *error,
            },
            LoadError::Invariant(error) => LoadErrorView::Invariant(error@),
        }
    }
}

/// Whether the report of every shadow reads.
pub open spec fn shadows_are_valid(shadows: Seq<RecordShadowView>) -> bool {
    forall|i: int|
        0 <= i < shadows.len() ==> optional_shadow_is_valid((#[trigger] shadows[i]).report)
}

/// The records that `shadows` stand for, one for one.
pub open spec fn decode_records(shadows: Seq<RecordShadowView>) -> Seq<RecordView> {
    shadows.map_values(|s: RecordShadowView| decode_record(s))
}

/// The history that `shadows` give: their records, sorted.
pub open spec fn loaded_records(shadows: Seq<RecordShadowView>) -> Seq<RecordView> {
    sorted_records(decode_records(shadows))
}

/// Whether `shadows` give a history: every report reads, and the sorted
/// records keep the rules.
pub open spec fn loads(shadows: Seq<RecordShadowView>) -> bool {
    &&& shadows_are_valid(shadows)
    &&& windows_are_valid(loaded_records(shadows))
}

/// Whether `error` is why `shadows` give no history: the first report that
/// does not read, or, where all read, the first broken rule among the sorted
/// records.
pub open spec fn load_fails_with(shadows: Seq<RecordShadowView>, error: LoadErrorView) -> bool {
    match error {
        LoadErrorView::Decode { record, error } => {
            &&& record < shadows.len()
            &&& optional_shadow_fails_with(shadows[record as int].report, error)
            &&& forall|j: int|
                0 <= j < record ==> optional_shadow_is_valid((#[trigger] shadows[j]).report)
        },
        LoadErrorView::Invariant(inner) => {
            &&& shadows_are_valid(shadows)
            &&& fails_validation_with(loaded_records(shadows), inner)
        },
        _ => false,
    }
}

/// Whether `result` is how a load ends once the parser has given `parsed`:
/// with the parser's message where it failed, and otherwise with the history
/// that the shadows give or with why they give none.
pub open spec fn follows_from_parsed(
    format: Format,
    parsed: Result<Vec<AvrHistoryRecordShadow>, String>,
    result: Result<AvrHistoryConfig, LoadError>,
) -> bool {
    match parsed {
        Err(message) => result matches Err(error) && error@ == (LoadErrorView::ParseError {
            format,
            message: message@,
        }),
        Ok(shadows) => match result {
            Ok(config) => loads(shadows.deep_view()) && config@ == loaded_records(
                shadows.deep_view(),
            ),
            Err(error) => load_fails_with(shadows.deep_view(), error@),
        },
    }
}

/// A history that is written as shadows and read back is the same history:
/// every report reads, the records come back as they were and in the same
/// order, and they keep the rules.
pub proof fn lemma_history_roundtrip(records: Seq<RecordView>)
    requires
        well_formed(records),
    ensures
        loads(encode_records(records)),
        loaded_records(encode_records(records)) == records,
{
    let shadows = encode_records(records);
    assert forall|i: int| 0 <= i < shadows.len() implies optional_shadow_is_valid(
        (#[trigger] shadows[i]).report,
    ) by {
        lemma_record_roundtrip(records[i]);
    }
    assert forall|i: int| 0 <= i < records.len() implies decode_records(shadows)[i]
        == records[i] by {
        lemma_record_roundtrip(records[i]);
    }
    assert(decode_records(shadows) =~= records);
    lemma_sorted_is_fixed(records);
}

/// Shadows that fail do not load.
pub proof fn lemma_failure_excludes_loading(shadows: Seq<RecordShadowView>, error: LoadErrorView)
    requires
        load_fails_with(shadows, error),
    ensures
        !loads(shadows),
{
    match error {
        LoadErrorView::Decode { record, error } => {
            match shadows[record as int].report {
                Some(shadow) => {
                    crate::report::lemma_failure_is_unique(shadow, error, error);
                },
                None => {},
            }
        },
        LoadErrorView::Invariant(inner) => {
            crate::validate::lemma_violation_is_unique(loaded_records(shadows), inner, inner);
        },
        _ => {},
    }
}

impl Format {
    /// The format of the file at `path`, told by its extension alone. A path
    /// whose extension is neither `json` nor `toml` is refused, and so is a
    /// path without an extension.
    pub fn for_path(path: &str) -> (result: Result<Format, LoadError>)
        ensures
            match format_of(path@) {
                Some(format) => result == Ok::<Format, LoadError>(format),
                None => result matches Err(error) && error@ == (LoadErrorView::UnrecognizedFormat {
                    path: path@,
                }),
            },
    {
        match Format::of_path(path) {
            Some(format) => Ok(format),
            None => Err(LoadError::UnrecognizedFormat { path: path.to_owned() }),
        }
    }
}

impl AvrHistoryConfig {
    /// Builds a history from the shadows that a file held: reads every
    /// report back, sorts the records and holds them against the rules.
    pub fn from_shadow(shadows: Vec<AvrHistoryRecordShadow>) -> (result: Result<
        AvrHistoryConfig,
        LoadError,
    >)
        ensures
            result is Ok <==> loads(shadows.deep_view()),
            result matches Ok(config) ==> config@ == loaded_records(shadows.deep_view())
                && well_formed(config@),
            result matches Err(error) ==> load_fails_with(shadows.deep_view(), error@),
    {
        let ghost input = shadows.deep_view();
        let ghost items = shadows@;
        let total = shadows.len();
        let mut records: Vec<AvrHistoryRecord> = Vec::new();
        let mut position: usize = 0;
        assert(records.deep_view() =~= decode_records(input.take(0)));
        for shadow in it: shadows
            invariant
                it.seq() == items,
                items.len() == total,
                input == shadows.deep_view(),
                input.len() == total,
                position == it.index(),
                forall|k: int| 0 <= k < items.len() ==> input[k] == (#[trigger] items[k])@,
                forall|k: int|
                    0 <= k < position ==> optional_shadow_is_valid((#[trigger] input[k]).report),
                records.deep_view() == decode_records(input.take(position as int)),
        {
            let ghost before = records.deep_view();
            match shadow.decode() {
                Ok(record) => {
                    records.push(record);
                },
                Err(error) => {
                    assert(!optional_shadow_is_valid(input[position as int].report));
                    return Err(LoadError::Decode { record: position, error });
                },
            }
            assert(records.deep_view() =~= before.push(decode_record(input[position as int])));
            assert(decode_records(input.take(position + 1)) =~= decode_records(
                input.take(position as int),
            ).push(decode_record(input[position as int])));
            position += 1;
        }
        assert(input.take(total as int) =~= input);
        match AvrHistoryConfig::new(records) {
            Ok(config) => Ok(config),
            Err(error) => Err(LoadError::Invariant(error)),
        }
    }

    /// Ends a load with what the parser made of the file's text. Where the
    /// parser failed, its message is handed on with the format; where it
    /// gave shadows, the history is built from them as
    /// [`from_shadow`](Self::from_shadow) builds it.
    pub fn from_parsed(
        format: Format,
        parsed: Result<Vec<AvrHistoryRecordShadow>, String>,
    ) -> (result: Result<AvrHistoryConfig, LoadError>)
        ensures
            follows_from_parsed(format, parsed, result),
            result is Ok <==> parsed is Ok && loads(parsed->Ok_0.deep_view()),
            result matches Ok(config) ==> well_formed(config@),
    {
        match parsed {
            Ok(shadows) => {
                proof {
                    let views = shadows.deep_view();
                    assert forall|error: LoadErrorView| load_fails_with(views, error) implies !loads(
                        views,
                    ) by {
                        lemma_failure_excludes_loading(views, error);
                    }
                }
                AvrHistoryConfig::from_shadow(shadows)
            },
            Err(message) => Err(LoadError::ParseError { format, message }),
        }
    }

    /// Loads the history from the file at `path`.
    ///
    /// `read` gives the text of the file at a path, or `None` where the file
    /// is missing or cannot be read; `parse` turns text in a given format
    /// into shadows, or into the parser's message. The steps follow one
    /// another and the first failure ends the load: the file is read, the
    /// format is told by the extension of `path`, the text is parsed in that
    /// format and no other, and the history is built from the shadows.
    pub fn load<R, P>(path: &str, read: R, parse: P) -> (result: Result<AvrHistoryConfig, LoadError>)
        where
            R: FnOnce(&str) -> Option<String>,
            P: FnOnce(Format, String) -> Result<Vec<AvrHistoryRecordShadow>, String>,
        requires
            call_requires(read, (path,)),
            forall|format: Format, text: String| call_requires(parse, (format, text)),
        ensures
            exists|content: Option<String>|
                call_ensures(read, (path,), content) && match content {
                    None => result matches Err(error) && error@ == (LoadErrorView::IoError {
                        path: path@,
                    }),
                    Some(text) => match format_of(path@) {
                        None => result matches Err(error) && error@ == (
                        LoadErrorView::UnrecognizedFormat { path: path@ }),
                        Some(format) => exists|
                            parsed: Result<Vec<AvrHistoryRecordShadow>, String>,
                        |
                            call_ensures(parse, (format, text), parsed)
                                && follows_from_parsed(format, parsed, result),
                    },
                },
            result matches Ok(config) ==> well_formed(config@),
    {
        let text = match read(path) {
            Some(text) => text,
            None => {
                return Err(LoadError::IoError { path: path.to_owned() });
            },
        };
        let format = match Format::for_path(path) {
            Ok(format) => format,
            Err(error) => {
                return Err(error);
            },
        };
        let parsed = parse(format, text);
        AvrHistoryConfig::from_parsed(format, parsed)
    }
}

} // verus!
