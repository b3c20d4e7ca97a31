//! The attestation history of the nodes of a trust network.
//!
//! For each node the history records which attestation report, if any,
//! backed the node's signing key over which range of block indices, so that
//! what a node signed can be judged long after its report has expired or been
//! replaced. A history is loaded once from a JSON or TOML file, checked, and
//! then only read.
//!
//! - [`hex`] and [`report`]: binary evidence as text, and back.
//! - [`record`], [`order`], [`sort`] and [`validate`]: validity windows,
//!   their order and the rules they keep.
//! - [`config`]: the history itself, with its lookup.
//! - [`format`] and [`loader`]: from a file to a history.
//! - [`connection`]: failures of a connection, and whether to try again.

pub mod config;
pub mod connection;
pub mod format;
pub mod hex;
pub mod loader;
pub mod order;
pub mod record;
pub mod report;
pub mod sort;
pub mod validate;

pub use config::{AvrHistoryConfig, LookupResult};
pub use connection::{AttestationFailure, Classification, ConversionFailure, Error};
pub use format::Format;
pub use loader::LoadError;
pub use record::{AvrHistoryRecord, AvrHistoryRecordShadow, Window};
pub use report::{DecodeError, ReportField, VerificationReport, VerificationReportShadow};
pub use validate::{validate, InvariantError};
