//! Failures of a connection to a peer, and whether a call is worth trying
//! again.
//!
//! The error is a closed set of cases. Each case says by itself whether it is
//! transient; a failed attestation carries that verdict with it, given by
//! whoever performed the attestation.

use vstd::prelude::*;
use vstd::string::StringExecFns;

verus! {

/// Whether a failed call should be made again.
#[derive(Clone, Copy, Debug, PartialEq, Eq, Structural)]
pub enum Classification {
    /// The failure is transient: the same call may succeed later.
    Retryable,
    /// The failure is final: the same call will fail again.
    Fatal,
}

/// Why a value received from a peer could not be converted.
#[derive(Clone, Debug, PartialEq, Eq)]
pub enum ConversionFailure {
    /// A byte string did not have the length of the array it should fill.
    ArrayCast,
    /// Any other reason, in words.
    Other(String),
}

/// A failed attestation, with the verdict of the attesting side on whether
/// to try again.
#[derive(Clone, Debug, PartialEq, Eq)]
pub struct AttestationFailure {
    pub message: String,
    pub classification: Classification,
}

/// What can go wrong on a connection.
#[derive(Clone, Debug, PartialEq, Eq)]
pub enum Error {
    /// The requested range was too large.
    RequestTooLarge,
    /// What was asked for does not exist.
    NotFound,
    /// A received value could not be converted to a working type.
    Conversion(ConversionFailure),
    /// The remote call itself failed.
    Grpc(String),
    /// Encryption or decryption failed.
    Cipher(String),
    /// Attestation failed.
    Attestation(AttestationFailure),
    /// The peer refused a transaction as invalid.
    TransactionValidation(String),
    /// Anything else.
    Other(String),
}

/// What a [`ConversionFailure`] holds.
pub enum ConversionFailureView {
    ArrayCast,
    Other(Seq<char>),
}

/// What an [`Error`] holds.
pub enum ErrorView {
    RequestTooLarge,
    NotFound,
    Conversion(ConversionFailureView),
    Grpc(Seq<char>),
    Cipher(Seq<char>),
    Attestation { message: Seq<char>, classification: Classification },
    TransactionValidation(Seq<char>),
    Other(Seq<char>),
}

impl View for ConversionFailure {
    type V = ConversionFailureView;

    open spec fn view(&self) -> ConversionFailureView {
        match self {
            ConversionFailure::ArrayCast => ConversionFailureView::ArrayCast,
            ConversionFailure::Other(reason) => ConversionFailureView::Other(reason@),
        }
    }
}

impl View for Error {
    type V = ErrorView;

    open spec fn view(&self) -> ErrorView {
        match self {
            Error::RequestTooLarge => ErrorView::RequestTooLarge,
            Error::NotFound => ErrorView::NotFound,
            Error::Conversion(failure) => ErrorView::Conversion(failure@),
            Error::Grpc(message) => ErrorView::Grpc(message@),
            Error::Cipher(message) => ErrorView::Cipher(message@),
            Error::Attestation(failure) => ErrorView::Attestation {
                message: failure.message@,
                classification: failure.classification,
            },
            Error::TransactionValidation(message) => ErrorView::TransactionValidation(message@),
            Error::Other(message) => ErrorView::Other(message@),
        }
    }
}

/// The policy: a failed remote call is transient, a failed attestation is
/// what the attesting side says it is, and everything else is final.
pub open spec fn classification_of(error: ErrorView) -> Classification {
    match error {
        ErrorView::Grpc(_) => Classification::Retryable,
        ErrorView::Attestation { classification, .. } => classification,
        _ => Classification::Fatal,
    }
}

/// The words for an error.
pub open spec fn text_of(error: ErrorView) -> Seq<char> {
    match error {
        ErrorView::RequestTooLarge => "The requested range was too large"@,
        ErrorView::NotFound => "Not found"@,
        ErrorView::Conversion(ConversionFailureView::ArrayCast) => {
            "Could not convert gRPC type to working type: array cast failed"@
        },
        ErrorView::Conversion(ConversionFailureView::Other(reason)) => {
            "Could not convert gRPC type to working type: "@ + reason
        },
        ErrorView::Grpc(message) => "gRPC failure: "@ + message,
        ErrorView::Cipher(message) => "Encryption/decryption failure: "@ + message,
        ErrorView::Attestation { message, .. } => "Attestation failure: "@ + message,
        ErrorView::TransactionValidation(message) => "Transaction validation failure: "@ + message,
        ErrorView::Other(message) => "Other error: "@ + message,
    }
}

impl Error {
    /// Whether the failed call should be made again, and if not, that the
    /// failure is final.
    pub fn classify(&self) -> (classification: Classification)
        ensures
            classification == classification_of(self@),
    {
        match self {
            Error::Grpc(_) => Classification::Retryable,
            Error::Attestation(failure) => failure.classification,
            _ => Classification::Fatal,
        }
    }

    /// Policy decision, whether the call should be retried.
    pub fn should_retry(&self) -> (retry: bool)
        ensures
            retry == (classification_of(self@) == Classification::Retryable),
    {
        self.classify() == Classification::Retryable
    }

    /// The error for a byte string of the wrong length.
    pub fn array_cast() -> (error: Error)
        ensures
            error@ == ErrorView::Conversion(ConversionFailureView::ArrayCast),
    {
        Error::Conversion(ConversionFailure::ArrayCast)
    }

    /// The error for a transaction that a peer refused. `refusal` holds the
    /// peer's reason where it gave one that is known, and otherwise the
    /// words for why its answer could not be understood.
    pub fn refused_transaction(refusal: Result<String, String>) -> (error: Error)
        ensures
            error@ == match refusal {
                Ok(reason) => ErrorView::TransactionValidation(reason@),
                Err(message) => ErrorView::Other(message@),
            },
    {
        match refusal {
            Ok(reason) => Error::TransactionValidation(reason),
            Err(message) => Error::Other(message),
        }
    }

    /// Gives the message of a failed remote call; any other error is handed
    /// back as it is.
    pub fn into_grpc(self) -> (result: Result<String, Error>)
        ensures
            match self@ {
                ErrorView::Grpc(message) => result matches Ok(m) && m@ == message,
                _ => result == Err::<String, Error>(self),
            },
    {
        match self {
            Error::Grpc(message) => Ok(message),
            error => Err(error),
        }
    }

    /// The error in words.
    pub fn message(&self) -> (text: String)
        ensures
            text@ == text_of(self@),
    {
        match self {
            Error::RequestTooLarge => String::from_str("The requested range was too large"),
            Error::NotFound => String::from_str("Not found"),
            Error::Conversion(ConversionFailure::ArrayCast) => String::from_str(
                "Could not convert gRPC type to working type: array cast failed",
            ),
            Error::Conversion(ConversionFailure::Other(reason)) => String::from_str(
                "Could not convert gRPC type to working type: ",
            ).concat(reason.as_str()),
            Error::Grpc(message) => String::from_str("gRPC failure: ").concat(message.as_str()),
            Error::Cipher(message) => String::from_str("Encryption/decryption failure: ").concat(
                message.as_str(),
            ),
            Error::Attestation(failure) => String::from_str("Attestation failure: ").concat(
                failure.message.as_str(),
            ),
            Error::TransactionValidation(message) => String::from_str(
                "Transaction validation failure: ",
            ).concat(message.as_str()),
            Error::Other(message) => String::from_str("Other error: ").concat(message.as_str()),
        }
    }
}

} // verus!
