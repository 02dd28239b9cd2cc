//! The errors the Android bindings report.
//!
//! The phone app sees a flat list of error kinds, each with a message;
//! service errors (an API's failure or time-out) reach it as "other" errors.

use vstd::prelude::*;

use crate::error::{io_error_text, TranscriptionError as CoreError};

verus! {

/// Error type for the Android bindings.
#[derive(Debug)]
pub enum TranscriptionError {
    FileNotFound(String),
    UnsupportedFormat(String),
    ModelLoadError(String),
    TranscriptionFailed(String),
    BackendNotAvailable(String),
    InvalidConfig(String),
    ConversionFailed(String),
    IoError(String),
    Cancelled,
    Other(String),
}

impl TranscriptionError {
    /// The message of an error: a fixed prefix per kind, then its text.
    pub open spec fn message(&self) -> Seq<char> {
        match self {
            TranscriptionError::FileNotFound(s) => "File not found: "@ + s@,
            TranscriptionError::UnsupportedFormat(s) => "Unsupported format: "@ + s@,
            TranscriptionError::ModelLoadError(s) => "Model load error: "@ + s@,
            TranscriptionError::TranscriptionFailed(s) => "Transcription failed: "@ + s@,
            TranscriptionError::BackendNotAvailable(s) => "Backend not available: "@ + s@,
            TranscriptionError::InvalidConfig(s) => "Invalid config: "@ + s@,
            TranscriptionError::ConversionFailed(s) => "Audio conversion failed: "@ + s@,
            TranscriptionError::IoError(s) => "I/O error: "@ + s@,
            TranscriptionError::Cancelled => "Transcription stopped by the user"@,
            TranscriptionError::Other(s) => "Other error: "@ + s@,
        }
    }

    /// Human-readable rendering of the error.
    pub fn to_string(&self) -> (r: String)
        ensures
            r@ == self.message(),
    {
        match self {
            TranscriptionError::FileNotFound(s) => String::from_str("File not found: ").concat(
                s.as_str(),
            ),
            TranscriptionError::UnsupportedFormat(s) => String::from_str(
                "Unsupported format: ",
            ).concat(s.as_str()),
            TranscriptionError::ModelLoadError(s) => String::from_str("Model load error: ").concat(
                s.as_str(),
            ),
            TranscriptionError::TranscriptionFailed(s) => String::from_str(
                "Transcription failed: ",
            ).concat(s.as_str()),
            TranscriptionError::BackendNotAvailable(s) => String::from_str(
                "Backend not available: ",
            ).concat(s.as_str()),
            TranscriptionError::InvalidConfig(s) => String::from_str("Invalid config: ").concat(
                s.as_str(),
            ),
            TranscriptionError::ConversionFailed(s) => String::from_str(
                "Audio conversion failed: ",
            ).concat(s.as_str()),
            TranscriptionError::IoError(s) => String::from_str("I/O error: ").concat(s.as_str()),
            TranscriptionError::Cancelled => String::from_str("Transcription stopped by the user"),
            TranscriptionError::Other(s) => String::from_str("Other error: ").concat(s.as_str()),
        }
    }

    /// The bindings' error for a library error: the same kind with the same
    /// text, service errors as "other" errors, and an I/O error as its text.
    pub fn from_core(e: CoreError) -> (r: Self)
        ensures
            match e {
                CoreError::FileNotFound(s) => r == TranscriptionError::FileNotFound(s),
                CoreError::UnsupportedFormat(s) => r == TranscriptionError::UnsupportedFormat(s),
                CoreError::ModelLoadError(s) => r == TranscriptionError::ModelLoadError(s),
                CoreError::TranscriptionFailed(s) => r == TranscriptionError::TranscriptionFailed(s),
                CoreError::BackendNotAvailable(s) => r == TranscriptionError::BackendNotAvailable(s),
                CoreError::InvalidConfig(s) => r == TranscriptionError::InvalidConfig(s),
                CoreError::ConversionFailed(s) => r == TranscriptionError::ConversionFailed(s),
                CoreError::ApiError(s) => r == TranscriptionError::Other(s),
                CoreError::ApiTimeout(s) => r == TranscriptionError::Other(s),
                CoreError::IoError(_) => r is IoError,
                CoreError::Cancelled => r == TranscriptionError::Cancelled,
                CoreError::Other(s) => r == TranscriptionError::Other(s),
            },
    {
        match e {
            CoreError::FileNotFound(s) => TranscriptionError::FileNotFound(s),
            CoreError::UnsupportedFormat(s) => TranscriptionError::UnsupportedFormat(s),
            CoreError::ModelLoadError(s) => TranscriptionError::ModelLoadError(s),
            CoreError::TranscriptionFailed(s) => TranscriptionError::TranscriptionFailed(s),
            CoreError::BackendNotAvailable(s) => TranscriptionError::BackendNotAvailable(s),
            CoreError::InvalidConfig(s) => TranscriptionError::InvalidConfig(s),
            CoreError::ConversionFailed(s) => TranscriptionError::ConversionFailed(s),
            CoreError::ApiError(s) => TranscriptionError::Other(s),
            CoreError::ApiTimeout(s) => TranscriptionError::Other(s),
            CoreError::IoError(io) => TranscriptionError::IoError(io_error_text(&io)),
            CoreError::Cancelled => TranscriptionError::Cancelled,
            CoreError::Other(s) => TranscriptionError::Other(s),
        }
    }
}

} // verus!
