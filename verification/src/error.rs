//! Error types for the transcription library.

use vstd::prelude::*;

verus! {

/// std's I/O error, carried through unchanged.
#[verifier::external_type_specification]
#[verifier::external_body]
pub struct ExIoError(std::io::Error);

/// std `<std::io::Error as Display>::fmt`, rendered to a `String`.
///
/// Nothing is claimed of the text: it is whatever the I/O error reports.
#[verifier::external_body]
pub(crate) fn io_error_text(e: &std::io::Error) -> String {
    e.to_string()
}

/// Errors that can occur during transcription.
#[derive(Debug)]
pub enum TranscriptionError {
    /// The audio file could not be found.
    FileNotFound(String),
    /// The audio file format is not supported.
    UnsupportedFormat(String),
    /// The model could not be loaded.
    ModelLoadError(String),
    /// The transcription operation failed.
    TranscriptionFailed(String),
    /// The backend is not available or not configured.
    BackendNotAvailable(String),
    /// Invalid configuration provided.
    InvalidConfig(String),
    /// Converting the audio to the format the model needs failed.
    ConversionFailed(String),
    /// A transcription service answered with an error.
    ApiError(String),
    /// A transcription service did not finish in time.
    ApiTimeout(String),
    /// An I/O error occurred.
    IoError(std::io::Error),
    /// The transcription was stopped on request.
    Cancelled,
    /// An unexpected error occurred.
    Other(String),
}

/// Result type alias for transcription operations.
pub type Result<T> = std::result::Result<T, TranscriptionError>;

impl TranscriptionError {
    /// The fixed text that starts the rendering of each kind of error.
    pub open spec fn message_prefix(&self) -> Seq<char> {
        match self {
            TranscriptionError::FileNotFound(_) => "Audio file not found: "@,
            TranscriptionError::UnsupportedFormat(_) => "Unsupported audio format: "@,
            TranscriptionError::ModelLoadError(_) => "Failed to load model: "@,
            TranscriptionError::TranscriptionFailed(_) => "Transcription failed: "@,
            TranscriptionError::BackendNotAvailable(_) => "Backend not available: "@,
            TranscriptionError::InvalidConfig(_) => "Invalid configuration: "@,
            TranscriptionError::ConversionFailed(_) => "Audio conversion failed: "@,
            TranscriptionError::ApiError(_) => "API error: "@,
            TranscriptionError::ApiTimeout(_) => "API timeout: "@,
            TranscriptionError::IoError(_) => "I/O error: "@,
            TranscriptionError::Cancelled => "Transcription stopped by the user"@,
            TranscriptionError::Other(_) => "Unexpected error: "@,
        }
    }

    /// The text an error carries, where it carries one of its own.
    pub open spec fn detail(&self) -> Option<Seq<char>> {
        match self {
            TranscriptionError::FileNotFound(s) => Some(s@),
            TranscriptionError::UnsupportedFormat(s) => Some(s@),
            TranscriptionError::ModelLoadError(s) => Some(s@),
            TranscriptionError::TranscriptionFailed(s) => Some(s@),
            TranscriptionError::BackendNotAvailable(s) => Some(s@),
            TranscriptionError::InvalidConfig(s) => Some(s@),
            TranscriptionError::ConversionFailed(s) => Some(s@),
            TranscriptionError::ApiError(s) => Some(s@),
            TranscriptionError::ApiTimeout(s) => Some(s@),
            TranscriptionError::IoError(_) => None,
            TranscriptionError::Cancelled => Some(Seq::empty()),
            TranscriptionError::Other(s) => Some(s@),
        }
    }

    /// Human-readable rendering of the error: its prefix, then its text.
    ///
    /// For an I/O error the text after the prefix is the I/O error's own.
    pub fn to_string(&self) -> (r: String)
        ensures
            self.detail() matches Some(d) ==> r@ == self.message_prefix() + d,
            self.detail() is None ==> {
                &&& self.message_prefix().len() <= r@.len()
                &&& r@.subrange(0, self.message_prefix().len() as int) == self.message_prefix()
            },
    {
        match self {
            TranscriptionError::FileNotFound(s) => String::from_str("Audio file not found: ").concat(
                s.as_str(),
            ),
            TranscriptionError::UnsupportedFormat(s) => String::from_str(
                "Unsupported audio format: ",
            ).concat(s.as_str()),
            TranscriptionError::ModelLoadError(s) => String::from_str(
                "Failed to load model: ",
            ).concat(s.as_str()),
            TranscriptionError::TranscriptionFailed(s) => String::from_str(
                "Transcription failed: ",
            ).concat(s.as_str()),
            TranscriptionError::BackendNotAvailable(s) => String::from_str(
                "Backend not available: ",
            ).concat(s.as_str()),
            TranscriptionError::InvalidConfig(s) => String::from_str(
                "Invalid configuration: ",
            ).concat(s.as_str()),
            TranscriptionError::ConversionFailed(s) => String::from_str(
                "Audio conversion failed: ",
            ).concat(s.as_str()),
            TranscriptionError::ApiError(s) => String::from_str("API error: ").concat(s.as_str()),
            TranscriptionError::ApiTimeout(s) => String::from_str("API timeout: ").concat(
                s.as_str(),
            ),
            TranscriptionError::IoError(e) => {
                let t = io_error_text(e);
                let r = String::from_str("I/O error: ").concat(t.as_str());
                assert(r@.subrange(0, "I/O error: "@.len() as int) =~= "I/O error: "@);
                r
            },
            TranscriptionError::Cancelled => {
                let r = String::from_str("Transcription stopped by the user");
                assert(r@ =~= "Transcription stopped by the user"@ + Seq::<char>::empty());
                r
            },
            TranscriptionError::Other(s) => String::from_str("Unexpected error: ").concat(
                s.as_str(),
            ),
        }
    }
}

impl From<std::io::Error> for TranscriptionError {
    fn from(e: std::io::Error) -> (r: Self) {
        TranscriptionError::IoError(e)
    }
}

impl vstd::std_specs::convert::FromSpecImpl<std::io::Error> for TranscriptionError {
    open spec fn obeys_from_spec() -> bool {
        true
    }

    open spec fn from_spec(v: std::io::Error) -> Self {
        TranscriptionError::IoError(v)
    }
}

} // verus!
