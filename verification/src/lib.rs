//! Voice transcription: the verified core of a transcription library with
//! pluggable backends.

pub mod android;
pub mod audio;
pub mod backend;
pub mod backends;
pub mod cancel;
pub mod client;
pub mod error;
pub mod language;
pub mod language_laws;
pub mod schema;
pub mod table;
pub mod text;
pub mod types;

pub use backend::BackendConfig;
pub use error::{Result, TranscriptionError};
pub use types::TranscriptionConfig;
