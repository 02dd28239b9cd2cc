//! Configuration of a transcription request.

use vstd::prelude::*;

verus! {

/// Configuration for a transcription request.
#[derive(Debug, Clone)]
pub struct TranscriptionConfig {
    /// Language hint (ISO 639-1 code, e.g., "en", "he").
    /// If None, autodetection is used.
    pub language: Option<String>,
    /// Expected number of speakers for diarization.
    /// If None or 1, diarization is disabled.
    pub speaker_count: Option<u32>,
    /// Whether to include word-level timestamps.
    pub word_timestamps: bool,
    /// Model name or path (backend-specific).
    pub model: Option<String>,
    /// Skip audio conversion cache (always convert fresh).
    pub nocache: bool,
}

impl TranscriptionConfig {
    /// The configuration with nothing set: no language (detect it), no
    /// speaker count, no word timestamps, the backend's model, the cache used.
    pub open spec fn is_default(&self) -> bool {
        &&& self.language is None
        &&& self.speaker_count is None
        &&& !self.word_timestamps
        &&& self.model is None
        &&& !self.nocache
    }

    /// Create a new default configuration.
    pub fn new() -> (r: Self)
        ensures
            r.is_default(),
    {
        TranscriptionConfig {
            language: None,
            speaker_count: None,
            word_timestamps: false,
            model: None,
            nocache: false,
        }
    }

    /// Set the language hint.
    pub fn with_language(self, language: &str) -> (r: Self)
        ensures
            r.language matches Some(l) && l@ == language@,
            r.speaker_count == self.speaker_count,
            r.word_timestamps == self.word_timestamps,
            r.model == self.model,
            r.nocache == self.nocache,
    {
        TranscriptionConfig { language: Some(String::from_str(language)), ..self }
    }

    /// Set the expected speaker count.
    pub fn with_speaker_count(self, count: u32) -> (r: Self)
        ensures
            r.speaker_count == Some(count),
            r.language == self.language,
            r.word_timestamps == self.word_timestamps,
            r.model == self.model,
            r.nocache == self.nocache,
    {
        TranscriptionConfig { speaker_count: Some(count), ..self }
    }

    /// Enable word-level timestamps.
    pub fn with_word_timestamps(self) -> (r: Self)
        ensures
            r.word_timestamps,
            r.language == self.language,
            r.speaker_count == self.speaker_count,
            r.model == self.model,
            r.nocache == self.nocache,
    {
        TranscriptionConfig { word_timestamps: true, ..self }
    }

    /// Set the model name or path.
    pub fn with_model(self, model: &str) -> (r: Self)
        ensures
            r.model matches Some(m) && m@ == model@,
            r.language == self.language,
            r.speaker_count == self.speaker_count,
            r.word_timestamps == self.word_timestamps,
            r.nocache == self.nocache,
    {
        TranscriptionConfig { model: Some(String::from_str(model)), ..self }
    }

    /// Skip audio conversion cache (always convert fresh).
    pub fn with_nocache(self) -> (r: Self)
        ensures
            r.nocache,
            r.language == self.language,
            r.speaker_count == self.speaker_count,
            r.word_timestamps == self.word_timestamps,
            r.model == self.model,
    {
        TranscriptionConfig { nocache: true, ..self }
    }
}

impl Default for TranscriptionConfig {
    fn default() -> (r: Self)
        ensures
            r.is_default(),
    {
        TranscriptionConfig::new()
    }
}

} // verus!
