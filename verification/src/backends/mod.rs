//! The transcription backends' own logic.

pub mod assemblyai;
pub mod google_cloud;
pub mod local_whisper;
pub mod reply;
pub mod speechtext_ai;
