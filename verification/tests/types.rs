use voice_transcription::client::check_ready;
use voice_transcription::{TranscriptionConfig, TranscriptionError};

#[test]
fn test_transcription_config_default() {
    let config = TranscriptionConfig::default();
    assert!(config.language.is_none());
    assert!(config.speaker_count.is_none());
    assert!(!config.word_timestamps);
    assert!(config.model.is_none());
    assert!(!config.nocache);
}

#[test]
fn test_transcription_config_new() {
    let config = TranscriptionConfig::new();
    assert!(config.language.is_none());
    assert!(config.speaker_count.is_none());
    assert!(!config.word_timestamps);
    assert!(config.model.is_none());
    assert!(!config.nocache);
}

#[test]
fn test_transcription_config_with_language() {
    let config = TranscriptionConfig::new().with_language("en");
    assert_eq!(config.language, Some("en".to_string()));
}

#[test]
fn test_transcription_config_with_speaker_count() {
    let config = TranscriptionConfig::new().with_speaker_count(4);
    assert_eq!(config.speaker_count, Some(4));
}

#[test]
fn test_transcription_config_with_word_timestamps() {
    let config = TranscriptionConfig::new().with_word_timestamps();
    assert!(config.word_timestamps);
}

#[test]
fn test_transcription_config_with_model() {
    let config = TranscriptionConfig::new().with_model("large-v3");
    assert_eq!(config.model, Some("large-v3".to_string()));
}

#[test]
fn test_transcription_config_with_nocache() {
    let config = TranscriptionConfig::new().with_nocache();
    assert!(config.nocache);
}

#[test]
fn test_transcription_config_builder_chain() {
    let config = TranscriptionConfig::new()
        .with_language("he")
        .with_speaker_count(2)
        .with_word_timestamps()
        .with_model("base")
        .with_nocache();
    assert_eq!(config.language, Some("he".to_string()));
    assert_eq!(config.speaker_count, Some(2));
    assert!(config.word_timestamps);
    assert_eq!(config.model, Some("base".to_string()));
    assert!(config.nocache);
}

#[test]
fn client_refuses_a_backend_that_is_not_ready() {
    assert!(check_ready("mock", true).is_ok());
    match check_ready("mock", false) {
        Err(TranscriptionError::BackendNotAvailable(name)) => assert_eq!(name, "mock"),
        other => panic!("unexpected: {:?}", other),
    }
}
