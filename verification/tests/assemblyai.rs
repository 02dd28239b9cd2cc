use voice_transcription::backends::assemblyai::{
    format_result, transcript_request, AssemblyAIBackend, AssemblyPoll, TranscriptReply,
    UploadReply, Utterance, MAX_POLL_ATTEMPTS,
};
use voice_transcription::{BackendConfig, TranscriptionConfig, TranscriptionError};

fn transcript(status: &str) -> TranscriptReply {
    TranscriptReply {
        id: "t1".to_string(),
        status: status.to_string(),
        text: Some("hello world".to_string()),
        error: None,
        language_code: Some("en".to_string()),
        audio_duration: Some(12),
        utterances: None,
    }
}

#[test]
fn assemblyai_test_backend_config_requires_api_key() {
    let config = BackendConfig::new();
    let result = AssemblyAIBackend::new(config);
    assert!(result.is_err());
}

#[test]
fn missing_key_error_text() {
    let e = AssemblyAIBackend::new(BackendConfig::new()).err().unwrap();
    assert_eq!(e.to_string(), "Invalid configuration: AssemblyAI API key required");
    let b = AssemblyAIBackend::new(BackendConfig::new().with_api_key("k")).unwrap();
    assert_eq!(b.api_key, "k");
    assert_eq!(b.name(), "assemblyai");
    assert!(b.is_ready());
    assert_eq!(b.supported_features(), vec!["diarization", "language_detection", "punctuation"]);
}

#[test]
fn urls() {
    assert_eq!(AssemblyAIBackend::upload_url(), "https://api.assemblyai.com/v2/upload");
    assert_eq!(AssemblyAIBackend::transcript_url(), "https://api.assemblyai.com/v2/transcript");
    assert_eq!(
        AssemblyAIBackend::transcript_status_url("abc"),
        "https://api.assemblyai.com/v2/transcript/abc"
    );
}

#[test]
fn request_follows_the_configuration() {
    let r = transcript_request("https://cdn/x", &TranscriptionConfig::new());
    assert_eq!(r.audio_url, "https://cdn/x");
    assert!(!r.speaker_labels);
    assert_eq!(r.speakers_expected, None);
    assert!(r.language_detection);
    assert_eq!(r.language_code, None);
    assert!(r.punctuate && r.format_text);

    let r = transcript_request("u", &TranscriptionConfig::new().with_speaker_count(3).with_language("he"));
    assert!(r.speaker_labels);
    assert_eq!(r.speakers_expected, Some(3));
    assert!(!r.language_detection);
    assert_eq!(r.language_code, Some("he".to_string()));

    let r = transcript_request("u", &TranscriptionConfig::new().with_speaker_count(1));
    assert!(!r.speaker_labels);
    assert_eq!(r.speakers_expected, None);
}

#[test]
fn result_text_by_speaker() {
    let mut t = transcript("completed");
    t.utterances = Some(vec![
        Utterance { speaker: "A".to_string(), text: "Hi.".to_string() },
        Utterance { speaker: "B".to_string(), text: "Hello.".to_string() },
    ]);
    let r = format_result(&t);
    assert_eq!(r.text, "Speaker A: Hi.\nSpeaker B: Hello.");
    assert_eq!(r.languages, Some(vec!["en".to_string()]));
    assert_eq!(r.duration_secs, Some(12));
}

#[test]
fn result_text_plain() {
    let r = format_result(&transcript("completed"));
    assert_eq!(r.text, "hello world");
    let mut t = transcript("completed");
    t.text = None;
    t.language_code = None;
    t.audio_duration = None;
    let r = format_result(&t);
    assert_eq!(r.text, "");
    assert_eq!(r.languages, None);
    assert_eq!(r.duration_secs, None);
}

#[test]
fn reading_replies() {
    let e = AssemblyAIBackend::read_upload(false, "denied", Err("x".to_string())).unwrap_err();
    assert_eq!(e.to_string(), "API error: Upload failed: denied");
    let e = AssemblyAIBackend::read_upload(true, "", Err("bad json".to_string())).unwrap_err();
    assert_eq!(e.to_string(), "API error: Failed to parse upload response: bad json");
    let u = AssemblyAIBackend::read_upload(true, "", Ok(UploadReply { upload_url: "https://up".to_string() }));
    assert_eq!(u.unwrap(), "https://up");
    let e = AssemblyAIBackend::read_started(false, "no", Err("x".to_string())).unwrap_err();
    assert_eq!(e.to_string(), "API error: Failed to start transcription: no");
    assert_eq!(AssemblyAIBackend::read_started(true, "", Ok("id9".to_string())).unwrap(), "id9");
}

#[test]
fn polling_is_bounded() {
    match AssemblyAIBackend::poll_begin(0, "abc") {
        AssemblyPoll::Fetch { url } => assert_eq!(url, "https://api.assemblyai.com/v2/transcript/abc"),
        _ => panic!("expected a fetch"),
    }
    match AssemblyAIBackend::poll_begin(MAX_POLL_ATTEMPTS - 1, "abc") {
        AssemblyPoll::Fetch { .. } => {}
        _ => panic!("expected a fetch"),
    }
    match AssemblyAIBackend::poll_begin(MAX_POLL_ATTEMPTS, "abc") {
        AssemblyPoll::Finished(Err(TranscriptionError::ApiTimeout(m))) => {
            assert_eq!(m, "Transcription timed out")
        }
        _ => panic!("expected a time-out"),
    }
}

#[test]
fn poll_replies() {
    match AssemblyAIBackend::poll_reply(true, "", Ok(transcript("processing"))) {
        AssemblyPoll::Wait { millis } => assert_eq!(millis, 1000),
        _ => panic!("expected to wait"),
    }
    match AssemblyAIBackend::poll_reply(true, "", Ok(transcript("completed"))) {
        AssemblyPoll::Finished(Ok(t)) => assert_eq!(t.id, "t1"),
        _ => panic!("expected the transcript"),
    }
    let mut failed = transcript("error");
    failed.error = Some("audio too short".to_string());
    match AssemblyAIBackend::poll_reply(true, "", Ok(failed)) {
        AssemblyPoll::Finished(Err(e)) => {
            assert_eq!(e.to_string(), "API error: Transcription failed: audio too short")
        }
        _ => panic!("expected the error"),
    }
    match AssemblyAIBackend::poll_reply(true, "", Ok(transcript("error"))) {
        AssemblyPoll::Finished(Err(e)) => {
            assert_eq!(e.to_string(), "API error: Transcription failed: Unknown error")
        }
        _ => panic!("expected the error"),
    }
    match AssemblyAIBackend::poll_reply(false, "503", Err(String::new())) {
        AssemblyPoll::Finished(Err(e)) => assert_eq!(e.to_string(), "API error: Poll request failed: 503"),
        _ => panic!("expected the error"),
    }
}
