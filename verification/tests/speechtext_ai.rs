use voice_transcription::backends::speechtext_ai::{
    check_status, interpret_submit, parse_results, request_language, PollAction,
    RecognizeReply, ResultsReply, ResultsText, SpeechTextAIBackend, SpeechTextAIOptions,
};
use voice_transcription::{BackendConfig, TranscriptionConfig, TranscriptionError};

fn backend(key: &str) -> SpeechTextAIBackend {
    SpeechTextAIBackend::new(BackendConfig::new().with_api_key(key)).unwrap()
}

fn reply(status: &str, transcript: Option<&str>, error: Option<&str>) -> ResultsReply {
    ResultsReply {
        status: status.to_string(),
        results: transcript.map(|t| ResultsText { transcript: Some(t.to_string()) }),
        error: error.map(|e| e.to_string()),
    }
}

#[test]
fn test_options_default() {
    let options = SpeechTextAIOptions::new();
    assert!(options.punctuation);
    assert!(!options.summary);
    assert!(!options.highlights);
    assert_eq!(options.number_of_speakers, 0);
    assert!(options.caption_output.is_none());
    assert!(options.custom_vocabulary.is_empty());
}

#[test]
fn test_options_builder() {
    let options = SpeechTextAIOptions::new()
        .with_punctuation(true)
        .with_summary(true)
        .with_highlights(true)
        .with_speakers(2)
        .with_caption_output("srt")
        .with_custom_vocabulary(vec!["word1".to_string(), "word2".to_string()]);

    assert!(options.punctuation);
    assert!(options.summary);
    assert!(options.highlights);
    assert_eq!(options.number_of_speakers, 2);
    assert_eq!(options.caption_output, Some("srt".to_string()));
    assert_eq!(options.custom_vocabulary.len(), 2);
}

#[test]
fn test_backend_requires_api_key() {
    let config = BackendConfig::new();
    let result = SpeechTextAIBackend::new(config);
    assert!(result.is_err());
    let err = result.unwrap_err();
    assert!(err.to_string().contains("API key is required"));
}

#[test]
fn test_backend_with_api_key() {
    let config = BackendConfig::new().with_api_key("test-key-123");
    let result = SpeechTextAIBackend::new(config);
    assert!(result.is_ok());
    let backend = result.unwrap();
    assert_eq!(backend.name(), "speechtext_ai");
    assert!(backend.is_ready());
}

#[test]
fn test_backend_supported_features() {
    let config = BackendConfig::new().with_api_key("test-key");
    let backend = SpeechTextAIBackend::new(config).unwrap();
    let features = backend.supported_features();
    assert!(features.contains(&"punctuation"));
    assert!(features.contains(&"summary"));
    assert!(features.contains(&"highlights"));
    assert!(features.contains(&"speaker_diarization"));
}

#[test]
fn test_backend_options_from_config() {
    let config = BackendConfig::new()
        .with_api_key("test-key")
        .with_option("punctuation", "true")
        .with_option("summary", "true")
        .with_option("poll_interval", "10");

    let backend = SpeechTextAIBackend::new(config).unwrap();
    assert!(backend.default_options.punctuation);
    assert!(backend.default_options.summary);
    assert_eq!(
        std::time::Duration::from_secs(backend.poll_interval_secs),
        std::time::Duration::from_secs(10)
    );
}

#[test]
fn default_options_are_all_off() {
    let options = SpeechTextAIOptions::default();
    assert!(!options.punctuation);
    assert!(!options.summary);
    assert!(!options.highlights);
    assert_eq!(options.number_of_speakers, 0);
}

#[test]
fn settings_fall_back_to_defaults() {
    let b = SpeechTextAIBackend::new(
        BackendConfig::new()
            .with_api_key("k")
            .with_option("punctuation", "yes")
            .with_option("highlights", "1")
            .with_option("poll_interval", "soon")
            .with_option("timeout", "+60"),
    )
    .unwrap();
    assert!(!b.default_options.punctuation);
    assert!(b.default_options.highlights);
    assert!(!b.default_options.summary);
    assert_eq!(b.poll_interval_secs, 5);
    assert_eq!(b.timeout_secs, 60);
    let plain = backend("k");
    assert!(plain.default_options.punctuation);
    assert_eq!(plain.timeout_secs, 1800);
}

#[test]
fn empty_key_is_not_ready() {
    assert!(!backend("").is_ready());
}

#[test]
fn request_options_take_the_speaker_count() {
    let b = backend("k");
    let o = b.build_options(&TranscriptionConfig::new().with_speaker_count(3));
    assert_eq!(o.number_of_speakers, 3);
    assert!(o.punctuation);
    let o = b.build_options(&TranscriptionConfig::new());
    assert_eq!(o.number_of_speakers, 0);
}

#[test]
fn request_language_defaults_to_hebrew() {
    assert_eq!(request_language(&TranscriptionConfig::new()), "he-IL");
    assert_eq!(request_language(&TranscriptionConfig::new().with_language("en")), "en-US");
    assert_eq!(request_language(&TranscriptionConfig::new().with_language("ru-ru")), "ru-RU");
}

#[test]
fn submit_url_carries_the_query() {
    let b = backend("KEY");
    let o = SpeechTextAIOptions::new();
    assert_eq!(
        b.submit_url("he-IL", &o),
        "https://api.speechtext.ai/recognize?key=KEY&language=he-IL&punctuation=true"
    );
    let o = SpeechTextAIOptions::new()
        .with_punctuation(false)
        .with_speakers(2)
        .with_custom_vocabulary(vec!["alpha".to_string(), "beta".to_string()]);
    assert_eq!(
        b.submit_url("en-US", &o),
        "https://api.speechtext.ai/recognize?key=KEY&language=en-US&punctuation=false&numberOfSpeakers=2&customVocabulary=alpha,beta"
    );
}

#[test]
fn results_url_names_the_task() {
    assert_eq!(
        backend("KEY").results_url("t-1"),
        "https://api.speechtext.ai/results?key=KEY&task=t-1"
    );
}

#[test]
fn submit_reply_errors() {
    let e = interpret_submit(false, "400 Bad Request", "oops", Err("x".to_string())).unwrap_err();
    assert_eq!(e.to_string(), "API error: API returned status 400 Bad Request: oops");
    let e = interpret_submit(true, "200 OK", "{", Err("EOF".to_string())).unwrap_err();
    assert_eq!(e.to_string(), "API error: Failed to parse response: EOF - body: {");
    let parsed = RecognizeReply { id: None, error: Some("quota".to_string()) };
    let e = interpret_submit(true, "200 OK", "b", Ok(parsed)).unwrap_err();
    assert_eq!(e.to_string(), "API error: API error: quota (full response: b)");
    let parsed = RecognizeReply { id: None, error: None };
    let e = interpret_submit(true, "200 OK", "{}", Ok(parsed)).unwrap_err();
    assert_eq!(e.to_string(), "API error: No task id in response. Full response: {}");
    let parsed = RecognizeReply { id: Some("abc".to_string()), error: None };
    assert_eq!(interpret_submit(true, "200 OK", "", Ok(parsed)).unwrap(), "abc");
}

#[test]
fn status_of_a_task() {
    assert_eq!(check_status(&reply("completed", Some("shalom"), None)).unwrap(), Some("shalom".to_string()));
    assert_eq!(check_status(&reply("SUCCESS", Some("x"), None)).unwrap(), Some("x".to_string()));
    assert_eq!(check_status(&reply("processing", None, None)).unwrap(), None);
    match check_status(&reply("FAILED", None, None)) {
        Err(TranscriptionError::TranscriptionFailed(m)) => {
            assert_eq!(m, "Transcription failed on the server")
        }
        other => panic!("unexpected: {:?}", other),
    }
    match check_status(&reply("completed", None, Some("bad key"))) {
        Err(TranscriptionError::ApiError(m)) => assert_eq!(m, "bad key"),
        other => panic!("unexpected: {:?}", other),
    }
    match check_status(&reply("finished", None, None)) {
        Err(TranscriptionError::TranscriptionFailed(m)) => {
            assert_eq!(m, "No results in completed response")
        }
        other => panic!("unexpected: {:?}", other),
    }
}

#[test]
fn missing_transcript_is_empty() {
    let r = parse_results(&Some(ResultsText { transcript: None })).unwrap();
    assert_eq!(r, "");
}

#[test]
fn polling_times_out() {
    let b = SpeechTextAIBackend::new(BackendConfig::new().with_api_key("K").with_option("timeout", "2")).unwrap();
    match b.poll_begin("t", 2_000_000_000) {
        PollAction::Fetch { url } => assert_eq!(url, "https://api.speechtext.ai/results?key=K&task=t"),
        _ => panic!("expected a fetch"),
    }
    match b.poll_begin("t", 2_000_000_001) {
        PollAction::Finished(Err(TranscriptionError::ApiTimeout(m))) => {
            assert_eq!(m, "Transcription timed out after 2s")
        }
        _ => panic!("expected a time-out"),
    }
    let z = SpeechTextAIBackend::new(BackendConfig::new().with_api_key("K").with_option("timeout", "0")).unwrap();
    match z.poll_begin("t", 1) {
        PollAction::Finished(Err(e)) => assert_eq!(e.to_string(), "API timeout: Transcription timed out after 0ns"),
        _ => panic!("expected a time-out"),
    }
}

#[test]
fn polling_waits_while_the_task_runs() {
    let b = backend("K");
    match b.poll_reply(Ok(reply("queued", None, None))) {
        PollAction::Wait { secs } => assert_eq!(secs, 5),
        _ => panic!("expected to wait"),
    }
    match b.poll_reply(Ok(reply("completed", Some("done"), None))) {
        PollAction::Finished(Ok(t)) => assert_eq!(t, "done"),
        _ => panic!("expected the transcript"),
    }
    match b.poll_reply(Err(TranscriptionError::ApiError("net".to_string()))) {
        PollAction::Finished(Err(TranscriptionError::ApiError(m))) => assert_eq!(m, "net"),
        _ => panic!("expected the error"),
    }
}
