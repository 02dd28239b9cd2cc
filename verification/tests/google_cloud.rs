use voice_transcription::backends::google_cloud::base64::encode;
use voice_transcription::backends::google_cloud::{
    format_diarized_text, parse_response_text, GoogleAlternative, GoogleCloudBackend,
    GoogleResult, GoogleWord, SpeakerDiarization,
};
use voice_transcription::{BackendConfig, TranscriptionConfig};

fn word(w: &str, speaker: Option<&str>) -> GoogleWord {
    GoogleWord { word: w.to_string(), speaker_label: speaker.map(|s| s.to_string()) }
}

fn result(transcript: &str, words: Option<Vec<GoogleWord>>) -> GoogleResult {
    GoogleResult {
        alternatives: Some(vec![GoogleAlternative { transcript: transcript.to_string(), words }]),
    }
}

#[test]
fn google_cloud_test_backend_config_requires_api_key() {
    let config = BackendConfig::new();
    let result = GoogleCloudBackend::new(config);
    assert!(result.is_err());
}

#[test]
fn test_backend_config_requires_project_id() {
    let config = BackendConfig::new().with_api_key("test-token");
    let result = GoogleCloudBackend::new(config);
    assert!(result.is_err());
}

#[test]
fn test_base64_encode() {
    assert_eq!(encode(b"hello"), "aGVsbG8=");
    assert_eq!(encode(b"a"), "YQ==");
    assert_eq!(encode(b"ab"), "YWI=");
    assert_eq!(encode(b"abc"), "YWJj");
}

#[test]
fn base64_edge_cases() {
    assert_eq!(encode(b""), "");
    assert_eq!(encode(&[0xff, 0xfe, 0xfd]), "//79");
    assert_eq!(encode(&[0, 0, 0, 0]), "AAAAAA==");
    for n in 0..10usize {
        let data = vec![7u8; n];
        assert_eq!(encode(&data).len(), 4 * ((n + 2) / 3));
    }
}

#[test]
fn settings_and_defaults() {
    let e = GoogleCloudBackend::new(BackendConfig::new()).unwrap_err();
    assert_eq!(e.to_string(), "Invalid configuration: Google Cloud access token required");
    let e = GoogleCloudBackend::new(BackendConfig::new().with_api_key("t")).unwrap_err();
    assert_eq!(e.to_string(), "Invalid configuration: Google Cloud project_id required");
    let b = GoogleCloudBackend::new(BackendConfig::new().with_api_key("t").with_option("project_id", "p1")).unwrap();
    assert_eq!(b.access_token, "t");
    assert_eq!(b.location, "us-central1");
    assert_eq!(b.model, "chirp");
    assert_eq!(
        b.get_endpoint(),
        "https://us-central1-speech.googleapis.com/v2/projects/p1/locations/us-central1/recognizers/_:recognize"
    );
    let b = GoogleCloudBackend::new(
        BackendConfig::new()
            .with_api_key("t")
            .with_option("project_id", "p2")
            .with_option("location", "europe-west4")
            .with_model_name("long"),
    )
    .unwrap();
    assert_eq!(b.model, "long");
    assert_eq!(
        b.get_endpoint(),
        "https://europe-west4-speech.googleapis.com/v2/projects/p2/locations/europe-west4/recognizers/_:recognize"
    );
    assert_eq!(b.name(), "google_cloud");
    assert!(b.is_ready());
    assert_eq!(b.supported_features(), vec!["punctuation", "diarization"]);
}

#[test]
fn request_plan() {
    let b = GoogleCloudBackend::new(BackendConfig::new().with_api_key("t").with_option("project_id", "p")).unwrap();
    let r = b.build_request(b"abc", &TranscriptionConfig::new());
    assert_eq!(r.language_codes, vec!["en-US".to_string()]);
    assert_eq!(r.model, "chirp");
    assert!(r.enable_automatic_punctuation);
    assert_eq!(r.max_alternatives, 1);
    assert_eq!(r.diarization, None);
    assert_eq!(r.content, "YWJj");
    let r = b.build_request(b"", &TranscriptionConfig::new().with_language("he-IL").with_speaker_count(9));
    assert_eq!(r.language_codes, vec!["he-IL".to_string()]);
    assert_eq!(r.diarization, Some(SpeakerDiarization { min_speaker_count: 1, max_speaker_count: 6 }));
    let r = b.build_request(b"", &TranscriptionConfig::new().with_speaker_count(3));
    assert_eq!(r.diarization, Some(SpeakerDiarization { min_speaker_count: 1, max_speaker_count: 3 }));
    let r = b.build_request(b"", &TranscriptionConfig::new().with_speaker_count(1));
    assert_eq!(r.diarization, None);
}

#[test]
fn diarized_text_groups_runs_of_a_speaker() {
    let words = vec![
        word("Hello", Some("1")),
        word("there.", Some("1")),
        word("Hi!", Some("2")),
        word("Bye.", Some("1")),
    ];
    let t: String = format_diarized_text(&words).into_iter().collect();
    assert_eq!(t, "Speaker 1: Hello there.\nSpeaker 2: Hi!\nSpeaker 1: Bye.");
}

#[test]
fn diarized_text_without_labels() {
    let words = vec![word("a", None), word("b", None), word("c", Some("x"))];
    let t: String = format_diarized_text(&words).into_iter().collect();
    assert_eq!(t, "a b\nSpeaker x: c");
    let t: String = format_diarized_text(&[]).into_iter().collect();
    assert_eq!(t, "");
}

#[test]
fn response_text_joins_results() {
    let results = Some(vec![
        result(" one", None),
        GoogleResult { alternatives: None },
        GoogleResult { alternatives: Some(vec![]) },
        result("two ", Some(vec![word("two", Some("1"))])),
    ]);
    assert_eq!(parse_response_text(&results, None), "one two");
    assert_eq!(parse_response_text(&results, Some(2)), "one Speaker 1: two");
    assert_eq!(parse_response_text(&None, Some(2)), "");
    let first_empty = Some(vec![result("", None), result("x", None)]);
    assert_eq!(parse_response_text(&first_empty, None), "x");
}

/// Standard padded Base64 decoding, to check what `encode` gives back.
fn decode(text: &str) -> Vec<u8> {
    let alphabet = b"ABCDEFGHIJKLMNOPQRSTUVWXYZabcdefghijklmnopqrstuvwxyz0123456789+/";
    let mut out = Vec::new();
    for group in text.as_bytes().chunks(4) {
        let mut bits: u32 = 0;
        let mut n = 0;
        for &ch in group {
            if ch == b'=' {
                continue;
            }
            let v = alphabet.iter().position(|&a| a == ch).unwrap() as u32;
            bits |= v << (18 - 6 * n);
            n += 1;
        }
        let bytes = [(bits >> 16) as u8, (bits >> 8) as u8, bits as u8];
        out.extend_from_slice(&bytes[..n - 1]);
    }
    out
}

#[test]
fn base64_decodes_back() {
    for data in [&b""[..], b"M", b"Ma", b"Man", b"hello world", &[0, 255, 128, 7, 64]] {
        assert_eq!(decode(&encode(data)), data);
    }
}

#[test]
fn base64_of_whole_groups_concatenates() {
    assert_eq!(encode(b"abcdef"), encode(b"abc") + &encode(b"def"));
    assert_eq!(encode(b"abcde"), encode(b"abc") + &encode(b"de"));
    assert_eq!(encode(b"Man"), "TWFu");
    assert_eq!(encode(b"Ma"), "TWE=");
    assert_eq!(encode(b"M"), "TQ==");
}
