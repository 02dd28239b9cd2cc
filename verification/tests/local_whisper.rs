use voice_transcription::audio::AudioConverter;
use voice_transcription::backends::local_whisper::{
    assemble_transcript, decode_pcm16, find_wav_data, run_outcome, LocalWhisperBackend,
    WhisperSegment,
};
use voice_transcription::{BackendConfig, TranscriptionError};

fn wav_with(samples: &[i16], extra_chunk: bool) -> Vec<u8> {
    let mut v = Vec::new();
    v.extend_from_slice(b"RIFF");
    v.extend_from_slice(&0u32.to_le_bytes());
    v.extend_from_slice(b"WAVE");
    v.extend_from_slice(b"fmt ");
    v.extend_from_slice(&16u32.to_le_bytes());
    v.extend_from_slice(&[1, 0, 1, 0]);
    v.extend_from_slice(&16000u32.to_le_bytes());
    v.extend_from_slice(&32000u32.to_le_bytes());
    v.extend_from_slice(&[2, 0, 16, 0]);
    if extra_chunk {
        v.extend_from_slice(b"LIST");
        v.extend_from_slice(&3u32.to_le_bytes());
        v.extend_from_slice(&[1, 2, 3, 0]); // odd size, padded
    }
    v.extend_from_slice(b"data");
    v.extend_from_slice(&((samples.len() * 2) as u32).to_le_bytes());
    for s in samples {
        v.extend_from_slice(&s.to_le_bytes());
    }
    v
}

fn seg(text: &str, t0: i64, t1: i64) -> WhisperSegment {
    WhisperSegment { text: text.to_string(), t0, t1 }
}

#[test]
fn backend_needs_a_model_file() {
    let conv = || AudioConverter::with_cache_dir("/c".to_string());
    match LocalWhisperBackend::new(BackendConfig::new(), true, conv()) {
        Err(TranscriptionError::InvalidConfig(m)) => assert_eq!(m, "Model path is required"),
        _ => panic!("expected a configuration error"),
    }
    match LocalWhisperBackend::new(BackendConfig::new().with_model_path("/m.bin"), false, conv()) {
        Err(TranscriptionError::ModelLoadError(m)) => assert_eq!(m, "Model file not found: /m.bin"),
        _ => panic!("expected a missing model"),
    }
    let b = LocalWhisperBackend::new(BackendConfig::new().with_model_path("/m.bin"), true, conv()).ok().unwrap();
    assert_eq!(b.model_path, "/m.bin");
    assert!(b.is_ready());
    assert_eq!(b.name(), "local_whisper");
    assert_eq!(b.supported_features(), vec!["language_detection", "timestamps", "word_timestamps"]);
    assert_eq!(b.audio_converter.cache_dir(), "/c");
}

#[test]
fn data_chunk_is_found() {
    let w = wav_with(&[1, -2, 300], false);
    assert_eq!(find_wav_data(&w).ok().unwrap(), (44, 6));
    let w = wav_with(&[1, -2, 300], true);
    assert_eq!(find_wav_data(&w).ok().unwrap(), (56, 6));
    assert_eq!(decode_pcm16(&w, 56, 6), vec![1, -2, 300]);
}

#[test]
fn samples_decode_little_endian_signed() {
    let bytes = [0x00, 0x80, 0xff, 0x7f, 0x01, 0x00, 0x09];
    assert_eq!(decode_pcm16(&bytes, 0, 7), vec![-32768, 32767, 1]);
}

#[test]
fn bad_wav_files() {
    let msg = |r: Result<(usize, usize), TranscriptionError>| match r {
        Err(TranscriptionError::UnsupportedFormat(m)) => m,
        _ => panic!("expected an error"),
    };
    assert_eq!(msg(find_wav_data(b"RIFF")), "File too small to be a valid WAV");
    let mut not_wave = wav_with(&[0; 4], false);
    not_wave[8] = b'X';
    assert_eq!(msg(find_wav_data(&not_wave)), "Not a valid WAV file");
    let empty = wav_with(&[], false);
    assert_eq!(msg(find_wav_data(&empty)), "Could not find data chunk in WAV file");
    let mut no_data = wav_with(&[0; 4], false);
    no_data[36..40].copy_from_slice(b"junk");
    assert_eq!(msg(find_wav_data(&no_data)), "Could not find data chunk in WAV file");
}

#[test]
fn transcript_from_segments() {
    let segs = vec![seg(" Hello", 0, 150), seg(" world. ", 150, 320)];
    let t = assemble_transcript(&segs, &Some("en".to_string()));
    assert_eq!(t.content, "Hello world.");
    assert_eq!(t.languages, Some(vec!["en".to_string()]));
    assert_eq!(t.duration_centis, Some(320));
    let t = assemble_transcript(&[], &None);
    assert_eq!(t.content, "");
    assert_eq!(t.languages, None);
    assert_eq!(t.duration_centis, None);
}

#[test]
fn stop_request_wins_over_the_run() {
    assert!(matches!(run_outcome(true, Ok(())), Err(TranscriptionError::Cancelled)));
    assert!(matches!(run_outcome(true, Err("x".to_string())), Err(TranscriptionError::Cancelled)));
    assert!(run_outcome(false, Ok(())).is_ok());
    match run_outcome(false, Err("no samples".to_string())) {
        Err(TranscriptionError::TranscriptionFailed(m)) => assert_eq!(m, "Transcription failed: no samples"),
        _ => panic!("expected a failure"),
    }
}
