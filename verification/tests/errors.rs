use voice_transcription::android::TranscriptionError as AndroidError;
use voice_transcription::{Result, TranscriptionError};

#[test]
fn test_error_display_file_not_found() {
    let err = TranscriptionError::FileNotFound("/path/to/file.wav".to_string());
    assert_eq!(err.to_string(), "Audio file not found: /path/to/file.wav");
}

#[test]
fn test_error_display_unsupported_format() {
    let err = TranscriptionError::UnsupportedFormat("mp4".to_string());
    assert_eq!(err.to_string(), "Unsupported audio format: mp4");
}

#[test]
fn test_error_display_model_load_error() {
    let err = TranscriptionError::ModelLoadError("model not found".to_string());
    assert_eq!(err.to_string(), "Failed to load model: model not found");
}

#[test]
fn test_error_display_transcription_failed() {
    let err = TranscriptionError::TranscriptionFailed("timeout".to_string());
    assert_eq!(err.to_string(), "Transcription failed: timeout");
}

#[test]
fn test_error_display_backend_not_available() {
    let err = TranscriptionError::BackendNotAvailable("whisper".to_string());
    assert_eq!(err.to_string(), "Backend not available: whisper");
}

#[test]
fn test_error_display_invalid_config() {
    let err = TranscriptionError::InvalidConfig("missing model path".to_string());
    assert_eq!(err.to_string(), "Invalid configuration: missing model path");
}

#[test]
fn test_error_display_other() {
    let err = TranscriptionError::Other("unknown error".to_string());
    assert_eq!(err.to_string(), "Unexpected error: unknown error");
}

#[test]
fn test_error_from_io_error() {
    let io_err = std::io::Error::new(std::io::ErrorKind::NotFound, "file not found");
    let err: TranscriptionError = io_err.into();
    assert!(matches!(err, TranscriptionError::IoError(_)));
}

#[test]
fn test_result_type_ok() {
    let result: Result<i32> = Ok(42);
    assert!(result.is_ok());
    assert_eq!(result.unwrap(), 42);
}

#[test]
fn test_result_type_err() {
    let result: Result<i32> = Err(TranscriptionError::Other("test".to_string()));
    assert!(result.is_err());
}

#[test]
fn error_display_service_kinds() {
    assert_eq!(
        TranscriptionError::ConversionFailed("ffmpeg failed: x".to_string()).to_string(),
        "Audio conversion failed: ffmpeg failed: x"
    );
    assert_eq!(TranscriptionError::ApiError("bad".to_string()).to_string(), "API error: bad");
    assert_eq!(TranscriptionError::ApiTimeout("late".to_string()).to_string(), "API timeout: late");
    assert_eq!(TranscriptionError::Cancelled.to_string(), "Transcription stopped by the user");
}

#[test]
fn error_display_io_error_keeps_its_text() {
    let err = TranscriptionError::IoError(std::io::Error::new(std::io::ErrorKind::Other, "disk gone"));
    assert_eq!(err.to_string(), "I/O error: disk gone");
}

#[test]
fn android_errors_keep_kind_and_text() {
    let e = AndroidError::from_core(TranscriptionError::FileNotFound("a.wav".to_string()));
    assert!(matches!(e, AndroidError::FileNotFound(ref s) if s == "a.wav"));
    assert_eq!(e.to_string(), "File not found: a.wav");
    let e = AndroidError::from_core(TranscriptionError::InvalidConfig("x".to_string()));
    assert_eq!(e.to_string(), "Invalid config: x");
    let e = AndroidError::from_core(TranscriptionError::ModelLoadError("m".to_string()));
    assert_eq!(e.to_string(), "Model load error: m");
    let e = AndroidError::from_core(TranscriptionError::Cancelled);
    assert_eq!(e.to_string(), "Transcription stopped by the user");
}

#[test]
fn android_errors_report_service_errors_as_other() {
    let e = AndroidError::from_core(TranscriptionError::ApiError("bad".to_string()));
    assert!(matches!(e, AndroidError::Other(ref s) if s == "bad"));
    let e = AndroidError::from_core(TranscriptionError::ApiTimeout("late".to_string()));
    assert_eq!(e.to_string(), "Other error: late");
}

#[test]
fn android_errors_carry_io_text() {
    let io = std::io::Error::new(std::io::ErrorKind::Other, "disk gone");
    let e = AndroidError::from_core(TranscriptionError::IoError(io));
    assert_eq!(e.to_string(), "I/O error: disk gone");
}
