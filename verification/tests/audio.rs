use voice_transcription::audio::{
    cache_file_name, clear_cache, conversion_result,
    ffmpeg_args, has_wav_extension, is_valid_wav_header, join_path_str, last_line_of,
    AudioConverter, CacheEntry, CacheProbe, FfmpegOutcome, PrepareAction, PrepareEvent,
};
use voice_transcription::TranscriptionError;

/// A minimal valid WAV header (16kHz, mono, 16-bit) with no samples.
fn test_wav() -> Vec<u8> {
    let data_size: u32 = 0;
    let file_size: u32 = 36 + data_size;
    let mut file = Vec::new();
    file.extend_from_slice(b"RIFF");
    file.extend_from_slice(&file_size.to_le_bytes());
    file.extend_from_slice(b"WAVE");
    file.extend_from_slice(b"fmt ");
    file.extend_from_slice(&16u32.to_le_bytes()); // fmt chunk size
    file.extend_from_slice(&1u16.to_le_bytes()); // audio format (PCM)
    file.extend_from_slice(&1u16.to_le_bytes()); // channels (mono)
    file.extend_from_slice(&16000u32.to_le_bytes()); // sample rate
    file.extend_from_slice(&32000u32.to_le_bytes()); // byte rate
    file.extend_from_slice(&2u16.to_le_bytes()); // block align
    file.extend_from_slice(&16u16.to_le_bytes()); // bits per sample
    file.extend_from_slice(b"data");
    file.extend_from_slice(&data_size.to_le_bytes());
    file
}

fn entry(name: &str, is_file: bool, size: u64) -> CacheEntry {
    CacheEntry { file_name: name.to_string(), is_file, size: Some(size) }
}

fn step(c: &AudioConverter, path: &str, nocache: bool, pending: &PrepareAction, ev: PrepareEvent) -> PrepareAction {
    c.prepare(path, nocache, pending, ev)
}

#[test]
fn test_is_valid_wav() {
    assert!(is_valid_wav_header(&test_wav()));
}

#[test]
fn test_is_valid_wav_wrong_format() {
    assert!(!is_valid_wav_header(b"not a wav file"));
}

#[test]
fn wav_header_checks_each_field() {
    let good = test_wav();
    let mut stereo = good.clone();
    stereo[22] = 2;
    assert!(!is_valid_wav_header(&stereo));
    let mut rate = good.clone();
    rate[24..28].copy_from_slice(&44100u32.to_le_bytes());
    assert!(!is_valid_wav_header(&rate));
    let mut float = good.clone();
    float[20] = 3;
    assert!(!is_valid_wav_header(&float));
    let mut bits = good.clone();
    bits[34] = 24;
    assert!(!is_valid_wav_header(&bits));
    assert!(!is_valid_wav_header(&good[..43]));
}

#[test]
fn test_cache_path_generation() {
    let converter = AudioConverter::with_cache_dir("/tmp/t1/cache".to_string());
    let cache_path = converter.cache_path_for("/tmp/t1/test.mp3", 1_700_000_000);
    assert!(cache_path.starts_with("/tmp/t1/cache/"));
    assert!(has_wav_extension(&cache_path));
}

#[test]
fn cache_name_is_the_hash_of_path_and_time() {
    assert_eq!(cache_file_name("/tmp/audio/talk.mp3", 1_700_000_000), "3f9cce6b1033558e.wav");
    assert_ne!(
        cache_file_name("/tmp/audio/talk.mp3", 1_700_000_001),
        cache_file_name("/tmp/audio/talk.mp3", 1_700_000_000)
    );
}

#[test]
fn test_cache_size_empty() {
    let entries: Vec<CacheEntry> = Vec::new();
    assert_eq!(AudioConverter::cache_size(&entries), Some(0));
    assert_eq!(AudioConverter::cache_file_count(&entries), 0);
}

#[test]
fn test_clear_cache() {
    let entries = vec![
        entry("abc123.wav", true, 10),
        entry("def456.wav", true, 10),
        entry("other.txt", true, 9),
    ];
    let removed = clear_cache(&entries, &[true, true, true]);
    assert_eq!(removed, 2);
}

#[test]
fn cache_counts_only_wav_files() {
    let entries = vec![
        entry("a.wav", true, 100),
        entry("b.WAV", true, 1),
        entry(".wav", true, 1),
        entry("dir.wav", false, 1),
        entry("c.wav", true, 28),
    ];
    assert_eq!(AudioConverter::cache_file_count(&entries), 2);
    assert_eq!(AudioConverter::cache_size(&entries), Some(128));
    assert_eq!(clear_cache(&entries, &[true, true, true, true, false]), 1);
    assert_eq!(clear_cache(&entries, &[true]), 1);
}

#[test]
fn default_cache_dir() {
    assert_eq!(AudioConverter::new(Some("/home/u/.cache")).cache_dir(), "/home/u/.cache/voice-transcription");
    assert_eq!(AudioConverter::new(None).cache_dir(), "/tmp/voice-transcription");
    assert_eq!(join_path_str("/a/", "b"), "/a/b");
    assert_eq!(join_path_str("", "b"), "b");
}

#[test]
fn ffmpeg_command() {
    assert_eq!(
        ffmpeg_args("in.mp3", "out.wav"),
        vec!["-y", "-i", "in.mp3", "-ar", "16000", "-ac", "1", "-c:a", "pcm_s16le", "-f", "wav", "out.wav"]
    );
}

#[test]
fn ffmpeg_failures() {
    assert!(conversion_result(FfmpegOutcome::Exited { success: true, stderr: String::new() }).is_ok());
    let e = conversion_result(FfmpegOutcome::Exited {
        success: false,
        stderr: "line one\nInvalid data found\n".to_string(),
    })
    .unwrap_err();
    assert_eq!(e.to_string(), "Audio conversion failed: ffmpeg failed: Invalid data found");
    let e = conversion_result(FfmpegOutcome::Exited { success: false, stderr: String::new() }).unwrap_err();
    assert_eq!(e.to_string(), "Audio conversion failed: ffmpeg failed: unknown error");
    let e = conversion_result(FfmpegOutcome::NotFound).unwrap_err();
    assert_eq!(
        e.to_string(),
        "Audio conversion failed: ffmpeg not found. Please install ffmpeg to convert audio files."
    );
    let e = conversion_result(FfmpegOutcome::LaunchFailed("denied".to_string())).unwrap_err();
    assert_eq!(e.to_string(), "Audio conversion failed: Failed to run ffmpeg: denied");
}

#[test]
fn last_line_as_str_lines_reads_it() {
    assert_eq!(last_line_of("a\nb"), Some("b".to_string()));
    assert_eq!(last_line_of("a\r\nb\r\n"), Some("b".to_string()));
    assert_eq!(last_line_of("a\n\n"), Some("".to_string()));
    assert_eq!(last_line_of(""), None);
}

#[test]
fn test_prepare_valid_wav() {
    let converter = AudioConverter::with_cache_dir("/tmp/t/cache".to_string());
    let wav_path = "/tmp/t/test.wav";
    let a = AudioConverter::prepare_start();
    let a = step(&converter, wav_path, false, &a, PrepareEvent::Exists(true));
    let a = step(&converter, wav_path, false, &a, PrepareEvent::Header(test_wav()));
    match a {
        PrepareAction::Finished(Ok(prepared)) => {
            assert_eq!(prepared.path, wav_path);
            assert!(!prepared.was_converted);
        }
        _ => panic!("expected the file itself"),
    }
}

#[test]
fn prepare_missing_file() {
    let converter = AudioConverter::with_cache_dir("/c".to_string());
    let a = AudioConverter::prepare_start();
    match step(&converter, "/x.mp3", false, &a, PrepareEvent::Exists(false)) {
        PrepareAction::Finished(Err(TranscriptionError::FileNotFound(p))) => assert_eq!(p, "/x.mp3"),
        _ => panic!("expected not found"),
    }
}

#[test]
fn prepare_uses_a_fresh_valid_cached_copy() {
    let c = AudioConverter::with_cache_dir("/c".to_string());
    let a = step(&c, "/x.mp3", false, &AudioConverter::prepare_start(), PrepareEvent::Exists(true));
    let a = step(&c, "/x.mp3", false, &a, PrepareEvent::Header(b"ID3".to_vec()));
    let a = step(&c, "/x.mp3", false, &a, PrepareEvent::Source(Ok(("/abs/x.mp3".to_string(), 5))));
    let cache_path = c.cache_path_for("/abs/x.mp3", 5);
    match &a {
        PrepareAction::InspectCache { cache_path: p } => assert_eq!(p, &cache_path),
        _ => panic!("expected a look at the cache"),
    }
    let probe = CacheProbe::Present { fresh: true, header: test_wav() };
    match step(&c, "/x.mp3", false, &a, PrepareEvent::Cache(Ok(probe))) {
        PrepareAction::Finished(Ok(p)) => {
            assert_eq!(p.path, cache_path);
            assert!(!p.was_converted);
        }
        _ => panic!("expected the cached copy"),
    }
}

#[test]
fn prepare_replaces_a_broken_cached_copy() {
    let c = AudioConverter::with_cache_dir("/c".to_string());
    let cache_path = c.cache_path_for("/abs/x.mp3", 5);
    let a = PrepareAction::InspectCache { cache_path: cache_path.clone() };
    let probe = CacheProbe::Present { fresh: true, header: b"junk".to_vec() };
    let a = step(&c, "/x.mp3", false, &a, PrepareEvent::Cache(Ok(probe)));
    match &a {
        PrepareAction::RemoveCache { cache_path: p } => assert_eq!(p, &cache_path),
        _ => panic!("expected a removal"),
    }
    let a = step(&c, "/x.mp3", false, &a, PrepareEvent::Removed);
    match &a {
        PrepareAction::Convert { cache_path: p, args } => {
            assert_eq!(p, &cache_path);
            assert_eq!(args[2], "/x.mp3");
            assert_eq!(args[11], cache_path);
        }
        _ => panic!("expected a conversion"),
    }
    let done = step(&c, "/x.mp3", false, &a, PrepareEvent::Converted(Ok(FfmpegOutcome::Exited { success: true, stderr: String::new() })));
    match done {
        PrepareAction::Finished(Ok(p)) => {
            assert_eq!(p.path, cache_path);
            assert!(p.was_converted);
        }
        _ => panic!("expected the converted copy"),
    }
}

#[test]
fn prepare_with_nocache_converts_directly() {
    let c = AudioConverter::with_cache_dir("/c".to_string());
    let a = step(&c, "/x.mp3", true, &PrepareAction::ResolveSource, PrepareEvent::Source(Ok(("/abs/x.mp3".to_string(), 5))));
    assert!(matches!(a, PrepareAction::Convert { .. }));
    let stale = CacheProbe::Present { fresh: false, header: Vec::new() };
    let a = step(&c, "/x.mp3", false, &PrepareAction::InspectCache { cache_path: "/c/k.wav".to_string() }, PrepareEvent::Cache(Ok(stale)));
    assert!(matches!(a, PrepareAction::Convert { .. }));
    let failed = step(&c, "/x.mp3", false, &a, PrepareEvent::Converted(Ok(FfmpegOutcome::NotFound)));
    assert!(matches!(failed, PrepareAction::Finished(Err(TranscriptionError::ConversionFailed(_)))));
}

/// Runs one preparation of `/x.mp3` (an MP3 at `/abs/x.mp3`, modified at
/// second 5) to its end, answering the cache inspection with `probe` and a
/// conversion with success.
fn prepare_once(c: &AudioConverter, probe: CacheProbe) -> (PrepareAction, usize) {
    let mut a = AudioConverter::prepare_start();
    let mut conversions = 0;
    let mut probe = Some(probe);
    loop {
        let ev = match &a {
            PrepareAction::CheckExists => PrepareEvent::Exists(true),
            PrepareAction::ReadHeader => PrepareEvent::Header(b"ID3".to_vec()),
            PrepareAction::ResolveSource => PrepareEvent::Source(Ok(("/abs/x.mp3".to_string(), 5))),
            PrepareAction::InspectCache { .. } => PrepareEvent::Cache(Ok(probe.take().unwrap())),
            PrepareAction::RemoveCache { .. } => PrepareEvent::Removed,
            PrepareAction::Convert { .. } => {
                conversions += 1;
                PrepareEvent::Converted(Ok(FfmpegOutcome::Exited { success: true, stderr: String::new() }))
            }
            PrepareAction::Finished(_) => return (a, conversions),
        };
        a = step(c, "/x.mp3", false, &a, ev);
    }
}

#[test]
fn second_preparation_reuses_the_converted_copy() {
    let c = AudioConverter::with_cache_dir("/c".to_string());
    let (first, runs) = prepare_once(&c, CacheProbe::Missing);
    assert_eq!(runs, 1);
    let first_path = match first {
        PrepareAction::Finished(Ok(p)) => {
            assert!(p.was_converted);
            p.path
        }
        _ => panic!("expected a converted copy"),
    };
    let (second, runs) = prepare_once(&c, CacheProbe::Present { fresh: true, header: test_wav() });
    assert_eq!(runs, 0);
    match second {
        PrepareAction::Finished(Ok(p)) => {
            assert_eq!(p.path, first_path);
            assert!(!p.was_converted);
        }
        _ => panic!("expected the cached copy"),
    }
}

#[test]
fn cache_file_name_is_sixteen_lower_hex_digits() {
    let name = cache_file_name("/abs/x.mp3", 5);
    assert_eq!(name.len(), 20);
    assert!(name.ends_with(".wav"));
    assert!(name[..16].chars().all(|ch| ch.is_ascii_digit() || ('a'..='f').contains(&ch)));
}
