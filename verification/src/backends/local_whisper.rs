//! The local Whisper backend's own logic: its configuration, reading the
//! samples out of a WAV file, and assembling whisper's segments into a
//! transcript.

use vstd::prelude::*;

use crate::audio::{le16, le32, tag_at, AudioConverter};
use crate::backend::BackendConfig;
use crate::error::TranscriptionError;
use crate::schema::{
    option_is, values_view, HasProviderSchema, OptionType, OptionValue, ProviderOption,
    ProviderSchema,
};
use crate::text::{chars_of, push_all, string_from_chars, trim, trim_chars};

verus! {

/// The model path a configuration names; an error where it names none.
pub fn model_path_of(config: &BackendConfig) -> (r: Result<String, TranscriptionError>)
    ensures
        match config.model_path {
            Some(p) => r matches Ok(q) && q@ == p@,
            None => r matches Err(TranscriptionError::InvalidConfig(m)) && m@
                == "Model path is required"@,
        },
{
    match &config.model_path {
        Some(p) => Ok(p.clone()),
        None => Err(TranscriptionError::InvalidConfig(String::from_str("Model path is required"))),
    }
}

/// The error for a model file that is not there.
pub fn model_not_found(path: &str) -> (r: TranscriptionError)
    ensures
        r matches TranscriptionError::ModelLoadError(m) && m@ == "Model file not found: "@ + path@,
{
    TranscriptionError::ModelLoadError(String::from_str("Model file not found: ").concat(path))
}

// ---------------------------------------------------------------------------
// Reading WAV samples
// ---------------------------------------------------------------------------

/// The offset and size of the first `data` chunk at or after `pos`, walking
/// the chunks of a RIFF file (each is an id, a 32-bit little-endian size and
/// the data, padded to an even length). A chunk whose header does not fit
/// ends the walk.
pub open spec fn data_chunk_from(buf: Seq<u8>, pos: int) -> Option<(int, int)>
    decreases buf.len() - pos,
{
    if pos < 0 || pos + 8 > buf.len() {
        None
    } else if tag_at(buf, pos, 0x64, 0x61, 0x74, 0x61) {
        // "data"
        Some((pos + 8, le32(buf, pos + 4)))
    } else {
        let size = le32(buf, pos + 4);
        let next = pos + 8 + size + size % 2;
        if next + 8 > buf.len() {
            None
        } else {
            data_chunk_from(buf, next)
        }
    }
}

/// Where the samples of a WAV file are: the `data` chunk, found by walking
/// the chunks after the `RIFF`/`WAVE` header; an error for a file too short
/// for a header, one that is not RIFF/WAVE, or one with no (or an empty)
/// data chunk.
pub open spec fn wav_data_spec(buf: Seq<u8>) -> Result<(int, int), Seq<char>> {
    if buf.len() < 44 {
        Err("File too small to be a valid WAV"@)
    } else if !tag_at(buf, 0, 0x52, 0x49, 0x46, 0x46) || !tag_at(buf, 8, 0x57, 0x41, 0x56, 0x45) {
        Err("Not a valid WAV file"@)
    } else {
        match data_chunk_from(buf, 12) {
            Some((start, size)) if size != 0 => Ok((start, size)),
            _ => Err("Could not find data chunk in WAV file"@),
        }
    }
}

/// The full little-endian 32-bit number in the four bytes at `i`.
pub open spec fn u32_le_at(buf: Seq<u8>, i: int) -> int {
    buf[i] as int + 256 * (buf[i + 1] as int) + 65536 * (buf[i + 2] as int) + 16777216 * (
    buf[i + 3] as int)
}

proof fn lemma_data_chunk_found(buf: Seq<u8>, pos: int)
    ensures
        data_chunk_from(buf, pos) matches Some((s, z)) ==> {
            &&& 8 <= s <= buf.len()
            &&& pos + 8 <= s
            &&& tag_at(buf, s - 8, 0x64, 0x61, 0x74, 0x61)
            &&& z == u32_le_at(buf, s - 4)
        },
    decreases buf.len() - pos,
{
    if pos >= 0 && pos + 8 <= buf.len() && !tag_at(buf, pos, 0x64, 0x61, 0x74, 0x61) {
        let size = le32(buf, pos + 4);
        let next = pos + 8 + size + size % 2;
        if next + 8 <= buf.len() {
            lemma_data_chunk_found(buf, next);
        }
    }
}

/// Law: the samples found are those of a `data` chunk, and their size is
/// the whole 32-bit little-endian number in the four bytes after the
/// chunk's id, whatever its magnitude: the reported start is just past
/// that size field, after the RIFF/WAVE header.
pub proof fn law_data_chunk_size_is_32_bits(buf: Seq<u8>)
    ensures
        wav_data_spec(buf) matches Ok((start, size)) ==> {
            &&& 20 <= start <= buf.len()
            &&& buf[start - 8] == 0x64 && buf[start - 7] == 0x61 && buf[start - 6] == 0x74
                && buf[start - 5] == 0x61
            &&& size == buf[start - 4] as int + 256 * (buf[start - 3] as int) + 65536 * (
            buf[start - 2] as int) + 16777216 * (buf[start - 1] as int)
            &&& size > 0
        },
{
    lemma_data_chunk_found(buf, 12);
}

/// Law: a WAV file laid out as ffmpeg writes it (a `RIFF`/`WAVE` header, a
/// 16-byte `fmt ` chunk, then the `data` chunk at offset 36) has its samples
/// at offset 44, and as many bytes of them as the data chunk's 32-bit size
/// field says, when that is not zero.
pub proof fn law_ffmpeg_layout(buf: Seq<u8>)
    requires
        buf.len() >= 44,
        buf[0] == 0x52 && buf[1] == 0x49 && buf[2] == 0x46 && buf[3] == 0x46,
        buf[8] == 0x57 && buf[9] == 0x41 && buf[10] == 0x56 && buf[11] == 0x45,
        buf[12] == 0x66 && buf[13] == 0x6d && buf[14] == 0x74 && buf[15] == 0x20,
        buf[16] == 16 && buf[17] == 0 && buf[18] == 0 && buf[19] == 0,
        buf[36] == 0x64 && buf[37] == 0x61 && buf[38] == 0x74 && buf[39] == 0x61,
        buf[40] != 0 || buf[41] != 0 || buf[42] != 0 || buf[43] != 0,
    ensures
        wav_data_spec(buf) == Ok::<(int, int), Seq<char>>(
            (
                44,
                buf[40] as int + 256 * (buf[41] as int) + 65536 * (buf[42] as int) + 16777216 * (
                buf[43] as int),
            ),
        ),
{
    assert(le32(buf, 16) == 16);
    assert(data_chunk_from(buf, 12) == data_chunk_from(buf, 36));
}

fn le32_at(h: &[u8], i: usize) -> (r: u64)
    requires
        i + 3 < h@.len(),
    ensures
        r as int == le32(h@, i as int),
{
    h[i] as u64 + 256 * (h[i + 1] as u64) + 65536 * (h[i + 2] as u64 + 256 * (h[i + 3] as u64))
}

/// Find the data chunk of a WAV file: its offset and size in bytes.
pub fn find_wav_data(buf: &[u8]) -> (r: Result<(usize, usize), TranscriptionError>)
    ensures
        match wav_data_spec(buf@) {
            Ok((start, size)) => r matches Ok((s, z)) && s == start && z == size,
            Err(text) => r matches Err(TranscriptionError::UnsupportedFormat(m)) && m@ == text,
        },
{
    let len = buf.len();
    if len < 44 {
        return Err(
            TranscriptionError::UnsupportedFormat(
                String::from_str("File too small to be a valid WAV"),
            ),
        );
    }
    if !(buf[0] == 0x52 && buf[1] == 0x49 && buf[2] == 0x46 && buf[3] == 0x46) || !(buf[8] == 0x57
        && buf[9] == 0x41 && buf[10] == 0x56 && buf[11] == 0x45) {
        return Err(TranscriptionError::UnsupportedFormat(String::from_str("Not a valid WAV file")));
    }
    let mut pos: usize = 12;
    let mut found: Option<(usize, usize)> = None;
    while len - pos >= 8
        invariant_except_break
            len == buf@.len(),
            pos <= len,
            data_chunk_from(buf@, 12) == data_chunk_from(buf@, pos as int),
            found is None,
        ensures
            data_chunk_from(buf@, 12) == match found {
                Some((s, z)) => Some((s as int, z as int)),
                None => None,
            },
        decreases len - pos,
    {
        let size = le32_at(buf, pos + 4);
        if buf[pos] == 0x64 && buf[pos + 1] == 0x61 && buf[pos + 2] == 0x74 && buf[pos + 3] == 0x61 {
            assert(size <= 0xffff_ffff);
            found = Some((pos + 8, size as usize));
            break;
        }
        let step: u64 = size + size % 2;
        let rest: u64 = (len - pos) as u64;
        if rest < 16 || step > rest - 16 {
            // the next chunk's header would not fit
            break;
        }
        pos = pos + 8 + step as usize;
    }
    match found {
        Some((start, size)) => {
            if size == 0 {
                return Err(
                    TranscriptionError::UnsupportedFormat(
                        String::from_str("Could not find data chunk in WAV file"),
                    ),
                );
            }
            Ok((start, size))
        },
        None => Err(
            TranscriptionError::UnsupportedFormat(
                String::from_str("Could not find data chunk in WAV file"),
            ),
        ),
    }
}

/// A 16-bit two's complement value from its unsigned form.
pub open spec fn to_i16(v: int) -> int {
    if v >= 32768 {
        v - 65536
    } else {
        v
    }
}

/// The 16-bit little-endian samples of `size` bytes at `start` (a final odd
/// byte is left out).
pub open spec fn pcm16_samples(buf: Seq<u8>, start: int, size: int) -> Seq<i16> {
    Seq::new((size / 2) as nat, |i: int| to_i16(le16(buf, start + 2 * i)) as i16)
}

/// Decode the 16-bit PCM samples of the data chunk.
pub fn decode_pcm16(buf: &[u8], start: usize, size: usize) -> (r: Vec<i16>)
    requires
        start + size <= buf@.len(),
    ensures
        r@ == pcm16_samples(buf@, start as int, size as int),
{
    let n = size / 2;
    let mut out: Vec<i16> = Vec::new();
    let mut i: usize = 0;
    while i < n
        invariant
            n == size / 2,
            start + size <= buf@.len(),
            i <= n,
            out@ == pcm16_samples(buf@, start as int, size as int).take(i as int),
        decreases n - i,
    {
        assert(2 * i + 1 < size);
        let off: usize = 2 * i;
        let blen = buf.len();
        assert(start + off + 1 < blen);
        let lo = buf[start + off] as i32;
        let hi = buf[start + off + 1] as i32;
        let v: i32 = lo + 256 * hi;
        let sample: i16 = if v >= 32768 {
            (v - 65536) as i16
        } else {
            v as i16
        };
        out.push(sample);
        assert(out@ =~= pcm16_samples(buf@, start as int, size as int).take(i as int + 1));
        i = i + 1;
    }
    assert(pcm16_samples(buf@, start as int, size as int).take(n as int) =~= pcm16_samples(
        buf@,
        start as int,
        size as int,
    ));
    out
}

/// What a whisper run amounts to: where a stop was asked for while it ran,
/// the transcription ends as stopped, whatever the run gave (the partial
/// text is thrown away); else a failed run is a transcription failure with
/// whisper's complaint.
pub fn run_outcome(stop_requested: bool, run: Result<(), String>) -> (r: Result<
    (),
    TranscriptionError,
>)
    ensures
        stop_requested ==> (r matches Err(TranscriptionError::Cancelled)),
        !stop_requested ==> match run {
            Ok(()) => r is Ok,
            Err(e) => r matches Err(TranscriptionError::TranscriptionFailed(m)) && m@
                == "Transcription failed: "@ + e@,
        },
{
    if stop_requested {
        return Err(TranscriptionError::Cancelled);
    }
    match run {
        Ok(()) => Ok(()),
        Err(e) => Err(
            TranscriptionError::TranscriptionFailed(
                String::from_str("Transcription failed: ").concat(e.as_str()),
            ),
        ),
    }
}

// ---------------------------------------------------------------------------
// Assembling whisper's output
// ---------------------------------------------------------------------------

/// One segment as whisper reports it: its text and its start and end, in
/// hundredths of a second.
pub struct WhisperSegment {
    pub text: String,
    pub t0: i64,
    pub t1: i64,
}

/// What a whisper run amounts to, before times become seconds.
pub struct WhisperTranscript {
    /// The segments' texts, joined and trimmed.
    pub content: String,
    /// The requested language, where one was given (whisper does not report
    /// the one it detected).
    pub languages: Option<Vec<String>>,
    /// The end of the last segment, in hundredths of a second.
    pub duration_centis: Option<i64>,
}

/// The segments' texts, one after the other.
pub open spec fn joined_texts(segments: Seq<WhisperSegment>) -> Seq<char>
    decreases segments.len(),
{
    if segments.len() == 0 {
        Seq::empty()
    } else {
        joined_texts(segments.drop_last()) + segments.last().text@
    }
}

/// Assemble whisper's segments into a transcript.
pub fn assemble_transcript(segments: &[WhisperSegment], language: &Option<String>) -> (r:
    WhisperTranscript)
    ensures
        r.content@ == trim(joined_texts(segments@)),
        match language {
            Some(l) => r.languages matches Some(v) && v@.len() == 1 && v@[0]@ == l@,
            None => r.languages is None,
        },
        if segments@.len() == 0 {
            r.duration_centis is None
        } else {
            r.duration_centis == Some(segments@.last().t1)
        },
{
    let n = segments.len();
    let mut full: Vec<char> = Vec::new();
    let mut i: usize = 0;
    while i < n
        invariant
            n == segments@.len(),
            i <= n,
            full@ == joined_texts(segments@.take(i as int)),
        decreases n - i,
    {
        let t = chars_of(segments[i].text.as_str());
        push_all(&mut full, t.as_slice());
        assert(segments@.take(i as int + 1).drop_last() =~= segments@.take(i as int));
        i = i + 1;
    }
    assert(segments@.take(n as int) =~= segments@);
    let trimmed = trim_chars(full.as_slice());
    let languages = match language {
        Some(l) => {
            let mut v: Vec<String> = Vec::new();
            v.push(l.clone());
            Some(v)
        },
        None => None,
    };
    let duration_centis = if n == 0 {
        None
    } else {
        Some(segments[n - 1].t1)
    };
    WhisperTranscript { content: string_from_chars(trimmed.as_slice()), languages, duration_centis }
}

// ---------------------------------------------------------------------------
// The backend
// ---------------------------------------------------------------------------

/// Local Whisper transcription backend: the model file it loads and the
/// converter that prepares audio for it.
pub struct LocalWhisperBackend {
    /// The model file.
    pub model_path: String,
    /// Whether the backend can transcribe.
    pub ready: bool,
    /// Prepares audio files for the model.
    pub audio_converter: AudioConverter,
}

impl LocalWhisperBackend {
    /// Set up the backend from a configuration, which must name a model
    /// file; `model_exists` tells whether that file is there.
    pub fn new(config: BackendConfig, model_exists: bool, audio_converter: AudioConverter) -> (r:
        Result<Self, TranscriptionError>)
        ensures
            match config.model_path {
                None => r matches Err(TranscriptionError::InvalidConfig(m)) && m@
                    == "Model path is required"@,
                Some(p) => if model_exists {
                    r matches Ok(b) && b.model_path@ == p@ && b.ready && b.audio_converter
                        == audio_converter
                } else {
                    r matches Err(TranscriptionError::ModelLoadError(m)) && m@
                        == "Model file not found: "@ + p@
                },
            },
    {
        let model_path = match model_path_of(&config) {
            Ok(p) => p,
            Err(e) => {
                return Err(e);
            },
        };
        if !model_exists {
            return Err(model_not_found(model_path.as_str()));
        }
        Ok(LocalWhisperBackend { model_path, ready: true, audio_converter })
    }

    /// The backend's name.
    pub fn name(&self) -> (r: &'static str)
        ensures
            r@ == "local_whisper"@,
    {
        "local_whisper"
    }

    /// The features the backend supports.
    pub fn supported_features(&self) -> (r: Vec<&'static str>)
        ensures
            r@.len() == 3,
            r@[0]@ == "language_detection"@,
            r@[1]@ == "timestamps"@,
            r@[2]@ == "word_timestamps"@,
    {
        vec!["language_detection", "timestamps", "word_timestamps"]
    }

    /// Whether the backend can transcribe.
    pub fn is_ready(&self) -> (r: bool)
        ensures
            r == self.ready,
    {
        self.ready
    }
}

impl HasProviderSchema for LocalWhisperBackend {
    /// The options this provider offers for configuration.
    fn get_provider_schema() -> (r: ProviderSchema)
        ensures
            r.provider_id@ == "local_whisper"@,
            r.provider_name@ == "Local Whisper"@,
            r.options@.len() == 2,
            option_is(
                r.options@[0],
                "model"@,
                "Model"@,
                OptionType::Select,
                false,
                "base"@,
                seq![
                    ("tiny"@, "tiny (75MB, fastest)"@),
                    ("tiny.en"@, "tiny.en (75MB, English only)"@),
                    ("base"@, "base (142MB, recommended)"@),
                    ("base.en"@, "base.en (142MB, English only)"@),
                    ("small"@, "small (466MB)"@),
                    ("small.en"@, "small.en (466MB, English only)"@),
                    ("medium"@, "medium (1.5GB)"@),
                    ("medium.en"@, "medium.en (1.5GB, English only)"@),
                    ("large-v3"@, "large-v3 (3GB, best quality)"@),
                    ("large-v3-turbo"@, "large-v3-turbo (1.6GB, fast + quality)"@),
                ],
                Some("Whisper model size. Larger models are more accurate but slower."@),
            ),
            option_is(
                r.options@[1],
                "model_path"@,
                "Custom Model Path"@,
                OptionType::Path,
                false,
                ""@,
                Seq::empty(),
                Some("Path to a custom GGML model file. Overrides the model selection above."@),
            ),
    {
        let schema = ProviderSchema::new("local_whisper", "Local Whisper")
            .with_option(
                ProviderOption::new("model", "Model", OptionType::Select)
                    .with_default("base")
                    .with_values(
                        vec![
                            OptionValue::new("tiny", "tiny (75MB, fastest)"),
                            OptionValue::new("tiny.en", "tiny.en (75MB, English only)"),
                            OptionValue::new("base", "base (142MB, recommended)"),
                            OptionValue::new("base.en", "base.en (142MB, English only)"),
                            OptionValue::new("small", "small (466MB)"),
                            OptionValue::new("small.en", "small.en (466MB, English only)"),
                            OptionValue::new("medium", "medium (1.5GB)"),
                            OptionValue::new("medium.en", "medium.en (1.5GB, English only)"),
                            OptionValue::new("large-v3", "large-v3 (3GB, best quality)"),
                            OptionValue::new("large-v3-turbo", "large-v3-turbo (1.6GB, fast + quality)"),
                        ],
                    )
                    .with_description(
                        "Whisper model size. Larger models are more accurate but slower.",
                    )
            )
            .with_option(
                ProviderOption::new("model_path", "Custom Model Path", OptionType::Path)
                    .with_description(
                        "Path to a custom GGML model file. Overrides the model selection above.",
                    )
            );
        proof {
            reveal_strlit("");
            assert(values_view(schema.options@[0].values@) =~= seq![
                ("tiny"@, "tiny (75MB, fastest)"@),
                ("tiny.en"@, "tiny.en (75MB, English only)"@),
                ("base"@, "base (142MB, recommended)"@),
                ("base.en"@, "base.en (142MB, English only)"@),
                ("small"@, "small (466MB)"@),
                ("small.en"@, "small.en (466MB, English only)"@),
                ("medium"@, "medium (1.5GB)"@),
                ("medium.en"@, "medium.en (1.5GB, English only)"@),
                ("large-v3"@, "large-v3 (3GB, best quality)"@),
                ("large-v3-turbo"@, "large-v3-turbo (1.6GB, fast + quality)"@),
            ]);
            assert(values_view(schema.options@[1].values@) =~= Seq::empty());
            assert(schema.options@[1].default@ == ""@);
        }
        schema
    }
}

} // verus!
