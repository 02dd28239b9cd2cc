//! Audio format checks and the conversion cache.
//!
//! whisper.cpp wants WAV audio at 16 kHz, mono, 16-bit PCM. A file that
//! already is such a WAV is used as it is; any other file is converted with
//! ffmpeg into a cache directory, under a name derived from the file's
//! absolute path and modification time, so that it is converted once.
//!
//! The decisions are made here; the file system and ffmpeg are driven by the
//! caller, step by step (see [`AudioConverter::prepare`]).

use vstd::prelude::*;

use crate::error::TranscriptionError;
use crate::text::{chars_of, push_str_chars, string_from_chars};

verus! {

// ---------------------------------------------------------------------------
// WAV header
// ---------------------------------------------------------------------------

/// Little-endian 16-bit value at `i`.
pub open spec fn le16(h: Seq<u8>, i: int) -> int {
    h[i] as int + 256 * (h[i + 1] as int)
}

/// Little-endian 32-bit value at `i`.
pub open spec fn le32(h: Seq<u8>, i: int) -> int {
    le16(h, i) + 65536 * le16(h, i + 2)
}

/// Whether the four bytes at `i` are `a b c d`.
pub open spec fn tag_at(h: Seq<u8>, i: int, a: u8, b: u8, c: u8, d: u8) -> bool {
    h[i] == a && h[i + 1] == b && h[i + 2] == c && h[i + 3] == d
}

/// Whether the leading bytes of a file are the 44-byte header of a WAV file
/// in the format whisper expects: a `RIFF`/`WAVE` file whose first chunk is
/// `fmt `, PCM (format 1), one channel, 16000 samples per second, 16 bits
/// per sample.
pub open spec fn wav_header_ok(h: Seq<u8>) -> bool {
    &&& h.len() >= 44
    &&& tag_at(h, 0, 0x52, 0x49, 0x46, 0x46)  // "RIFF"
    &&& tag_at(h, 8, 0x57, 0x41, 0x56, 0x45)  // "WAVE"
    &&& tag_at(h, 12, 0x66, 0x6d, 0x74, 0x20)  // "fmt "
    &&& le16(h, 20) == 1  // PCM
    &&& le16(h, 22) == 1  // mono
    &&& le32(h, 24) == 16000  // sample rate
    &&& le16(h, 34) == 16  // bits per sample
}

fn read_le16(h: &[u8], i: usize) -> (r: u32)
    requires
        i + 1 < h@.len(),
    ensures
        r as int == le16(h@, i as int),
{
    h[i] as u32 + 256 * (h[i + 1] as u32)
}

/// Check if the leading bytes of a file are a WAV header in the format
/// whisper expects (fewer than 44 bytes never are).
pub fn is_valid_wav_header(h: &[u8]) -> (r: bool)
    ensures
        r == wav_header_ok(h@),
{
    if h.len() < 44 {
        return false;
    }
    // RIFF header
    if !(h[0] == 0x52 && h[1] == 0x49 && h[2] == 0x46 && h[3] == 0x46) || !(h[8] == 0x57 && h[9]
        == 0x41 && h[10] == 0x56 && h[11] == 0x45) {
        return false;
    }
    // fmt chunk
    if !(h[12] == 0x66 && h[13] == 0x6d && h[14] == 0x74 && h[15] == 0x20) {
        return false;
    }
    // Audio format (1 = PCM)
    let audio_format = read_le16(h, 20);
    if audio_format != 1 {
        return false;
    }
    // Number of channels (should be 1 for mono)
    let channels = read_le16(h, 22);
    // Sample rate (should be 16000)
    let sample_rate: u64 = read_le16(h, 24) as u64 + 65536 * (read_le16(h, 26) as u64);
    // Bits per sample (should be 16)
    let bits_per_sample = read_le16(h, 34);
    channels == 1 && sample_rate == 16000 && bits_per_sample == 16
}

// ---------------------------------------------------------------------------
// Cache file names
// ---------------------------------------------------------------------------

/// The SHA-256 digest of `data`, as the `sha2` crate computes it.
pub uninterp spec fn spec_sha256(data: Seq<u8>) -> Seq<u8>;

/// `sha2::Sha256::digest`: the 32-byte SHA-256 digest of `data`.
///
/// Claimed: the digest is a function of the bytes alone, and it is 32 bytes
/// long (`Sha256`'s output size is `U32`). Feeding the bytes in several
/// `update` calls gives the digest of their concatenation.
#[verifier::external_body]
fn sha256(data: &[u8]) -> (r: Vec<u8>)
    ensures
        r@ == spec_sha256(data@),
        r@.len() == 32,
{
    <sha2::Sha256 as sha2::Digest>::digest(data).to_vec()
}

/// The lower-case hexadecimal digit for `d < 16`.
pub open spec fn hex_digit(d: int) -> char {
    if d < 10 {
        ((d + 48) as u32) as char
    } else {
        ((d - 10 + 97) as u32) as char
    }
}

/// Lower-case hexadecimal, two digits per byte (`format!("{:x}", ..)` of a
/// digest).
pub open spec fn hex_lower(b: Seq<u8>) -> Seq<char>
    decreases b.len(),
{
    if b.len() == 0 {
        Seq::empty()
    } else {
        hex_lower(b.drop_last()) + seq![
            hex_digit(b.last() as int / 16),
            hex_digit(b.last() as int % 16),
        ]
    }
}

/// The `n` low-order bytes of `m`, least significant first.
pub open spec fn le_bytes(m: nat, n: nat) -> Seq<u8>
    decreases n,
{
    if n == 0 {
        Seq::empty()
    } else {
        seq![(m % 256) as u8] + le_bytes(m / 256, (n - 1) as nat)
    }
}

/// The cache file name of a source file: the first 16 hexadecimal digits of
/// the SHA-256 of its absolute path (UTF-8) followed by its modification
/// time in seconds (8 bytes, little-endian), and `.wav`.
pub open spec fn cache_name_spec(abs_path: Seq<char>, mtime_secs: u64) -> Seq<char> {
    hex_lower(spec_sha256(vstd::utf8::encode_utf8(abs_path) + le_bytes(mtime_secs as nat, 8))).take(
        16,
    ) + ".wav"@
}

/// A lower-case hexadecimal digit.
pub open spec fn is_lower_hex(c: char) -> bool {
    ('0' <= c <= '9') || ('a' <= c <= 'f')
}

/// The shape of a cache file name: 16 lower-case hexadecimal digits, then
/// `.wav`.
pub open spec fn is_cache_file_name(n: Seq<char>) -> bool {
    &&& n.len() == 20
    &&& forall|i: int| 0 <= i < 16 ==> is_lower_hex(#[trigger] n[i])
    &&& n.subrange(16, 20) == ".wav"@
}

proof fn lemma_hex_lower_digits(b: Seq<u8>)
    ensures
        forall|i: int| 0 <= i < hex_lower(b).len() ==> is_lower_hex(#[trigger] hex_lower(b)[i]),
    decreases b.len(),
{
    if b.len() > 0 {
        lemma_hex_lower_digits(b.drop_last());
        lemma_hex_lower_len(b.drop_last());
        let x = b.last() as int;
        assert(is_lower_hex(hex_digit(x / 16)));
        assert(is_lower_hex(hex_digit(x % 16)));
        let h = hex_lower(b);
        let p = hex_lower(b.drop_last());
        assert forall|i: int| 0 <= i < h.len() implies is_lower_hex(#[trigger] h[i]) by {
            if i < p.len() {
                assert(h[i] == p[i]);
            }
        }
    }
}

fn hex_digit_of(d: u8) -> (r: char)
    requires
        d < 16,
    ensures
        r == hex_digit(d as int),
{
    if d < 10 {
        (d + 48) as char
    } else {
        (d - 10 + 97) as char
    }
}

proof fn lemma_le_bytes_len(m: nat, n: nat)
    ensures
        le_bytes(m, n).len() == n,
    decreases n,
{
    if n > 0 {
        lemma_le_bytes_len(m / 256, (n - 1) as nat);
    }
}

fn le_bytes_u64(m: u64) -> (r: Vec<u8>)
    ensures
        r@ == le_bytes(m as nat, 8),
        r@.len() == 8,
{
    proof {
        lemma_le_bytes_len(m as nat, 8);
    }
    let mut out: Vec<u8> = Vec::new();
    let mut cur: u64 = m;
    let mut i: usize = 0;
    while i < 8
        invariant
            i <= 8,
            out@ + le_bytes(cur as nat, (8 - i) as nat) == le_bytes(m as nat, 8),
        decreases 8 - i,
    {
        let ghost before = out@;
        out.push((cur % 256) as u8);
        assert(le_bytes(cur as nat, (8 - i) as nat) == seq![(cur % 256) as u8] + le_bytes(
            (cur / 256) as nat,
            (8 - i - 1) as nat,
        ));
        assert(out@ + le_bytes((cur / 256) as nat, (8 - i - 1) as nat) =~= before + le_bytes(
            cur as nat,
            (8 - i) as nat,
        ));
        cur = cur / 256;
        i = i + 1;
    }
    assert(le_bytes(cur as nat, 0) =~= Seq::<u8>::empty());
    assert(out@ + Seq::<u8>::empty() =~= out@);
    out
}

proof fn lemma_hex_lower_len(b: Seq<u8>)
    ensures
        hex_lower(b).len() == 2 * b.len(),
    decreases b.len(),
{
    if b.len() > 0 {
        lemma_hex_lower_len(b.drop_last());
    }
}

/// The first `2 * k` hexadecimal digits are those of the first `k` bytes.
proof fn lemma_hex_lower_take(b: Seq<u8>, k: int)
    requires
        0 <= k <= b.len(),
    ensures
        hex_lower(b).take(2 * k) == hex_lower(b.take(k)),
    decreases b.len() - k,
{
    lemma_hex_lower_len(b);
    lemma_hex_lower_len(b.take(k));
    if k == b.len() {
        assert(b.take(k) =~= b);
        assert(hex_lower(b).take(2 * k) =~= hex_lower(b));
    } else {
        let c = b.drop_last();
        assert(c.take(k) =~= b.take(k));
        lemma_hex_lower_take(c, k);
        lemma_hex_lower_len(c);
        assert(hex_lower(b).take(2 * k) =~= hex_lower(c).take(2 * k));
    }
}

/// The name, in the cache directory, of the converted copy of a file with
/// this absolute path and modification time (in seconds since the epoch).
pub fn cache_file_name(abs_path: &str, mtime_secs: u64) -> (r: String)
    ensures
        r@ == cache_name_spec(abs_path@, mtime_secs),
        is_cache_file_name(r@),
        is_wav_file_name(r@),
{
    let mut data: Vec<u8> = Vec::new();
    let path_bytes = abs_path.as_bytes();
    let n = path_bytes.len();
    let mut i: usize = 0;
    while i < n
        invariant
            n == path_bytes@.len(),
            i <= n,
            data@ == path_bytes@.take(i as int),
        decreases n - i,
    {
        data.push(path_bytes[i]);
        assert(path_bytes@.take(i as int + 1) =~= path_bytes@.take(i as int).push(
            path_bytes@[i as int],
        ));
        i = i + 1;
    }
    assert(path_bytes@.take(n as int) =~= path_bytes@);
    let time_bytes = le_bytes_u64(mtime_secs);
    let mut j: usize = 0;
    let ghost path_part = data@;
    while j < 8
        invariant
            time_bytes@.len() == 8,
            j <= 8,
            data@ == path_part + time_bytes@.take(j as int),
        decreases 8 - j,
    {
        data.push(time_bytes[j]);
        assert(time_bytes@.take(j as int + 1) =~= time_bytes@.take(j as int).push(
            time_bytes@[j as int],
        ));
        j = j + 1;
    }
    assert(time_bytes@.take(8) =~= time_bytes@);
    let digest = sha256(data.as_slice());
    let mut name: Vec<char> = Vec::new();
    let mut k: usize = 0;
    while k < 8
        invariant
            digest@.len() == 32,
            k <= 8,
            name@ == hex_lower(digest@.take(k as int)),
        decreases 8 - k,
    {
        let b = digest[k];
        name.push(hex_digit_of(b / 16));
        name.push(hex_digit_of(b % 16));
        assert(digest@.take(k as int + 1).drop_last() =~= digest@.take(k as int));
        assert(digest@.take(k as int + 1).last() == b);
        assert(name@ =~= hex_lower(digest@.take(k as int + 1)));
        k = k + 1;
    }
    proof {
        lemma_hex_lower_take(digest@, 8);
        lemma_hex_lower_len(digest@.take(8));
        lemma_hex_lower_digits(digest@.take(8));
        reveal_strlit(".wav");
    }
    push_str_chars(&mut name, ".wav");
    assert(name@.subrange(16, 20) =~= ".wav"@);
    string_from_chars(name.as_slice())
}

/// Whether a directory entry's file name has the extension `wav` (as
/// `Path::extension` reads it: the part after the last `.`, where that `.`
/// is not the name's first character).
pub open spec fn is_wav_file_name(name: Seq<char>) -> bool {
    name.len() >= 5 && name.subrange(name.len() - 4, name.len() as int) == ".wav"@
}

/// Whether a file name has the `wav` extension.
pub fn has_wav_extension(name: &str) -> (r: bool)
    ensures
        r == is_wav_file_name(name@),
{
    let c = chars_of(name);
    let n = c.len();
    proof {
        reveal_strlit(".wav");
    }
    if n < 5 {
        return false;
    }
    let r = c[n - 4] == '.' && c[n - 3] == 'w' && c[n - 2] == 'a' && c[n - 1] == 'v';
    proof {
        let tail = name@.subrange(n - 4, n as int);
        if r {
            assert(tail =~= ".wav"@);
        } else if tail == ".wav"@ {
            assert(tail[0] == '.' && tail[1] == 'w' && tail[2] == 'a' && tail[3] == 'v');
        }
    }
    r
}

// ---------------------------------------------------------------------------
// Paths
// ---------------------------------------------------------------------------

/// `dir` joined with a relative `name` (`Path::join` on Unix: a `/` is put
/// between them unless `dir` is empty or already ends with one).
pub open spec fn join_path(dir: Seq<char>, name: Seq<char>) -> Seq<char> {
    if dir.len() == 0 || dir.last() == '/' {
        dir + name
    } else {
        dir + seq!['/'] + name
    }
}

/// Joins a directory and a relative file name.
pub fn join_path_str(dir: &str, name: &str) -> (r: String)
    ensures
        r@ == join_path(dir@, name@),
{
    let mut v = chars_of(dir);
    let n = v.len();
    if n > 0 && v[n - 1] != '/' {
        v.push('/');
    }
    push_str_chars(&mut v, name);
    string_from_chars(v.as_slice())
}

/// The directory, under the user's cache directory (`/tmp` where there is
/// none), that holds converted audio.
pub open spec fn cache_dir_spec(base: Option<Seq<char>>) -> Seq<char> {
    join_path(
        match base {
            Some(b) => b,
            None => "/tmp"@,
        },
        "voice-transcription"@,
    )
}

// ---------------------------------------------------------------------------
// ffmpeg
// ---------------------------------------------------------------------------

/// The arguments of the ffmpeg run that converts `input` into a 16 kHz,
/// mono, 16-bit PCM WAV file at `output`, overwriting it.
pub open spec fn ffmpeg_args_spec(input: Seq<char>, output: Seq<char>) -> Seq<Seq<char>> {
    seq![
        "-y"@,
        "-i"@,
        input,
        "-ar"@,
        "16000"@,
        "-ac"@,
        "1"@,
        "-c:a"@,
        "pcm_s16le"@,
        "-f"@,
        "wav"@,
        output,
    ]
}

/// The ffmpeg arguments for a conversion.
pub fn ffmpeg_args(input: &str, output: &str) -> (r: Vec<String>)
    ensures
        r@.len() == 12,
        forall|i: int| 0 <= i < 12 ==> (#[trigger] r@[i])@ == ffmpeg_args_spec(input@, output@)[i],
{
    let r = vec![
        String::from_str("-y"),
        String::from_str("-i"),
        String::from_str(input),
        String::from_str("-ar"),
        String::from_str("16000"),
        String::from_str("-ac"),
        String::from_str("1"),
        String::from_str("-c:a"),
        String::from_str("pcm_s16le"),
        String::from_str("-f"),
        String::from_str("wav"),
        String::from_str(output),
    ];
    r
}

/// The text after the last line break of `t` (all of `t` without one).
pub open spec fn after_last_newline(t: Seq<char>) -> Seq<char>
    decreases t.len(),
{
    if t.len() == 0 {
        t
    } else if t.last() == '\n' {
        Seq::empty()
    } else {
        after_last_newline(t.drop_last()).push(t.last())
    }
}

/// The last line of `s` as `str::lines` yields it: none for empty text; a
/// final line break ends the last line and is dropped, with a `\r` before
/// it.
pub open spec fn last_line(s: Seq<char>) -> Option<Seq<char>> {
    if s.len() == 0 {
        None
    } else if s.last() == '\n' {
        let line = after_last_newline(s.drop_last());
        if line.len() > 0 && line.last() == '\r' {
            Some(line.drop_last())
        } else {
            Some(line)
        }
    } else {
        Some(after_last_newline(s))
    }
}

fn after_last_newline_chars(t: &[char], end: usize) -> (r: Vec<char>)
    requires
        end <= t@.len(),
    ensures
        r@ == after_last_newline(t@.take(end as int)),
{
    let mut start: usize = end;
    while start > 0 && t[start - 1] != '\n'
        invariant
            start <= end <= t@.len(),
            after_last_newline(t@.take(end as int)) == after_last_newline(t@.take(start as int))
                + t@.subrange(start as int, end as int),
        decreases start,
    {
        let ghost s0 = t@.take(start as int);
        assert(s0.drop_last() =~= t@.take(start - 1));
        assert(s0.last() == t@[start - 1]);
        assert(t@.subrange(start - 1, end as int) =~= seq![t@[start - 1]] + t@.subrange(
            start as int,
            end as int,
        ));
        assert(after_last_newline(t@.take(start - 1)).push(t@[start - 1]) + t@.subrange(
            start as int,
            end as int,
        ) =~= after_last_newline(t@.take(start - 1)) + t@.subrange(start - 1, end as int));
        start = start - 1;
    }
    if start > 0 {
        assert(t@.take(start as int).last() == '\n');
    } else {
        assert(t@.take(0) =~= Seq::<char>::empty());
    }
    let mut r: Vec<char> = Vec::new();
    let mut k: usize = start;
    while k < end
        invariant
            start <= k <= end <= t@.len(),
            r@ == t@.subrange(start as int, k as int),
        decreases end - k,
    {
        r.push(t[k]);
        assert(t@.subrange(start as int, k + 1) =~= t@.subrange(start as int, k as int).push(
            t@[k as int],
        ));
        k = k + 1;
    }
    assert(Seq::<char>::empty() + t@.subrange(start as int, end as int) =~= r@);
    r
}

/// The last line of `s`.
pub fn last_line_of(s: &str) -> (r: Option<String>)
    ensures
        match r {
            Some(l) => last_line(s@) == Some(l@),
            None => last_line(s@) is None,
        },
{
    let c = chars_of(s);
    let n = c.len();
    if n == 0 {
        return None;
    }
    if c[n - 1] == '\n' {
        assert(c@.take(n - 1) =~= c@.drop_last());
        let mut line = after_last_newline_chars(c.as_slice(), n - 1);
        let m = line.len();
        if m > 0 && line[m - 1] == '\r' {
            let ghost full = line@;
            line.pop();
            assert(line@ =~= full.drop_last());
        }
        Some(string_from_chars(line.as_slice()))
    } else {
        assert(c@.take(n as int) =~= c@);
        let line = after_last_newline_chars(c.as_slice(), n);
        Some(string_from_chars(line.as_slice()))
    }
}

/// How a run of ffmpeg ended.
pub enum FfmpegOutcome {
    /// ffmpeg ran and exited; its standard error output, read as UTF-8 with
    /// invalid sequences replaced.
    Exited { success: bool, stderr: String },
    /// There is no ffmpeg to run.
    NotFound,
    /// ffmpeg could not be started for another reason, given as text.
    LaunchFailed(String),
}

/// The error, if any, that a run of ffmpeg amounts to.
pub open spec fn conversion_error_text(outcome: FfmpegOutcome) -> Option<Seq<char>> {
    match outcome {
        FfmpegOutcome::Exited { success, stderr } => if success {
            None
        } else {
            Some(
                "ffmpeg failed: "@ + match last_line(stderr@) {
                    Some(l) => l,
                    None => "unknown error"@,
                },
            )
        },
        FfmpegOutcome::NotFound => Some(
            "ffmpeg not found. Please install ffmpeg to convert audio files."@,
        ),
        FfmpegOutcome::LaunchFailed(e) => Some("Failed to run ffmpeg: "@ + e@),
    }
}

/// Interprets how a run of ffmpeg ended.
pub fn conversion_result(outcome: FfmpegOutcome) -> (r: Result<(), TranscriptionError>)
    ensures
        match conversion_error_text(outcome) {
            None => r is Ok,
            Some(text) => r matches Err(TranscriptionError::ConversionFailed(m)) && m@ == text,
        },
{
    match outcome {
        FfmpegOutcome::Exited { success, stderr } => {
            if success {
                Ok(())
            } else {
                let detail = match last_line_of(stderr.as_str()) {
                    Some(l) => l,
                    None => String::from_str("unknown error"),
                };
                Err(
                    TranscriptionError::ConversionFailed(
                        String::from_str("ffmpeg failed: ").concat(detail.as_str()),
                    ),
                )
            }
        },
        FfmpegOutcome::NotFound => Err(
            TranscriptionError::ConversionFailed(
                String::from_str("ffmpeg not found. Please install ffmpeg to convert audio files."),
            ),
        ),
        FfmpegOutcome::LaunchFailed(e) => Err(
            TranscriptionError::ConversionFailed(
                String::from_str("Failed to run ffmpeg: ").concat(e.as_str()),
            ),
        ),
    }
}

// ---------------------------------------------------------------------------
// The converter
// ---------------------------------------------------------------------------

/// Result of preparing an audio file for transcription.
#[derive(Debug)]
pub struct PreparedAudio {
    /// Path to the WAV file (the input file itself or its converted copy).
    pub path: String,
    /// Whether the file was converted (true) or used as-is (false).
    pub was_converted: bool,
}

/// What the caller is asked to do next while preparing a file.
pub enum PrepareAction {
    /// Tell whether the input file exists.
    CheckExists,
    /// Read the first 44 bytes of the input file (fewer, or none, where it
    /// is shorter or cannot be read).
    ReadHeader,
    /// Resolve the input file's absolute path and its modification time in
    /// seconds since the epoch (0 where the time is unknown or earlier).
    ResolveSource,
    /// Tell whether the cached copy exists; if it does, whether it is at
    /// least as new as the input, and, if so, its first 44 bytes.
    InspectCache { cache_path: String },
    /// Remove the cached copy (whether that works does not matter).
    RemoveCache { cache_path: String },
    /// Create the cache directory and run ffmpeg with these arguments.
    Convert { cache_path: String, args: Vec<String> },
    /// Preparation is over.
    Finished(Result<PreparedAudio, TranscriptionError>),
}

/// What the caller found about a cached copy.
pub enum CacheProbe {
    /// There is no cached copy.
    Missing,
    /// There is one; `fresh` when it is at least as new as the input, and
    /// then `header` holds its first bytes.
    Present { fresh: bool, header: Vec<u8> },
}

/// The caller's answer to an action.
pub enum PrepareEvent {
    Exists(bool),
    Header(Vec<u8>),
    Source(Result<(String, u64), TranscriptionError>),
    Cache(Result<CacheProbe, TranscriptionError>),
    Removed,
    Converted(Result<FfmpegOutcome, TranscriptionError>),
}

/// Whether `event` is an answer to `action`.
pub open spec fn answers(action: PrepareAction, event: PrepareEvent) -> bool {
    match action {
        PrepareAction::CheckExists => event is Exists,
        PrepareAction::ReadHeader => event is Header,
        PrepareAction::ResolveSource => event is Source,
        PrepareAction::InspectCache { .. } => event is Cache,
        PrepareAction::RemoveCache { .. } => event is Removed,
        PrepareAction::Convert { .. } => event is Converted,
        PrepareAction::Finished(_) => false,
    }
}

/// Whether `args` are the ffmpeg arguments converting `input` to `output`.
pub open spec fn args_convert(args: Seq<String>, input: Seq<char>, output: Seq<char>) -> bool {
    &&& args.len() == 12
    &&& forall|i: int| 0 <= i < 12 ==> (#[trigger] args[i])@ == ffmpeg_args_spec(input, output)[i]
}

/// Whether `r` asks to convert `input` into the cached copy at `cache_path`.
pub open spec fn is_convert(r: PrepareAction, input: Seq<char>, cache_path: Seq<char>) -> bool {
    r matches PrepareAction::Convert { cache_path: c, args } && c@ == cache_path && args_convert(
        args@,
        input,
        cache_path,
    )
}

/// Whether `r` ends preparation with `path`, converted or not.
pub open spec fn is_ready(r: PrepareAction, path: Seq<char>, converted: bool) -> bool {
    r matches PrepareAction::Finished(Ok(p)) && p.path@ == path && p.was_converted == converted
}

/// Whether `r` ends preparation with the error `e`.
pub open spec fn is_failure(r: PrepareAction, e: TranscriptionError) -> bool {
    r matches PrepareAction::Finished(Err(f)) && f == e
}

/// Audio format converter with caching support.
pub struct AudioConverter {
    cache_dir: String,
}

impl AudioConverter {
    /// The directory that holds converted files.
    pub closed spec fn dir(&self) -> Seq<char> {
        self.cache_dir@
    }

    /// Create an AudioConverter with a custom cache directory.
    pub fn with_cache_dir(cache_dir: String) -> (r: Self)
        ensures
            r.dir() == cache_dir@,
    {
        AudioConverter { cache_dir }
    }

    /// An AudioConverter with the default cache directory,
    /// `voice-transcription` under the user's cache directory `base` (under
    /// `/tmp` where there is none).
    pub fn new(base: Option<&str>) -> (r: Self)
        ensures
            r.dir() == cache_dir_spec(
                match base {
                    Some(b) => Some(b@),
                    None => None,
                },
            ),
    {
        let cache_dir = match base {
            Some(b) => join_path_str(b, "voice-transcription"),
            None => join_path_str("/tmp", "voice-transcription"),
        };
        AudioConverter { cache_dir }
    }

    /// Get the cache directory path.
    pub fn cache_dir(&self) -> (r: &str)
        ensures
            r@ == self.dir(),
    {
        self.cache_dir.as_str()
    }

    /// Where the converted copy of a file with this absolute path and
    /// modification time is cached.
    pub open spec fn cache_path_spec(&self, abs_path: Seq<char>, mtime_secs: u64) -> Seq<char> {
        join_path(self.dir(), cache_name_spec(abs_path, mtime_secs))
    }

    /// Generate a cache path for an audio file.
    pub fn cache_path_for(&self, abs_path: &str, mtime_secs: u64) -> (r: String)
        ensures
            r@ == self.cache_path_spec(abs_path@, mtime_secs),
            is_cache_file_name(cache_name_spec(abs_path@, mtime_secs)),
            is_wav_file_name(r@),
    {
        let name = cache_file_name(abs_path, mtime_secs);
        let r = join_path_str(self.cache_dir.as_str(), name.as_str());
        assert(r@.subrange(r@.len() - 4, r@.len() as int) =~= name@.subrange(16, 20));
        r
    }

    /// The first thing to do when preparing a file.
    pub fn prepare_start() -> (r: PrepareAction)
        ensures
            r is CheckExists,
    {
        PrepareAction::CheckExists
    }

    /// What preparing `audio_path` does next, given the pending action and
    /// the caller's answer to it.
    ///
    /// A file that is not there is an error. A file that already is a WAV
    /// in the expected format is used as it is. Otherwise its converted copy
    /// is looked for in the cache (unless `nocache`): a copy at least as new
    /// as the file and itself a valid WAV is used; a copy at least as new
    /// but not valid is removed. Failing that, the file is converted into
    /// the cache.
    pub open spec fn step_spec(
        &self,
        audio_path: Seq<char>,
        nocache: bool,
        pending: PrepareAction,
        event: PrepareEvent,
        r: PrepareAction,
    ) -> bool {
        match pending {
            PrepareAction::CheckExists => match event {
                PrepareEvent::Exists(true) => r is ReadHeader,
                _ => r matches PrepareAction::Finished(Err(TranscriptionError::FileNotFound(p)))
                    && p@ == audio_path,
            },
            PrepareAction::ReadHeader => match event {
                PrepareEvent::Header(h) => if wav_header_ok(h@) {
                    is_ready(r, audio_path, false)
                } else {
                    r is ResolveSource
                },
                _ => false,
            },
            PrepareAction::ResolveSource => match event {
                PrepareEvent::Source(Err(e)) => is_failure(r, e),
                PrepareEvent::Source(Ok((abs_path, mtime))) => {
                    let cache_path = self.cache_path_spec(abs_path@, mtime);
                    if nocache {
                        is_convert(r, audio_path, cache_path)
                    } else {
                        r matches PrepareAction::InspectCache { cache_path: c } && c@ == cache_path
                    }
                },
                _ => false,
            },
            PrepareAction::InspectCache { cache_path } => match event {
                PrepareEvent::Cache(Err(e)) => is_failure(r, e),
                PrepareEvent::Cache(Ok(CacheProbe::Missing)) => is_convert(
                    r,
                    audio_path,
                    cache_path@,
                ),
                PrepareEvent::Cache(Ok(CacheProbe::Present { fresh, header })) => if !fresh {
                    is_convert(r, audio_path, cache_path@)
                } else if wav_header_ok(header@) {
                    is_ready(r, cache_path@, false)
                } else {
                    r matches PrepareAction::RemoveCache { cache_path: c } && c@ == cache_path@
                },
                _ => false,
            },
            PrepareAction::RemoveCache { cache_path } => is_convert(r, audio_path, cache_path@),
            PrepareAction::Convert { cache_path, .. } => match event {
                PrepareEvent::Converted(Err(e)) => is_failure(r, e),
                PrepareEvent::Converted(Ok(outcome)) => match conversion_error_text(outcome) {
                    None => is_ready(r, cache_path@, true),
                    Some(text) => r matches PrepareAction::Finished(
                        Err(TranscriptionError::ConversionFailed(m)),
                    ) && m@ == text,
                },
                _ => false,
            },
            PrepareAction::Finished(_) => false,
        }
    }

    /// Whether `p` is the path of a converted copy in the cache directory.
    pub open spec fn is_cache_path(&self, p: Seq<char>) -> bool {
        exists|abs_path: Seq<char>, mtime_secs: u64| p == #[trigger] self.cache_path_spec(
            abs_path,
            mtime_secs,
        )
    }

    /// Whether preparing `audio_path` can be at action `a`: every cached
    /// copy it names is in the cache directory, the cache is not looked at
    /// when `nocache`, and a finished preparation hands back either the
    /// input itself, unconverted, or a copy in the cache directory, freshly
    /// converted when `nocache`.
    pub open spec fn on_track(&self, audio_path: Seq<char>, nocache: bool, a: PrepareAction) -> bool {
        match a {
            PrepareAction::InspectCache { cache_path } => !nocache && self.is_cache_path(
                cache_path@,
            ),
            PrepareAction::RemoveCache { cache_path } => !nocache && self.is_cache_path(
                cache_path@,
            ),
            PrepareAction::Convert { cache_path, .. } => self.is_cache_path(cache_path@),
            PrepareAction::Finished(Ok(p)) => (p.path@ == audio_path && !p.was_converted) || (
            self.is_cache_path(p.path@) && (nocache ==> p.was_converted)),
            _ => true,
        }
    }

    /// How many steps at most are left after action `a`.
    pub open spec fn steps_left(a: PrepareAction) -> nat {
        match a {
            PrepareAction::CheckExists => 6,
            PrepareAction::ReadHeader => 5,
            PrepareAction::ResolveSource => 4,
            PrepareAction::InspectCache { .. } => 3,
            PrepareAction::RemoveCache { .. } => 2,
            PrepareAction::Convert { .. } => 1,
            PrepareAction::Finished(_) => 0,
        }
    }

    /// Preparing a file starts on track, and each step keeps it there: the
    /// file handed back is the input itself, unconverted, or a converted copy
    /// in the cache directory, and with `nocache` the cache is never read.
    /// Each step brings the end closer, so preparation is over after at most
    /// six answers.
    pub proof fn law_prepare_stays_on_track(
        &self,
        audio_path: Seq<char>,
        nocache: bool,
        pending: PrepareAction,
        event: PrepareEvent,
        next: PrepareAction,
    )
        requires
            self.on_track(audio_path, nocache, pending),
            answers(pending, event),
            self.step_spec(audio_path, nocache, pending, event, next),
        ensures
            self.on_track(audio_path, nocache, PrepareAction::CheckExists),
            self.on_track(audio_path, nocache, next),
            Self::steps_left(next) < Self::steps_left(pending),
    {
        match pending {
            PrepareAction::ResolveSource => match event {
                PrepareEvent::Source(Ok((abs_path, mtime))) => {
                    let c = self.cache_path_spec(abs_path@, mtime);
                    assert(self.is_cache_path(c));
                },
                _ => {},
            },
            _ => {},
        }
    }

    /// Whether a preparation of `audio_path`, its source resolved to `source`,
    /// reached the conversion `convert`: directly, or after looking at the
    /// cache (`inspect`, answered by `probe`), possibly after removing a
    /// broken copy (`remove`).
    pub open spec fn converts_after(
        &self,
        audio_path: Seq<char>,
        nocache: bool,
        source: (String, u64),
        inspect: PrepareAction,
        probe: CacheProbe,
        remove: PrepareAction,
        convert: PrepareAction,
    ) -> bool {
        &&& convert is Convert
        &&& {
            ||| self.step_spec(
                audio_path,
                nocache,
                PrepareAction::ResolveSource,
                PrepareEvent::Source(Ok(source)),
                convert,
            )
            ||| {
                &&& self.step_spec(
                    audio_path,
                    nocache,
                    PrepareAction::ResolveSource,
                    PrepareEvent::Source(Ok(source)),
                    inspect,
                )
                &&& {
                    ||| self.step_spec(
                        audio_path,
                        nocache,
                        inspect,
                        PrepareEvent::Cache(Ok(probe)),
                        convert,
                    )
                    ||| {
                        &&& self.step_spec(
                            audio_path,
                            nocache,
                            inspect,
                            PrepareEvent::Cache(Ok(probe)),
                            remove,
                        )
                        &&& remove is RemoveCache
                        &&& self.step_spec(audio_path, nocache, remove, PrepareEvent::Removed, convert)
                    }
                }
            }
        }
    }

    /// Law: a file converted into the cache is found there the next time.
    /// Once a preparation has converted a file successfully, preparing the
    /// same file again, unchanged (same absolute path, same modification
    /// time), looks at the very copy that was written, and where that copy is
    /// still at least as new as the file and a valid WAV, ends with it,
    /// without converting again.
    pub proof fn law_converted_copy_is_reused(
        &self,
        audio_path: Seq<char>,
        nocache: bool,
        source: (String, u64),
        inspect: PrepareAction,
        probe: CacheProbe,
        remove: PrepareAction,
        convert: PrepareAction,
        outcome: FfmpegOutcome,
        converted: PrepareAction,
        again: (String, u64),
        look: PrepareAction,
        header: Vec<u8>,
        reused: PrepareAction,
    )
        requires
            self.converts_after(audio_path, nocache, source, inspect, probe, remove, convert),
            self.step_spec(
                audio_path,
                nocache,
                convert,
                PrepareEvent::Converted(Ok(outcome)),
                converted,
            ),
            conversion_error_text(outcome) is None,
            again.0@ == source.0@,
            again.1 == source.1,
            self.step_spec(
                audio_path,
                false,
                PrepareAction::ResolveSource,
                PrepareEvent::Source(Ok(again)),
                look,
            ),
            wav_header_ok(header@),
            self.step_spec(
                audio_path,
                false,
                look,
                PrepareEvent::Cache(Ok(CacheProbe::Present { fresh: true, header })),
                reused,
            ),
        ensures
            converted matches PrepareAction::Finished(Ok(first)) && first.was_converted,
            reused matches PrepareAction::Finished(Ok(second)) && !second.was_converted,
            converted matches PrepareAction::Finished(Ok(first)) && reused matches PrepareAction::Finished(
                Ok(second),
            ) && first.path@ == second.path@,
    {
        let c = self.cache_path_spec(source.0@, source.1);
        assert(convert matches PrepareAction::Convert { cache_path, .. } && cache_path@ == c);
        assert(look matches PrepareAction::InspectCache { cache_path } && cache_path@ == c);
    }

    /// Law: preparation ends well after a conversion exactly when ffmpeg ran
    /// and exited successfully, and then with the converted copy; any other
    /// outcome ends it with the conversion's failure: ffmpeg's last line of
    /// error output (or `unknown error`) after it exited unsuccessfully, the
    /// advice to install it where there is none, the reason it could not be
    /// started otherwise.
    pub proof fn law_converted_only_on_success(
        &self,
        audio_path: Seq<char>,
        nocache: bool,
        convert: PrepareAction,
        outcome: FfmpegOutcome,
        r: PrepareAction,
    )
        requires
            convert is Convert,
            self.step_spec(audio_path, nocache, convert, PrepareEvent::Converted(Ok(outcome)), r),
        ensures
            (r matches PrepareAction::Finished(Ok(_))) <==> (outcome matches FfmpegOutcome::Exited {
                success,
                ..
            } && success),
            r matches PrepareAction::Finished(Ok(p)) ==> p.was_converted && p.path@
                == convert->Convert_cache_path@,
            match outcome {
                FfmpegOutcome::Exited { success, stderr } => !success ==> (r matches PrepareAction::Finished(
                    Err(TranscriptionError::ConversionFailed(m)),
                ) && m@ == "ffmpeg failed: "@ + match last_line(stderr@) {
                    Some(l) => l,
                    None => "unknown error"@,
                }),
                FfmpegOutcome::NotFound => r matches PrepareAction::Finished(
                    Err(TranscriptionError::ConversionFailed(m)),
                ) && m@ == "ffmpeg not found. Please install ffmpeg to convert audio files."@,
                FfmpegOutcome::LaunchFailed(e) => r matches PrepareAction::Finished(
                    Err(TranscriptionError::ConversionFailed(m)),
                ) && m@ == "Failed to run ffmpeg: "@ + e@,
            },
    {
    }

    fn convert_into(audio_path: &str, cache_path: String) -> (r: PrepareAction)
        ensures
            is_convert(r, audio_path@, cache_path@),
    {
        let args = ffmpeg_args(audio_path, cache_path.as_str());
        PrepareAction::Convert { cache_path, args }
    }

    /// Prepare an audio file for transcription, one step at a time: given
    /// the action that was pending and the caller's answer, the next action.
    pub fn prepare(
        &self,
        audio_path: &str,
        nocache: bool,
        pending: &PrepareAction,
        event: PrepareEvent,
    ) -> (r: PrepareAction)
        requires
            answers(*pending, event),
        ensures
            self.step_spec(audio_path@, nocache, *pending, event, r),
    {
        match pending {
            PrepareAction::CheckExists => match event {
                PrepareEvent::Exists(true) => PrepareAction::ReadHeader,
                _ => PrepareAction::Finished(
                    Err(TranscriptionError::FileNotFound(String::from_str(audio_path))),
                ),
            },
            PrepareAction::ReadHeader => match event {
                PrepareEvent::Header(h) => {
                    if is_valid_wav_header(h.as_slice()) {
                        PrepareAction::Finished(
                            Ok(
                                PreparedAudio {
                                    path: String::from_str(audio_path),
                                    was_converted: false,
                                },
                            ),
                        )
                    } else {
                        PrepareAction::ResolveSource
                    }
                },
                _ => PrepareAction::ResolveSource,
            },
            PrepareAction::ResolveSource => match event {
                PrepareEvent::Source(Err(e)) => PrepareAction::Finished(Err(e)),
                PrepareEvent::Source(Ok((abs_path, mtime))) => {
                    let cache_path = self.cache_path_for(abs_path.as_str(), mtime);
                    if nocache {
                        Self::convert_into(audio_path, cache_path)
                    } else {
                        PrepareAction::InspectCache { cache_path }
                    }
                },
                _ => PrepareAction::ResolveSource,
            },
            PrepareAction::InspectCache { cache_path } => match event {
                PrepareEvent::Cache(Err(e)) => PrepareAction::Finished(Err(e)),
                PrepareEvent::Cache(Ok(CacheProbe::Missing)) => Self::convert_into(
                    audio_path,
                    cache_path.clone(),
                ),
                PrepareEvent::Cache(Ok(CacheProbe::Present { fresh, header })) => {
                    if !fresh {
                        Self::convert_into(audio_path, cache_path.clone())
                    } else if is_valid_wav_header(header.as_slice()) {
                        PrepareAction::Finished(
                            Ok(PreparedAudio { path: cache_path.clone(), was_converted: false }),
                        )
                    } else {
                        PrepareAction::RemoveCache { cache_path: cache_path.clone() }
                    }
                },
                _ => PrepareAction::ResolveSource,
            },
            PrepareAction::RemoveCache { cache_path } => Self::convert_into(
                audio_path,
                cache_path.clone(),
            ),
            PrepareAction::Convert { cache_path, .. } => match event {
                PrepareEvent::Converted(Err(e)) => PrepareAction::Finished(Err(e)),
                PrepareEvent::Converted(Ok(outcome)) => match conversion_result(outcome) {
                    Ok(()) => PrepareAction::Finished(
                        Ok(PreparedAudio { path: cache_path.clone(), was_converted: true }),
                    ),
                    Err(e) => PrepareAction::Finished(Err(e)),
                },
                _ => PrepareAction::ResolveSource,
            },
            PrepareAction::Finished(_) => PrepareAction::ResolveSource,
        }
    }
}

// ---------------------------------------------------------------------------
// The cache directory's contents
// ---------------------------------------------------------------------------

/// An entry of the cache directory, as the caller found it.
pub struct CacheEntry {
    /// The entry's file name.
    pub file_name: String,
    /// Whether it is a regular file.
    pub is_file: bool,
    /// Its size in bytes, where its metadata could be read.
    pub size: Option<u64>,
}

/// Whether an entry is a cached conversion: a file named `*.wav`.
pub open spec fn is_cached_wav_spec(e: CacheEntry) -> bool {
    e.is_file && is_wav_file_name(e.file_name@)
}

/// The number of cached conversions among `entries`.
pub open spec fn cached_count(entries: Seq<CacheEntry>) -> nat
    decreases entries.len(),
{
    if entries.len() == 0 {
        0
    } else {
        cached_count(entries.drop_last()) + if is_cached_wav_spec(entries.last()) {
            1nat
        } else {
            0nat
        }
    }
}

/// The total size of the cached conversions among `entries` whose size is
/// known.
pub open spec fn cached_size(entries: Seq<CacheEntry>) -> nat
    decreases entries.len(),
{
    if entries.len() == 0 {
        0
    } else {
        cached_size(entries.drop_last()) + match entries.last().size {
            Some(s) if is_cached_wav_spec(entries.last()) => s as nat,
            _ => 0nat,
        }
    }
}

/// Whether an entry is a cached conversion.
pub fn is_cached_wav(e: &CacheEntry) -> (r: bool)
    ensures
        r == is_cached_wav_spec(*e),
{
    e.is_file && has_wav_extension(e.file_name.as_str())
}

proof fn lemma_cached_count_bound(entries: Seq<CacheEntry>)
    ensures
        cached_count(entries) <= entries.len(),
    decreases entries.len(),
{
    if entries.len() > 0 {
        lemma_cached_count_bound(entries.drop_last());
    }
}

impl AudioConverter {
    /// Get the number of cached WAV files among the cache directory's entries.
    pub fn cache_file_count(entries: &[CacheEntry]) -> (r: usize)
        ensures
            r == cached_count(entries@),
    {
        let n = entries.len();
        let mut count: usize = 0;
        let mut i: usize = 0;
        while i < n
            invariant
                n == entries@.len(),
                i <= n,
                count == cached_count(entries@.take(i as int)),
            decreases n - i,
        {
            proof {
                lemma_cached_count_bound(entries@.take(i as int));
            }
            assert(entries@.take(i as int + 1).drop_last() =~= entries@.take(i as int));
            if is_cached_wav(&entries[i]) {
                count = count + 1;
            }
            i = i + 1;
        }
        assert(entries@.take(n as int) =~= entries@);
        count
    }

    /// Get the total size of cached WAV files in bytes; none where it does not
    /// fit in 64 bits.
    pub fn cache_size(entries: &[CacheEntry]) -> (r: Option<u64>)
        ensures
            match r {
                Some(total) => total == cached_size(entries@),
                None => cached_size(entries@) > u64::MAX,
            },
    {
        let n = entries.len();
        let mut total: u64 = 0;
        let mut i: usize = 0;
        while i < n
            invariant
                n == entries@.len(),
                i <= n,
                total == cached_size(entries@.take(i as int)),
            decreases n - i,
        {
            assert(entries@.take(i as int + 1).drop_last() =~= entries@.take(i as int));
            assert(entries@.take(i as int + 1).last() == entries@[i as int]);
            if is_cached_wav(&entries[i]) {
                if let Some(s) = entries[i].size {
                    if total > u64::MAX - s {
                        proof {
                            lemma_cached_size_grows(entries@, i as int + 1);
                        }
                        return None;
                    }
                    total = total + s;
                }
            }
            i = i + 1;
        }
        assert(entries@.take(n as int) =~= entries@);
        Some(total)
    }
}

proof fn lemma_cached_size_grows(entries: Seq<CacheEntry>, k: int)
    requires
        0 <= k <= entries.len(),
    ensures
        cached_size(entries.take(k)) <= cached_size(entries),
    decreases entries.len() - k,
{
    if k < entries.len() {
        lemma_cached_size_grows(entries, k + 1);
        assert(entries.take(k + 1).drop_last() =~= entries.take(k));
    } else {
        assert(entries.take(k) =~= entries);
    }
}

/// Whether the entry at `i` is a cached conversion whose removal succeeded.
pub open spec fn removed_at(entries: Seq<CacheEntry>, removed: Seq<bool>, i: int) -> bool {
    is_cached_wav_spec(entries[i]) && i < removed.len() && removed[i]
}

/// The number of cached conversions among the first `k` entries whose
/// removal succeeded.
pub open spec fn removed_count(entries: Seq<CacheEntry>, removed: Seq<bool>, k: int) -> nat
    decreases k,
{
    if k <= 0 {
        0
    } else {
        removed_count(entries, removed, k - 1) + if removed_at(entries, removed, k - 1) {
            1nat
        } else {
            0nat
        }
    }
}

proof fn lemma_removed_count_bound(entries: Seq<CacheEntry>, removed: Seq<bool>, k: int)
    ensures
        removed_count(entries, removed, k) <= if k < 0 {
            0
        } else {
            k
        },
    decreases k,
{
    if k > 0 {
        lemma_removed_count_bound(entries, removed, k - 1);
    }
}

/// Clear the cache: given the cache directory's entries and, for each,
/// whether removing it succeeded (clearing removes the cached conversions
/// only), the number of files removed.
pub fn clear_cache(entries: &[CacheEntry], removed: &[bool]) -> (r: usize)
    ensures
        r == removed_count(entries@, removed@, entries@.len() as int),
{
    let n = entries.len();
    let mut count: usize = 0;
    let mut i: usize = 0;
    while i < n
        invariant
            n == entries@.len(),
            i <= n,
            count == removed_count(entries@, removed@, i as int),
        decreases n - i,
    {
        proof {
            lemma_removed_count_bound(entries@, removed@, i as int);
        }
        if is_cached_wav(&entries[i]) && i < removed.len() && removed[i] {
            count = count + 1;
        }
        i = i + 1;
    }
    count
}

} // verus!
