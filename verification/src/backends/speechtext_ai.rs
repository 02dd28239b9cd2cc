//! The SpeechText.AI backend's own logic: its settings, the requests it
//! sends and how it reads the service's replies.
//!
//! The service takes the audio in one request and answers with a task id;
//! the transcript is then fetched by polling until the task is done, fails,
//! or the backend's timeout passes. The caller performs the requests and the
//! waiting; what to send and what a reply means is decided here.

use vstd::prelude::*;

use crate::backend::BackendConfig;
use crate::error::TranscriptionError;
use crate::language::{normalize_language_code, normalize_spec, PROVIDER_SPEECHTEXT_AI};
use crate::text::{
    chars_eq, chars_of, decimal, join_strings, join_with, parse_u64, parse_u64_spec,
    push_all, push_str_chars, string_from_chars, string_views, u64_to_decimal,
};
use crate::types::TranscriptionConfig;

verus! {

/// The endpoint that takes audio for recognition.
pub const API_BASE_URL: &'static str = "https://api.speechtext.ai/recognize";

/// The endpoint that reports a task's results.
pub const RESULTS_URL: &'static str = "https://api.speechtext.ai/results";

/// Default polling interval in seconds.
pub const DEFAULT_POLL_INTERVAL_SECS: u64 = 5;

/// Default timeout in seconds (30 minutes).
pub const DEFAULT_TIMEOUT_SECS: u64 = 1800;

// ---------------------------------------------------------------------------
// Options
// ---------------------------------------------------------------------------

/// SpeechText.AI-specific transcription options.
#[derive(Debug)]
pub struct SpeechTextAIOptions {
    /// Enable punctuation in output.
    pub punctuation: bool,
    /// Generate summary of the transcription.
    pub summary: bool,
    /// Extract highlights/key phrases.
    pub highlights: bool,
    /// Number of speakers for diarization (0 = auto, 1 = disabled).
    pub number_of_speakers: u32,
    /// Output format: "txt", "srt", "vtt".
    pub caption_output: Option<String>,
    /// Custom vocabulary words to improve recognition.
    pub custom_vocabulary: Vec<String>,
}

/// Whether two option sets hold the same values.
pub open spec fn same_options(a: SpeechTextAIOptions, b: SpeechTextAIOptions) -> bool {
    &&& a.punctuation == b.punctuation
    &&& a.summary == b.summary
    &&& a.highlights == b.highlights
    &&& a.number_of_speakers == b.number_of_speakers
    &&& a.caption_output == b.caption_output
    &&& a.custom_vocabulary@ == b.custom_vocabulary@
}

/// Options with nothing enabled and nothing set.
pub open spec fn all_off(o: SpeechTextAIOptions) -> bool {
    &&& !o.punctuation
    &&& !o.summary
    &&& !o.highlights
    &&& o.number_of_speakers == 0
    &&& o.caption_output is None
    &&& o.custom_vocabulary@.len() == 0
}

impl Clone for SpeechTextAIOptions {
    fn clone(&self) -> (r: Self)
        ensures
            same_options(r, *self),
    {
        let caption_output = match &self.caption_output {
            Some(c) => Some(c.clone()),
            None => None,
        };
        let custom_vocabulary = self.custom_vocabulary.clone();
        assert(custom_vocabulary@ =~= self.custom_vocabulary@);
        SpeechTextAIOptions {
            punctuation: self.punctuation,
            summary: self.summary,
            highlights: self.highlights,
            number_of_speakers: self.number_of_speakers,
            caption_output,
            custom_vocabulary,
        }
    }
}

impl Default for SpeechTextAIOptions {
    fn default() -> (r: Self)
        ensures
            all_off(r),
    {
        SpeechTextAIOptions {
            punctuation: false,
            summary: false,
            highlights: false,
            number_of_speakers: 0,
            caption_output: None,
            custom_vocabulary: Vec::new(),
        }
    }
}

impl SpeechTextAIOptions {
    /// The usual options: punctuation on, everything else off or unset.
    pub fn new() -> (r: Self)
        ensures
            r.punctuation,
            !r.summary,
            !r.highlights,
            r.number_of_speakers == 0,
            r.caption_output is None,
            r.custom_vocabulary@.len() == 0,
    {
        SpeechTextAIOptions {
            punctuation: true,
            summary: false,
            highlights: false,
            number_of_speakers: 0,
            caption_output: None,
            custom_vocabulary: Vec::new(),
        }
    }

    /// Enable or disable punctuation.
    pub fn with_punctuation(self, enabled: bool) -> (r: Self)
        ensures
            r == (SpeechTextAIOptions { punctuation: enabled, ..self }),
    {
        SpeechTextAIOptions { punctuation: enabled, ..self }
    }

    /// Enable or disable summary generation.
    pub fn with_summary(self, enabled: bool) -> (r: Self)
        ensures
            r == (SpeechTextAIOptions { summary: enabled, ..self }),
    {
        SpeechTextAIOptions { summary: enabled, ..self }
    }

    /// Enable or disable highlights extraction.
    pub fn with_highlights(self, enabled: bool) -> (r: Self)
        ensures
            r == (SpeechTextAIOptions { highlights: enabled, ..self }),
    {
        SpeechTextAIOptions { highlights: enabled, ..self }
    }

    /// Set number of speakers for diarization.
    pub fn with_speakers(self, count: u32) -> (r: Self)
        ensures
            r == (SpeechTextAIOptions { number_of_speakers: count, ..self }),
    {
        SpeechTextAIOptions { number_of_speakers: count, ..self }
    }

    /// Set caption output format.
    pub fn with_caption_output(self, format: &str) -> (r: Self)
        ensures
            r.caption_output matches Some(c) && c@ == format@,
            r.punctuation == self.punctuation,
            r.summary == self.summary,
            r.highlights == self.highlights,
            r.number_of_speakers == self.number_of_speakers,
            r.custom_vocabulary == self.custom_vocabulary,
    {
        SpeechTextAIOptions { caption_output: Some(String::from_str(format)), ..self }
    }

    /// Set the custom vocabulary words.
    pub fn with_custom_vocabulary(self, words: Vec<String>) -> (r: Self)
        ensures
            r == (SpeechTextAIOptions { custom_vocabulary: words, ..self }),
    {
        SpeechTextAIOptions { custom_vocabulary: words, ..self }
    }
}

// ---------------------------------------------------------------------------
// Settings
// ---------------------------------------------------------------------------

/// A boolean setting: `"true"` or `"1"` turn it on, any other value off,
/// and `default` holds where it is not set.
pub open spec fn flag_spec(value: Option<Seq<char>>, default: bool) -> bool {
    match value {
        Some(v) => v == "true"@ || v == "1"@,
        None => default,
    }
}

/// A number of seconds: the setting's value where it parses as an unsigned
/// integer, else `default`.
pub open spec fn secs_spec(value: Option<Seq<char>>, default: u64) -> u64 {
    match value {
        Some(v) => match parse_u64_spec(v) {
            Some(n) => n,
            None => default,
        },
        None => default,
    }
}

fn option_flag(config: &BackendConfig, name: &str, default: bool) -> (r: bool)
    ensures
        r == flag_spec(config.options.value_of(name@), default),
{
    match config.options.get(name) {
        Some(v) => {
            let c = chars_of(v.as_str());
            let t = chars_of("true");
            let one = chars_of("1");
            chars_eq(c.as_slice(), t.as_slice()) || chars_eq(c.as_slice(), one.as_slice())
        },
        None => default,
    }
}

fn option_secs(config: &BackendConfig, name: &str, default: u64) -> (r: u64)
    ensures
        r == secs_spec(config.options.value_of(name@), default),
{
    match config.options.get(name) {
        Some(v) => {
            let c = chars_of(v.as_str());
            match parse_u64(c.as_slice()) {
                Some(n) => n,
                None => default,
            }
        },
        None => default,
    }
}

// ---------------------------------------------------------------------------
// Requests and replies
// ---------------------------------------------------------------------------

/// `"true"` or `"false"`.
pub open spec fn bool_text(b: bool) -> Seq<char> {
    if b {
        "true"@
    } else {
        "false"@
    }
}

/// The URL that submits audio: the key, the language and the punctuation
/// setting as query parameters, then the number of speakers where it is
/// set and the custom vocabulary, comma-separated, where there is one.
pub open spec fn submit_url_spec(
    api_key: Seq<char>,
    language: Seq<char>,
    options: SpeechTextAIOptions,
) -> Seq<char> {
    API_BASE_URL@ + "?key="@ + api_key + "&language="@ + language + "&punctuation="@ + bool_text(
        options.punctuation,
    ) + (if options.number_of_speakers > 0 {
        "&numberOfSpeakers="@ + decimal(options.number_of_speakers as nat)
    } else {
        Seq::empty()
    }) + (if options.custom_vocabulary@.len() > 0 {
        "&customVocabulary="@ + join_with(string_views(options.custom_vocabulary@), ","@)
    } else {
        Seq::empty()
    })
}

/// Law: the submission URL carries `&numberOfSpeakers=` and the number,
/// right after the punctuation setting, exactly when the options set a
/// positive number of speakers (one included: it turns speaker detection
/// off); otherwise it is the URL of the same options without a number.
pub proof fn law_speaker_count_in_url(
    api_key: Seq<char>,
    language: Seq<char>,
    options: SpeechTextAIOptions,
)
    ensures
        ({
            let head = API_BASE_URL@ + "?key="@ + api_key + "&language="@ + language
                + "&punctuation="@ + (if options.punctuation {
                "true"@
            } else {
                "false"@
            });
            let unset = SpeechTextAIOptions { number_of_speakers: 0, ..options };
            &&& submit_url_spec(api_key, language, unset).take(head.len() as int) == head
            &&& options.number_of_speakers > 0 ==> submit_url_spec(api_key, language, options)
                == head + "&numberOfSpeakers="@ + decimal(options.number_of_speakers as nat)
                + submit_url_spec(api_key, language, unset).skip(head.len() as int)
            &&& options.number_of_speakers == 0 ==> submit_url_spec(api_key, language, options)
                == submit_url_spec(api_key, language, unset)
        }),
{
    let head = API_BASE_URL@ + "?key="@ + api_key + "&language="@ + language + "&punctuation="@
        + bool_text(options.punctuation);
    let unset = SpeechTextAIOptions { number_of_speakers: 0, ..options };
    let vocab = if options.custom_vocabulary@.len() > 0 {
        "&customVocabulary="@ + join_with(string_views(options.custom_vocabulary@), ","@)
    } else {
        Seq::<char>::empty()
    };
    assert(submit_url_spec(api_key, language, unset) == head + Seq::<char>::empty() + vocab);
    assert(head + Seq::<char>::empty() + vocab =~= head + vocab);
    assert((head + vocab).take(head.len() as int) =~= head);
    assert((head + vocab).skip(head.len() as int) =~= vocab);
    if options.number_of_speakers > 0 {
        let n = "&numberOfSpeakers="@ + decimal(options.number_of_speakers as nat);
        assert(submit_url_spec(api_key, language, options) == head + n + vocab);
        assert(head + "&numberOfSpeakers="@ + decimal(options.number_of_speakers as nat) + vocab
            =~= head + n + vocab);
    } else {
        assert(options == unset);
    }
}

/// The URL that fetches a task's results.
pub open spec fn results_url_spec(api_key: Seq<char>, task_id: Seq<char>) -> Seq<char> {
    RESULTS_URL@ + "?key="@ + api_key + "&task="@ + task_id
}

/// How `Debug` renders a whole number of seconds as a duration.
pub open spec fn duration_text(secs: u64) -> Seq<char> {
    if secs == 0 {
        "0ns"@
    } else {
        decimal(secs as nat) + "s"@
    }
}

/// The reply to a submission, as far as it is read.
pub struct RecognizeReply {
    /// The task id.
    pub id: Option<String>,
    /// An error the service reported.
    pub error: Option<String>,
}

/// The results part of a completed task.
pub struct ResultsText {
    /// The transcript.
    pub transcript: Option<String>,
}

/// The reply to a results request, as far as it is read.
pub struct ResultsReply {
    /// The task's status.
    pub status: String,
    /// The results, once there are any.
    pub results: Option<ResultsText>,
    /// An error the service reported.
    pub error: Option<String>,
}

/// A status that means the task is done.
pub open spec fn is_completed_status(s: Seq<char>) -> bool {
    s == "completed"@ || s == "finished"@ || s == "SUCCESS"@
}

/// A status that means the task failed.
pub open spec fn is_failed_status(s: Seq<char>) -> bool {
    s == "failed"@ || s == "FAILED"@ || s == "ERROR"@ || s == "error"@
}

/// The transcript of a completed task (empty where there is none).
pub open spec fn transcript_text(results: ResultsText) -> Seq<char> {
    match results.transcript {
        Some(t) => t@,
        None => Seq::empty(),
    }
}

/// What a results reply means: an error the service reported, the
/// transcript of a completed task (an error where the reply holds no
/// results), an error for a failed task, or `None` while the task runs.
pub open spec fn status_outcome(
    reply: ResultsReply,
    r: Result<Option<String>, TranscriptionError>,
) -> bool {
    match reply.error {
        Some(e) => r matches Err(TranscriptionError::ApiError(m)) && m@ == e@,
        None => if is_completed_status(reply.status@) {
            match reply.results {
                None => r matches Err(TranscriptionError::TranscriptionFailed(m)) && m@
                    == "No results in completed response"@,
                Some(res) => r matches Ok(Some(c)) && c@ == transcript_text(res),
            }
        } else if is_failed_status(reply.status@) {
            r matches Err(TranscriptionError::TranscriptionFailed(m)) && m@
                == "Transcription failed on the server"@
        } else {
            r matches Ok(None)
        },
    }
}

/// Law: a reply without an error whose status is `failed`, `FAILED`,
/// `ERROR` or `error` ends the task with the server's failure, never as
/// still running and never with a transcript.
pub proof fn law_failed_task_is_reported(
    reply: ResultsReply,
    r: Result<Option<String>, TranscriptionError>,
)
    requires
        reply.error is None,
        reply.status@ == "failed"@ || reply.status@ == "FAILED"@ || reply.status@ == "ERROR"@
            || reply.status@ == "error"@,
        status_outcome(reply, r),
    ensures
        r matches Err(TranscriptionError::TranscriptionFailed(m)) && m@
            == "Transcription failed on the server"@,
{
    reveal_strlit("failed");
    reveal_strlit("FAILED");
    reveal_strlit("ERROR");
    reveal_strlit("error");
    reveal_strlit("completed");
    reveal_strlit("finished");
    reveal_strlit("SUCCESS");
    assert(reply.status@.len() <= 6);
    assert("completed"@.len() == 9 && "finished"@.len() == 8 && "SUCCESS"@.len() == 7);
    assert(!is_completed_status(reply.status@));
}

/// Law: a reply without an error whose status is `completed`, `finished`
/// or `SUCCESS` and that holds results gives their transcript.
pub proof fn law_completed_task_gives_transcript(
    reply: ResultsReply,
    r: Result<Option<String>, TranscriptionError>,
)
    requires
        reply.error is None,
        reply.status@ == "completed"@ || reply.status@ == "finished"@ || reply.status@
            == "SUCCESS"@,
        reply.results is Some,
        status_outcome(reply, r),
    ensures
        r matches Ok(Some(t)) && t@ == match reply.results->0.transcript {
            Some(x) => x@,
            None => Seq::empty(),
        },
{
}

/// Law: a task is taken as still running only on a reply without an error
/// whose status is none of the seven that end it.
pub proof fn law_running_only_on_other_statuses(
    reply: ResultsReply,
    r: Result<Option<String>, TranscriptionError>,
)
    requires
        status_outcome(reply, r),
    ensures
        (r == Ok::<Option<String>, TranscriptionError>(None)) <==> {
            &&& reply.error is None
            &&& reply.status@ != "completed"@
            &&& reply.status@ != "finished"@
            &&& reply.status@ != "SUCCESS"@
            &&& reply.status@ != "failed"@
            &&& reply.status@ != "FAILED"@
            &&& reply.status@ != "ERROR"@
            &&& reply.status@ != "error"@
        },
{
}

fn completed_status(s: &[char]) -> (r: bool)
    ensures
        r == is_completed_status(s@),
{
    let a = chars_of("completed");
    let b = chars_of("finished");
    let c = chars_of("SUCCESS");
    chars_eq(s, a.as_slice()) || chars_eq(s, b.as_slice()) || chars_eq(s, c.as_slice())
}

fn failed_status(s: &[char]) -> (r: bool)
    ensures
        r == is_failed_status(s@),
{
    let a = chars_of("failed");
    let b = chars_of("FAILED");
    let c = chars_of("ERROR");
    let d = chars_of("error");
    chars_eq(s, a.as_slice()) || chars_eq(s, b.as_slice()) || chars_eq(s, c.as_slice())
        || chars_eq(s, d.as_slice())
}

/// The transcript held by a completed task's results; an error where the
/// reply holds none.
pub fn parse_results(results: &Option<ResultsText>) -> (r: Result<String, TranscriptionError>)
    ensures
        match results {
            None => r matches Err(TranscriptionError::TranscriptionFailed(m)) && m@
                == "No results in completed response"@,
            Some(res) => r matches Ok(c) && c@ == transcript_text(*res),
        },
{
    match results {
        None => Err(
            TranscriptionError::TranscriptionFailed(
                String::from_str("No results in completed response"),
            ),
        ),
        Some(res) => match &res.transcript {
            Some(t) => Ok(t.clone()),
            None => Ok(String::new()),
        },
    }
}

/// What a results reply means: `Some` transcript once the task is done,
/// `None` while it runs, or the error that ended it.
pub fn check_status(reply: &ResultsReply) -> (r: Result<Option<String>, TranscriptionError>)
    ensures
        status_outcome(*reply, r),
{
    match &reply.error {
        Some(e) => Err(TranscriptionError::ApiError(e.clone())),
        None => {
            let status = chars_of(reply.status.as_str());
            if completed_status(status.as_slice()) {
                match parse_results(&reply.results) {
                    Ok(c) => Ok(Some(c)),
                    Err(e) => Err(e),
                }
            } else if failed_status(status.as_slice()) {
                Err(
                    TranscriptionError::TranscriptionFailed(
                        String::from_str("Transcription failed on the server"),
                    ),
                )
            } else {
                Ok(None)
            }
        },
    }
}

/// What a submission's reply means: the task id, or the error that the
/// status, the body or the service reported. `status_text` is the HTTP
/// status as it is displayed, `body` the reply's text and `parsed` the
/// body read as JSON (or the parser's complaint).
pub fn interpret_submit(
    status_ok: bool,
    status_text: &str,
    body: &str,
    parsed: Result<RecognizeReply, String>,
) -> (r: Result<String, TranscriptionError>)
    ensures
        !status_ok ==> (r matches Err(TranscriptionError::ApiError(m)) && m@ == "API returned status "@
            + status_text@ + ": "@ + body@),
        status_ok ==> match parsed {
            Err(e) => r matches Err(TranscriptionError::ApiError(m)) && m@
                == "Failed to parse response: "@ + e@ + " - body: "@ + body@,
            Ok(reply) => match reply.error {
                Some(e) => r matches Err(TranscriptionError::ApiError(m)) && m@ == "API error: "@ + e@
                    + " (full response: "@ + body@ + ")"@,
                None => match reply.id {
                    Some(id) => r matches Ok(t) && t@ == id@,
                    None => r matches Err(TranscriptionError::ApiError(m)) && m@
                        == "No task id in response. Full response: "@ + body@,
                },
            },
        },
{
    if !status_ok {
        let mut m: Vec<char> = Vec::new();
        push_str_chars(&mut m, "API returned status ");
        push_str_chars(&mut m, status_text);
        push_str_chars(&mut m, ": ");
        push_str_chars(&mut m, body);
        return Err(TranscriptionError::ApiError(string_from_chars(m.as_slice())));
    }
    match parsed {
        Err(e) => {
            let mut m: Vec<char> = Vec::new();
            push_str_chars(&mut m, "Failed to parse response: ");
            push_str_chars(&mut m, e.as_str());
            push_str_chars(&mut m, " - body: ");
            push_str_chars(&mut m, body);
            Err(TranscriptionError::ApiError(string_from_chars(m.as_slice())))
        },
        Ok(reply) => match reply.error {
            Some(e) => {
                let mut m: Vec<char> = Vec::new();
                push_str_chars(&mut m, "API error: ");
                push_str_chars(&mut m, e.as_str());
                push_str_chars(&mut m, " (full response: ");
                push_str_chars(&mut m, body);
                push_str_chars(&mut m, ")");
                Err(TranscriptionError::ApiError(string_from_chars(m.as_slice())))
            },
            None => match reply.id {
                Some(id) => Ok(id),
                None => {
                    let mut m: Vec<char> = Vec::new();
                    push_str_chars(&mut m, "No task id in response. Full response: ");
                    push_str_chars(&mut m, body);
                    Err(TranscriptionError::ApiError(string_from_chars(m.as_slice())))
                },
            },
        },
    }
}

/// The language a request is made in: the configured one, else Hebrew, in
/// the form SpeechText.AI expects.
pub open spec fn requested_language(config: TranscriptionConfig) -> Seq<char> {
    normalize_spec(
        match config.language {
            Some(l) => l@,
            None => "he-IL"@,
        },
        PROVIDER_SPEECHTEXT_AI@,
    )
}

/// The language to request for a transcription.
pub fn request_language(config: &TranscriptionConfig) -> (r: String)
    ensures
        r@ == requested_language(*config),
{
    match &config.language {
        Some(l) => normalize_language_code(l.as_str(), PROVIDER_SPEECHTEXT_AI),
        None => normalize_language_code("he-IL", PROVIDER_SPEECHTEXT_AI),
    }
}

// ---------------------------------------------------------------------------
// The backend
// ---------------------------------------------------------------------------

/// The next step of waiting for a task's results.
pub enum PollAction {
    /// Fetch this URL and hand back the reply.
    Fetch { url: String },
    /// Wait this many seconds, then start the next round.
    Wait { secs: u64 },
    /// Waiting is over: the transcript, or the error that ended it.
    Finished(Result<String, TranscriptionError>),
}

/// SpeechText.AI cloud transcription backend.
#[derive(Debug)]
pub struct SpeechTextAIBackend {
    /// The API key.
    pub api_key: String,
    /// Seconds between two polls for results.
    pub poll_interval_secs: u64,
    /// Seconds after which waiting for results gives up.
    pub timeout_secs: u64,
    /// The options every request starts from.
    pub default_options: SpeechTextAIOptions,
}

/// Whether `b` is the backend a configuration with API key `key` sets up:
/// the intervals and the punctuation, summary and highlights flags come
/// from the configuration's options, everything else is unset.
pub open spec fn configured(b: SpeechTextAIBackend, config: BackendConfig, key: Seq<char>) -> bool {
    &&& b.api_key@ == key
    &&& b.poll_interval_secs == secs_spec(
        config.options.value_of("poll_interval"@),
        DEFAULT_POLL_INTERVAL_SECS,
    )
    &&& b.timeout_secs == secs_spec(config.options.value_of("timeout"@), DEFAULT_TIMEOUT_SECS)
    &&& b.default_options.punctuation == flag_spec(config.options.value_of("punctuation"@), true)
    &&& b.default_options.summary == flag_spec(config.options.value_of("summary"@), false)
    &&& b.default_options.highlights == flag_spec(config.options.value_of("highlights"@), false)
    &&& b.default_options.number_of_speakers == 0
    &&& b.default_options.caption_output is None
    &&& b.default_options.custom_vocabulary@.len() == 0
}

impl SpeechTextAIBackend {
    /// Set up the backend from a configuration, which must hold an API key.
    pub fn new(config: BackendConfig) -> (r: Result<Self, TranscriptionError>)
        ensures
            match config.api_key {
                None => r matches Err(TranscriptionError::InvalidConfig(m)) && m@
                    == "API key is required"@,
                Some(k) => r matches Ok(b) && configured(b, config, k@),
            },
    {
        let api_key = match &config.api_key {
            Some(k) => k.clone(),
            None => {
                return Err(TranscriptionError::InvalidConfig(String::from_str("API key is required")));
            },
        };
        let punctuation = option_flag(&config, "punctuation", true);
        let summary = option_flag(&config, "summary", false);
        let highlights = option_flag(&config, "highlights", false);
        let poll_interval_secs = option_secs(&config, "poll_interval", DEFAULT_POLL_INTERVAL_SECS);
        let timeout_secs = option_secs(&config, "timeout", DEFAULT_TIMEOUT_SECS);
        let default_options = SpeechTextAIOptions::new().with_punctuation(punctuation).with_summary(
            summary,
        ).with_highlights(highlights);
        Ok(SpeechTextAIBackend { api_key, poll_interval_secs, timeout_secs, default_options })
    }

    /// The backend's name.
    pub fn name(&self) -> (r: &'static str)
        ensures
            r@ == "speechtext_ai"@,
    {
        "speechtext_ai"
    }

    /// The features the backend supports.
    pub fn supported_features(&self) -> (r: Vec<&'static str>)
        ensures
            r@.len() == 7,
            r@[0]@ == "language_detection"@,
            r@[1]@ == "timestamps"@,
            r@[2]@ == "speaker_diarization"@,
            r@[3]@ == "punctuation"@,
            r@[4]@ == "summary"@,
            r@[5]@ == "highlights"@,
            r@[6]@ == "captions"@,
    {
        vec![
            "language_detection",
            "timestamps",
            "speaker_diarization",
            "punctuation",
            "summary",
            "highlights",
            "captions",
        ]
    }

    /// Whether the backend can transcribe: it has a non-empty API key.
    pub fn is_ready(&self) -> (r: bool)
        ensures
            r == (self.api_key@.len() > 0),
    {
        self.api_key.as_str().unicode_len() > 0
    }

    /// The options of one request: the backend's defaults, with the
    /// configured number of speakers where there is one.
    pub fn build_options(&self, config: &TranscriptionConfig) -> (r: SpeechTextAIOptions)
        ensures
            same_options(
                r,
                SpeechTextAIOptions {
                    number_of_speakers: match config.speaker_count {
                        Some(c) => c,
                        None => self.default_options.number_of_speakers,
                    },
                    ..self.default_options
                },
            ),
    {
        let mut options = self.default_options.clone();
        if let Some(c) = config.speaker_count {
            options.number_of_speakers = c;
        }
        options
    }

    /// The URL that submits audio in `language` with `options`.
    pub fn submit_url(&self, language: &str, options: &SpeechTextAIOptions) -> (r: String)
        ensures
            r@ == submit_url_spec(self.api_key@, language@, *options),
    {
        let mut u: Vec<char> = Vec::new();
        push_str_chars(&mut u, API_BASE_URL);
        push_str_chars(&mut u, "?key=");
        push_str_chars(&mut u, self.api_key.as_str());
        push_str_chars(&mut u, "&language=");
        push_str_chars(&mut u, language);
        push_str_chars(&mut u, "&punctuation=");
        if options.punctuation {
            push_str_chars(&mut u, "true");
        } else {
            push_str_chars(&mut u, "false");
        }
        if options.number_of_speakers > 0 {
            push_str_chars(&mut u, "&numberOfSpeakers=");
            let d = u64_to_decimal(options.number_of_speakers as u64);
            push_all(&mut u, d.as_slice());
        }
        if options.custom_vocabulary.len() > 0 {
            push_str_chars(&mut u, "&customVocabulary=");
            let words = join_strings(options.custom_vocabulary.as_slice(), ",");
            push_all(&mut u, words.as_slice());
        }
        string_from_chars(u.as_slice())
    }

    /// The URL that fetches the results of `task_id`.
    pub fn results_url(&self, task_id: &str) -> (r: String)
        ensures
            r@ == results_url_spec(self.api_key@, task_id@),
    {
        let mut u: Vec<char> = Vec::new();
        push_str_chars(&mut u, RESULTS_URL);
        push_str_chars(&mut u, "?key=");
        push_str_chars(&mut u, self.api_key.as_str());
        push_str_chars(&mut u, "&task=");
        push_str_chars(&mut u, task_id);
        string_from_chars(u.as_slice())
    }

    /// The start of a round of waiting for `task_id`, `elapsed_nanos` after
    /// waiting began: past the timeout it is over, else the results are
    /// fetched.
    pub fn poll_begin(&self, task_id: &str, elapsed_nanos: u128) -> (r: PollAction)
        ensures
            if elapsed_nanos > self.timeout_secs * 1_000_000_000 {
                r matches PollAction::Finished(Err(TranscriptionError::ApiTimeout(m))) && m@
                    == "Transcription timed out after "@ + duration_text(self.timeout_secs)
            } else {
                r matches PollAction::Fetch { url } && url@ == results_url_spec(
                    self.api_key@,
                    task_id@,
                )
            },
    {
        let limit: u128 = self.timeout_secs as u128 * 1_000_000_000u128;
        if elapsed_nanos > limit {
            let mut m: Vec<char> = Vec::new();
            push_str_chars(&mut m, "Transcription timed out after ");
            if self.timeout_secs == 0 {
                push_str_chars(&mut m, "0ns");
            } else {
                let d = u64_to_decimal(self.timeout_secs);
                push_all(&mut m, d.as_slice());
                push_str_chars(&mut m, "s");
            }
            PollAction::Finished(Err(TranscriptionError::ApiTimeout(string_from_chars(m.as_slice()))))
        } else {
            PollAction::Fetch { url: self.results_url(task_id) }
        }
    }

    /// The end of a round: the reply to the fetch, or the error that
    /// fetching or reading it ran into. A task still running is waited for.
    pub fn poll_reply(&self, reply: Result<ResultsReply, TranscriptionError>) -> (r: PollAction)
        ensures
            match reply {
                Err(e) => r == PollAction::Finished(Err(e)),
                Ok(rep) => exists|o: Result<Option<String>, TranscriptionError>|
                    #![auto]
                    status_outcome(rep, o) && match o {
                        Ok(None) => r == (PollAction::Wait { secs: self.poll_interval_secs }),
                        Ok(Some(c)) => r == PollAction::Finished(Ok(c)),
                        Err(e) => r == PollAction::Finished(Err(e)),
                    },
            },
    {
        match reply {
            Err(e) => PollAction::Finished(Err(e)),
            Ok(rep) => {
                let o = check_status(&rep);
                match o {
                    Ok(None) => PollAction::Wait { secs: self.poll_interval_secs },
                    Ok(Some(c)) => PollAction::Finished(Ok(c)),
                    Err(e) => PollAction::Finished(Err(e)),
                }
            },
        }
    }
}

} // verus!
