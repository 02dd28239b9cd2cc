//! The AssemblyAI backend's own logic: its settings, the requests it sends
//! and how it reads the service's replies.
//!
//! A transcription uploads the audio, starts a transcript of the uploaded
//! file and polls the transcript until it is completed or has failed, at
//! most a fixed number of times. The caller performs the requests and the
//! waiting; what to send and what a reply means is decided here.

use vstd::prelude::*;

use crate::backend::BackendConfig;
use crate::backends::reply::{api_error, reply_content};
use crate::error::TranscriptionError;
use crate::schema::{
    option_is, values_view, HasProviderSchema, OptionType, OptionValue, ProviderOption,
    ProviderSchema,
};
use crate::text::{
    chars_eq, chars_of, join_strings, join_with, push_str_chars, string_from_chars, string_views,
};
use crate::types::TranscriptionConfig;

verus! {

/// The service's base URL.
pub const ASSEMBLYAI_API_BASE: &'static str = "https://api.assemblyai.com/v2";

/// Milliseconds between two polls.
pub const POLL_INTERVAL_MS: u64 = 1000;

/// How many times a transcript is polled before giving up (10 minutes).
pub const MAX_POLL_ATTEMPTS: u32 = 600;

/// The request that starts a transcript.
#[derive(Debug)]
pub struct TranscriptRequest {
    /// Where the uploaded audio is.
    pub audio_url: String,
    /// Whether speakers are told apart.
    pub speaker_labels: bool,
    /// How many speakers to expect.
    pub speakers_expected: Option<u32>,
    /// Whether the language is detected.
    pub language_detection: bool,
    /// The language, where it is given.
    pub language_code: Option<String>,
    /// Whether punctuation is added.
    pub punctuate: bool,
    /// Whether the text is formatted.
    pub format_text: bool,
}

/// The reply to an upload, as far as it is read.
pub struct UploadReply {
    /// Where the uploaded file is.
    pub upload_url: String,
}

/// A stretch of speech by one speaker.
pub struct Utterance {
    /// The speaker's label.
    pub speaker: String,
    /// What was said.
    pub text: String,
}

/// A transcript as the service reports it, as far as it is read.
pub struct TranscriptReply {
    /// The transcript's id.
    pub id: String,
    /// Its status: `completed`, `error`, or one of the states before.
    pub status: String,
    /// The text.
    pub text: Option<String>,
    /// Why it failed, where it did.
    pub error: Option<String>,
    /// The language.
    pub language_code: Option<String>,
    /// The audio's length in seconds.
    pub audio_duration: Option<u64>,
    /// The text by speaker, where speakers were told apart.
    pub utterances: Option<Vec<Utterance>>,
}

/// A finished transcript, as far as this backend assembles it.
pub struct AssemblyTranscript {
    /// The text: one line per utterance where speakers were told apart.
    pub text: String,
    /// The language, where the service reported one.
    pub languages: Option<Vec<String>>,
    /// The audio's length in seconds, where the service reported it.
    pub duration_secs: Option<u64>,
}

/// The next step of waiting for a transcript.
pub enum AssemblyPoll {
    /// Fetch the transcript at this URL and hand back the reply.
    Fetch { url: String },
    /// Wait this many milliseconds, then start the next round.
    Wait { millis: u64 },
    /// Waiting is over: the completed transcript, or the error that ended it.
    Finished(Result<TranscriptReply, TranscriptionError>),
}

/// The line of an utterance.
pub open spec fn utterance_line(u: Utterance) -> Seq<char> {
    "Speaker "@ + u.speaker@ + ": "@ + u.text@
}

/// The text of a transcript: its utterances one per line where there are
/// any, else its text (empty where there is none).
pub open spec fn transcript_text(reply: TranscriptReply) -> Seq<char> {
    match reply.utterances {
        Some(us) => join_with(us@.map_values(|u: Utterance| utterance_line(u)), "\n"@),
        None => match reply.text {
            Some(t) => t@,
            None => Seq::empty(),
        },
    }
}

/// The request that starts a transcript of the audio at `audio_url`:
/// speakers are told apart where more than one is expected, the language is
/// detected where none is given, and punctuation and formatting are on.
pub fn transcript_request(audio_url: &str, config: &TranscriptionConfig) -> (r: TranscriptRequest)
    ensures
        r.audio_url@ == audio_url@,
        r.speaker_labels == (config.speaker_count matches Some(c) && c > 1),
        r.speakers_expected == match config.speaker_count {
            Some(c) => if c > 1 {
                Some(c)
            } else {
                None
            },
            None => None,
        },
        r.language_detection == (config.language is None),
        r.language_code == config.language,
        r.punctuate,
        r.format_text,
{
    let (speaker_labels, speakers_expected) = match config.speaker_count {
        Some(c) => if c > 1 {
            (true, Some(c))
        } else {
            (false, None)
        },
        None => (false, None),
    };
    let language_code = match &config.language {
        Some(l) => Some(l.clone()),
        None => None,
    };
    TranscriptRequest {
        audio_url: String::from_str(audio_url),
        speaker_labels,
        speakers_expected,
        language_detection: config.language.is_none(),
        language_code,
        punctuate: true,
        format_text: true,
    }
}

/// Assemble a completed transcript: its text, language and duration.
pub fn format_result(reply: &TranscriptReply) -> (r: AssemblyTranscript)
    ensures
        r.text@ == transcript_text(*reply),
        match reply.language_code {
            Some(l) => r.languages matches Some(v) && v@.len() == 1 && v@[0]@ == l@,
            None => r.languages is None,
        },
        r.duration_secs == reply.audio_duration,
{
    let text = match &reply.utterances {
        Some(us) => {
            let n = us.len();
            let ghost lines_spec = us@.map_values(|u: Utterance| utterance_line(u));
            let mut lines: Vec<String> = Vec::new();
            let mut i: usize = 0;
            while i < n
                invariant
                    n == us@.len(),
                    lines_spec == us@.map_values(|u: Utterance| utterance_line(u)),
                    i <= n,
                    string_views(lines@) =~= lines_spec.take(i as int),
                decreases n - i,
            {
                let mut m: Vec<char> = Vec::new();
                push_str_chars(&mut m, "Speaker ");
                push_str_chars(&mut m, us[i].speaker.as_str());
                push_str_chars(&mut m, ": ");
                push_str_chars(&mut m, us[i].text.as_str());
                lines.push(string_from_chars(m.as_slice()));
                assert(lines_spec.take(i as int + 1) =~= lines_spec.take(i as int).push(
                    lines_spec[i as int],
                ));
                i = i + 1;
            }
            assert(lines_spec.take(n as int) =~= lines_spec);
            let joined = join_strings(lines.as_slice(), "\n");
            string_from_chars(joined.as_slice())
        },
        None => match &reply.text {
            Some(t) => t.clone(),
            None => String::new(),
        },
    };
    let languages = match &reply.language_code {
        Some(l) => Some(vec![l.clone()]),
        None => None,
    };
    AssemblyTranscript { text, languages, duration_secs: reply.audio_duration }
}

/// AssemblyAI transcription backend.
pub struct AssemblyAIBackend {
    /// The API key.
    pub api_key: String,
}

impl AssemblyAIBackend {
    /// Set up the backend from a configuration, which must hold an API key.
    pub fn new(config: BackendConfig) -> (r: Result<Self, TranscriptionError>)
        ensures
            match config.api_key {
                None => r matches Err(TranscriptionError::InvalidConfig(m)) && m@
                    == "AssemblyAI API key required"@,
                Some(k) => r matches Ok(b) && b.api_key@ == k@,
            },
    {
        match config.api_key {
            Some(k) => Ok(AssemblyAIBackend { api_key: k }),
            None => Err(
                TranscriptionError::InvalidConfig(String::from_str("AssemblyAI API key required")),
            ),
        }
    }

    /// The backend's name.
    pub fn name(&self) -> (r: &'static str)
        ensures
            r@ == "assemblyai"@,
    {
        "assemblyai"
    }

    /// The features the backend supports.
    pub fn supported_features(&self) -> (r: Vec<&'static str>)
        ensures
            r@.len() == 3,
            r@[0]@ == "diarization"@,
            r@[1]@ == "language_detection"@,
            r@[2]@ == "punctuation"@,
    {
        vec!["diarization", "language_detection", "punctuation"]
    }

    /// The backend is always ready once it is set up.
    pub fn is_ready(&self) -> (r: bool)
        ensures
            r,
    {
        true
    }

    /// The URL that takes an upload.
    pub fn upload_url() -> (r: String)
        ensures
            r@ == ASSEMBLYAI_API_BASE@ + "/upload"@,
    {
        let mut u: Vec<char> = Vec::new();
        push_str_chars(&mut u, ASSEMBLYAI_API_BASE);
        push_str_chars(&mut u, "/upload");
        string_from_chars(u.as_slice())
    }

    /// The URL that starts a transcript.
    pub fn transcript_url() -> (r: String)
        ensures
            r@ == ASSEMBLYAI_API_BASE@ + "/transcript"@,
    {
        let mut u: Vec<char> = Vec::new();
        push_str_chars(&mut u, ASSEMBLYAI_API_BASE);
        push_str_chars(&mut u, "/transcript");
        string_from_chars(u.as_slice())
    }

    /// The URL of a transcript.
    pub fn transcript_status_url(transcript_id: &str) -> (r: String)
        ensures
            r@ == ASSEMBLYAI_API_BASE@ + "/transcript/"@ + transcript_id@,
    {
        let mut u: Vec<char> = Vec::new();
        push_str_chars(&mut u, ASSEMBLYAI_API_BASE);
        push_str_chars(&mut u, "/transcript/");
        push_str_chars(&mut u, transcript_id);
        string_from_chars(u.as_slice())
    }

    /// Where the uploaded file is, read from the upload's reply.
    pub fn read_upload(status_ok: bool, body: &str, parsed: Result<UploadReply, String>) -> (r:
        Result<String, TranscriptionError>)
        ensures
            !status_ok ==> (r matches Err(TranscriptionError::ApiError(m)) && m@ == "Upload failed: "@
                + body@),
            status_ok ==> match parsed {
                Ok(u) => r matches Ok(url) && url@ == u.upload_url@,
                Err(e) => r matches Err(TranscriptionError::ApiError(m)) && m@
                    == "Failed to parse upload response: "@ + e@,
            },
    {
        let upload = reply_content(
            status_ok,
            body,
            parsed,
            "Upload failed: ",
            "Failed to parse upload response: ",
        );
        match upload {
            Ok(u) => Ok(u.upload_url),
            Err(e) => Err(e),
        }
    }

    /// The id of the started transcript, read from the reply that started it.
    pub fn read_started(status_ok: bool, body: &str, parsed: Result<String, String>) -> (r: Result<
        String,
        TranscriptionError,
    >)
        ensures
            !status_ok ==> (r matches Err(TranscriptionError::ApiError(m)) && m@
                == "Failed to start transcription: "@ + body@),
            status_ok ==> match parsed {
                Ok(id) => r matches Ok(t) && t@ == id@,
                Err(e) => r matches Err(TranscriptionError::ApiError(m)) && m@
                    == "Failed to parse response: "@ + e@,
            },
    {
        reply_content(
            status_ok,
            body,
            parsed,
            "Failed to start transcription: ",
            "Failed to parse response: ",
        )
    }

    /// The start of poll round `attempt` (counted from 0) of the transcript
    /// `transcript_id`: after the last allowed round it is over, else the
    /// transcript is fetched.
    pub fn poll_begin(attempt: u32, transcript_id: &str) -> (r: AssemblyPoll)
        ensures
            if attempt >= MAX_POLL_ATTEMPTS {
                r matches AssemblyPoll::Finished(Err(TranscriptionError::ApiTimeout(m))) && m@
                    == "Transcription timed out"@
            } else {
                r matches AssemblyPoll::Fetch { url } && url@ == ASSEMBLYAI_API_BASE@
                    + "/transcript/"@ + transcript_id@
            },
    {
        if attempt >= MAX_POLL_ATTEMPTS {
            AssemblyPoll::Finished(
                Err(TranscriptionError::ApiTimeout(String::from_str("Transcription timed out"))),
            )
        } else {
            AssemblyPoll::Fetch { url: Self::transcript_status_url(transcript_id) }
        }
    }

    /// The end of a poll round, given the fetch's status, the reply's text
    /// and the reply read as a transcript: a completed transcript ends
    /// waiting, so does one that failed (with its error, or `Unknown error`),
    /// and any other status is waited for.
    pub fn poll_reply(status_ok: bool, body: &str, parsed: Result<TranscriptReply, String>) -> (r:
        AssemblyPoll)
        ensures
            !status_ok ==> (r matches AssemblyPoll::Finished(Err(TranscriptionError::ApiError(m)))
                && m@ == "Poll request failed: "@ + body@),
            status_ok ==> match parsed {
                Err(e) => r matches AssemblyPoll::Finished(Err(TranscriptionError::ApiError(m)))
                    && m@ == "Failed to parse poll response: "@ + e@,
                Ok(t) => if t.status@ == "completed"@ {
                    r == AssemblyPoll::Finished(Ok(t))
                } else if t.status@ == "error"@ {
                    r matches AssemblyPoll::Finished(Err(TranscriptionError::ApiError(m))) && m@
                        == "Transcription failed: "@ + match t.error {
                        Some(e) => e@,
                        None => "Unknown error"@,
                    }
                } else {
                    r == (AssemblyPoll::Wait { millis: POLL_INTERVAL_MS })
                },
            },
    {
        let transcript = reply_content(
            status_ok,
            body,
            parsed,
            "Poll request failed: ",
            "Failed to parse poll response: ",
        );
        match transcript {
            Err(e) => AssemblyPoll::Finished(Err(e)),
            Ok(t) => {
                let status = chars_of(t.status.as_str());
                let completed = chars_of("completed");
                let error = chars_of("error");
                if chars_eq(status.as_slice(), completed.as_slice()) {
                    AssemblyPoll::Finished(Ok(t))
                } else if chars_eq(status.as_slice(), error.as_slice()) {
                    let e = match &t.error {
                        Some(e) => api_error("Transcription failed: ", e.as_str()),
                        None => api_error("Transcription failed: ", "Unknown error"),
                    };
                    AssemblyPoll::Finished(Err(e))
                } else {
                    AssemblyPoll::Wait { millis: POLL_INTERVAL_MS }
                }
            },
        }
    }
}

impl HasProviderSchema for AssemblyAIBackend {
    /// The options this provider offers for configuration.
    fn get_provider_schema() -> (r: ProviderSchema)
        ensures
            r.provider_id@ == "assemblyai"@,
            r.provider_name@ == "AssemblyAI"@,
            r.options@.len() == 3,
            option_is(
                r.options@[0],
                "api_key"@,
                "API Key"@,
                OptionType::Text,
                true,
                ""@,
                Seq::empty(),
                Some("Your AssemblyAI API key from https://www.assemblyai.com/"@),
            ),
            option_is(
                r.options@[1],
                "speaker_labels"@,
                "Speaker Diarization"@,
                OptionType::Checkbox,
                false,
                "false"@,
                Seq::empty(),
                Some("Enable speaker diarization to identify different speakers"@),
            ),
            option_is(
                r.options@[2],
                "language"@,
                "Language"@,
                OptionType::Select,
                false,
                ""@,
                seq![
                    (""@, "Auto-detect"@),
                    ("en"@, "English"@),
                    ("es"@, "Spanish"@),
                    ("fr"@, "French"@),
                    ("de"@, "German"@),
                    ("it"@, "Italian"@),
                    ("pt"@, "Portuguese"@),
                    ("nl"@, "Dutch"@),
                    ("ja"@, "Japanese"@),
                    ("ko"@, "Korean"@),
                    ("zh"@, "Chinese"@),
                    ("ru"@, "Russian"@),
                    ("ar"@, "Arabic"@),
                    ("he"@, "Hebrew"@),
                    ("hi"@, "Hindi"@),
                    ("tr"@, "Turkish"@),
                    ("pl"@, "Polish"@),
                    ("uk"@, "Ukrainian"@),
                ],
                Some("Language of the audio (leave empty for auto-detection)"@),
            ),
    {
        let schema = ProviderSchema::new("assemblyai", "AssemblyAI")
            .with_option(
                ProviderOption::new("api_key", "API Key", OptionType::Text)
                    .required()
                    .with_description(
                        "Your AssemblyAI API key from https://www.assemblyai.com/",
                    )
            )
            .with_option(
                ProviderOption::new("speaker_labels", "Speaker Diarization", OptionType::Checkbox)
                    .with_default("false")
                    .with_description(
                        "Enable speaker diarization to identify different speakers",
                    )
            )
            .with_option(
                ProviderOption::new("language", "Language", OptionType::Select)
                    .with_default("")
                    .with_values(
                        vec![
                            OptionValue::new("", "Auto-detect"),
                            OptionValue::new("en", "English"),
                            OptionValue::new("es", "Spanish"),
                            OptionValue::new("fr", "French"),
                            OptionValue::new("de", "German"),
                            OptionValue::new("it", "Italian"),
                            OptionValue::new("pt", "Portuguese"),
                            OptionValue::new("nl", "Dutch"),
                            OptionValue::new("ja", "Japanese"),
                            OptionValue::new("ko", "Korean"),
                            OptionValue::new("zh", "Chinese"),
                            OptionValue::new("ru", "Russian"),
                            OptionValue::new("ar", "Arabic"),
                            OptionValue::new("he", "Hebrew"),
                            OptionValue::new("hi", "Hindi"),
                            OptionValue::new("tr", "Turkish"),
                            OptionValue::new("pl", "Polish"),
                            OptionValue::new("uk", "Ukrainian"),
                        ],
                    )
                    .with_description(
                        "Language of the audio (leave empty for auto-detection)",
                    )
            );
        proof {
            reveal_strlit("");
            assert(values_view(schema.options@[0].values@) =~= Seq::empty());
            assert(schema.options@[0].default@ == ""@);
            assert(values_view(schema.options@[1].values@) =~= Seq::empty());
            assert(values_view(schema.options@[2].values@) =~= seq![
                (""@, "Auto-detect"@),
                ("en"@, "English"@),
                ("es"@, "Spanish"@),
                ("fr"@, "French"@),
                ("de"@, "German"@),
                ("it"@, "Italian"@),
                ("pt"@, "Portuguese"@),
                ("nl"@, "Dutch"@),
                ("ja"@, "Japanese"@),
                ("ko"@, "Korean"@),
                ("zh"@, "Chinese"@),
                ("ru"@, "Russian"@),
                ("ar"@, "Arabic"@),
                ("he"@, "Hebrew"@),
                ("hi"@, "Hindi"@),
                ("tr"@, "Turkish"@),
                ("pl"@, "Polish"@),
                ("uk"@, "Ukrainian"@),
            ]);
        }
        schema
    }
}

} // verus!
