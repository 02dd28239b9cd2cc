//! The Google Cloud Speech backend's own logic: its settings, the request
//! it sends and how it reads the recognition results.
//!
//! Recognition is one request to the regional Speech-to-Text (v2)
//! endpoint, with the audio inline as base64. The caller performs the
//! request; what to send and how the results read is decided here.

pub mod base64;

use vstd::prelude::*;

use crate::backend::BackendConfig;
use crate::backends::google_cloud::base64::{base64_spec, encode};
use crate::error::TranscriptionError;
use crate::schema::{
    option_is, values_view, HasProviderSchema, OptionType, OptionValue, ProviderOption,
    ProviderSchema,
};
use crate::text::{
    chars_eq, chars_of, push_all, push_str_chars, string_from_chars, trim, trim_chars,
};
use crate::types::TranscriptionConfig;

verus! {

/// The region used where none is configured.
pub const DEFAULT_LOCATION: &'static str = "us-central1";

/// The model used where none is configured.
pub const DEFAULT_MODEL: &'static str = "chirp";

/// The most speakers the service tells apart.
pub const MAX_SPEAKERS: u32 = 6;

/// How speakers are to be told apart.
#[derive(Debug, PartialEq, Eq, Structural)]
pub struct SpeakerDiarization {
    /// The fewest speakers to expect.
    pub min_speaker_count: u32,
    /// The most speakers to expect.
    pub max_speaker_count: u32,
}

/// A recognition request.
#[derive(Debug)]
pub struct RecognizeRequest {
    /// The languages to recognize.
    pub language_codes: Vec<String>,
    /// The model.
    pub model: String,
    /// Whether punctuation is added.
    pub enable_automatic_punctuation: bool,
    /// How many alternatives to return.
    pub max_alternatives: u32,
    /// How speakers are told apart, where they are.
    pub diarization: Option<SpeakerDiarization>,
    /// The audio, base64-encoded.
    pub content: String,
}

/// A recognized word, as far as it is read.
pub struct GoogleWord {
    /// The word.
    pub word: String,
    /// Who said it, where speakers were told apart.
    pub speaker_label: Option<String>,
}

/// One alternative reading of a stretch of audio.
pub struct GoogleAlternative {
    /// The text.
    pub transcript: String,
    /// Its words.
    pub words: Option<Vec<GoogleWord>>,
}

/// The recognition of one stretch of audio.
pub struct GoogleResult {
    /// The alternative readings, most likely first.
    pub alternatives: Option<Vec<GoogleAlternative>>,
}

/// The speaker of a word.
pub open spec fn label_of(w: GoogleWord) -> Option<Seq<char>> {
    match w.speaker_label {
        Some(s) => Some(s@),
        None => None,
    }
}

/// The line of text `t` said by `speaker` (unlabelled where the speaker is
/// not known).
pub open spec fn speaker_line(speaker: Option<Seq<char>>, t: Seq<char>) -> Seq<char> {
    match speaker {
        Some(s) => "Speaker "@ + s + ": "@ + t,
        None => t,
    }
}

/// Where labelling `words` stands after the last of them: the finished
/// lines, the current speaker and the words said since that speaker began.
/// Each word whose speaker differs from the current one finishes the line
/// of the words before it.
pub open spec fn diarize_state(words: Seq<GoogleWord>) -> (Seq<char>, Option<Seq<char>>, Seq<char>)
    decreases words.len(),
{
    if words.len() == 0 {
        (Seq::empty(), None, Seq::empty())
    } else {
        let prev = diarize_state(words.drop_last());
        let w = words.last();
        let s = label_of(w);
        if s != prev.1 && prev.2.len() > 0 {
            (prev.0 + speaker_line(prev.1, trim(prev.2)) + "\n"@, s, w.word@ + " "@)
        } else {
            (prev.0, s, prev.2 + w.word@ + " "@)
        }
    }
}

/// The text of `words` with one line per run of words by one speaker.
pub open spec fn diarized_text(words: Seq<GoogleWord>) -> Seq<char> {
    let st = diarize_state(words);
    if st.2.len() > 0 {
        st.0 + speaker_line(st.1, trim(st.2))
    } else {
        st.0
    }
}

/// The text of one result: its first alternative, labelled by speaker
/// where speakers are told apart and its words are there.
pub open spec fn result_piece(result: GoogleResult, diarize: bool) -> Option<Seq<char>> {
    match result.alternatives {
        Some(alts) => if alts@.len() > 0 {
            let alt = alts@[0];
            match alt.words {
                Some(ws) => if diarize {
                    Some(diarized_text(ws@))
                } else {
                    Some(alt.transcript@)
                },
                None => Some(alt.transcript@),
            }
        } else {
            None
        },
        None => None,
    }
}

/// The text of results, the pieces joined by a space where text is
/// already there.
pub open spec fn joined_pieces(results: Seq<GoogleResult>, diarize: bool) -> Seq<char>
    decreases results.len(),
{
    if results.len() == 0 {
        Seq::empty()
    } else {
        let acc = joined_pieces(results.drop_last(), diarize);
        match result_piece(results.last(), diarize) {
            Some(p) => if acc.len() == 0 {
                p
            } else {
                acc + " "@ + p
            },
            None => acc,
        }
    }
}

/// Whether speakers are told apart for a speaker count.
pub open spec fn diarizes(speaker_count: Option<u32>) -> bool {
    speaker_count matches Some(c) && c > 1
}

/// The text of a recognition response: the joined pieces, trimmed.
pub open spec fn response_text(results: Option<Vec<GoogleResult>>, speaker_count: Option<u32>) -> Seq<
    char,
> {
    match results {
        Some(rs) => trim(joined_pieces(rs@, diarizes(speaker_count))),
        None => Seq::empty(),
    }
}

/// Law: whenever more than one speaker is expected (exactly when the
/// request asks the service to tell speakers apart, whatever the count),
/// a response of one result whose first alternative has words reads as
/// those words labelled by speaker.
pub proof fn law_labelled_when_speakers_expected(res: GoogleResult, rs: Vec<GoogleResult>, c: u32)
    requires
        rs@ == seq![res],
        c > 1,
        res.alternatives matches Some(alts) && alts@.len() > 0 && alts@[0].words is Some,
    ensures
        response_text(Some(rs), Some(c)) == trim(
            diarized_text(res.alternatives->0@[0].words->0@),
        ),
{
    assert(rs@.drop_last() =~= Seq::<GoogleResult>::empty());
    assert(joined_pieces(rs@.drop_last(), true) == Seq::<char>::empty());
    assert(rs@.last() == res);
    assert(result_piece(res, true) == Some(diarized_text(res.alternatives->0@[0].words->0@)));
    assert(joined_pieces(rs@, true) == diarized_text(res.alternatives->0@[0].words->0@));
}

/// Law: with one speaker, or no count at all, no labels are added: a
/// response of one result reads as its first alternative's transcript.
pub proof fn law_unlabelled_for_one_speaker(
    res: GoogleResult,
    rs: Vec<GoogleResult>,
    count: Option<u32>,
)
    requires
        rs@ == seq![res],
        count matches Some(c) ==> c <= 1,
        res.alternatives matches Some(alts) && alts@.len() > 0,
    ensures
        response_text(Some(rs), count) == trim(res.alternatives->0@[0].transcript@),
{
    assert(rs@.drop_last() =~= Seq::<GoogleResult>::empty());
    assert(!diarizes(count));
    assert(joined_pieces(rs@.drop_last(), false) == Seq::<char>::empty());
    assert(rs@.last() == res);
    assert(result_piece(res, false) == Some(res.alternatives->0@[0].transcript@));
    assert(joined_pieces(rs@, false) == res.alternatives->0@[0].transcript@);
}

fn same_speaker(a: &Option<String>, b: &Option<Vec<char>>) -> (r: bool)
    ensures
        r == ((match a {
            Some(s) => Some(s@),
            None => None,
        }) == (match b {
            Some(v) => Some(v@),
            None => None::<Seq<char>>,
        })),
{
    match (a, b) {
        (Some(s), Some(v)) => {
            let c = chars_of(s.as_str());
            chars_eq(c.as_slice(), v.as_slice())
        },
        (None, None) => true,
        _ => false,
    }
}

fn push_line(out: &mut Vec<char>, speaker: &Option<Vec<char>>, text: &[char])
    ensures
        final(out)@ == old(out)@ + speaker_line(
            match speaker {
                Some(v) => Some(v@),
                None => None,
            },
            trim(text@),
        ),
{
    let t = trim_chars(text);
    match speaker {
        Some(s) => {
            push_str_chars(out, "Speaker ");
            push_all(out, s.as_slice());
            push_str_chars(out, ": ");
            push_all(out, t.as_slice());
        },
        None => {
            push_all(out, t.as_slice());
        },
    }
}

/// Format text with speaker labels: one line per run of words by one
/// speaker.
pub fn format_diarized_text(words: &[GoogleWord]) -> (r: Vec<char>)
    ensures
        r@ == diarized_text(words@),
{
    let n = words.len();
    let mut result: Vec<char> = Vec::new();
    let mut speaker: Option<Vec<char>> = None;
    let mut current: Vec<char> = Vec::new();
    let mut i: usize = 0;
    while i < n
        invariant
            n == words@.len(),
            i <= n,
            diarize_state(words@.take(i as int)) == (
                result@,
                match speaker {
                    Some(v) => Some(v@),
                    None => None::<Seq<char>>,
                },
                current@,
            ),
        decreases n - i,
    {
        let w = &words[i];
        let ghost prev = diarize_state(words@.take(i as int));
        proof {
            reveal_strlit("\n");
            reveal_strlit(" ");
            assert(words@.take(i as int + 1).drop_last() =~= words@.take(i as int));
            assert(words@.take(i as int + 1).last() == words@[i as int]);
        }
        let same = same_speaker(&w.speaker_label, &speaker);
        if !same {
            if current.len() > 0 {
                push_line(&mut result, &speaker, current.as_slice());
                result.push('\n');
                current = Vec::new();
            }
            speaker = match &w.speaker_label {
                Some(s) => Some(chars_of(s.as_str())),
                None => None,
            };
        }
        let ghost mid = current@;
        push_str_chars(&mut current, w.word.as_str());
        current.push(' ');
        proof {
            let next = diarize_state(words@.take(i as int + 1));
            assert(current@ =~= mid + w.word@ + " "@);
            if label_of(*w) != prev.1 && prev.2.len() > 0 {
                assert(mid =~= Seq::<char>::empty());
                assert(current@ =~= w.word@ + " "@);
            }
            assert(next.0 == result@);
            assert(next.2 == current@);
        }
        i = i + 1;
    }
    assert(words@.take(n as int) =~= words@);
    if current.len() > 0 {
        push_line(&mut result, &speaker, current.as_slice());
    }
    result
}

fn result_text(result: &GoogleResult, diarize: bool) -> (r: Option<Vec<char>>)
    ensures
        match r {
            Some(v) => result_piece(*result, diarize) == Some(v@),
            None => result_piece(*result, diarize) is None,
        },
{
    match &result.alternatives {
        Some(alts) => if alts.len() > 0 {
            let alt = &alts[0];
            match &alt.words {
                Some(ws) => if diarize {
                    Some(format_diarized_text(ws.as_slice()))
                } else {
                    Some(chars_of(alt.transcript.as_str()))
                },
                None => Some(chars_of(alt.transcript.as_str())),
            }
        } else {
            None
        },
        None => None,
    }
}

/// The text of a recognition response, labelled by speaker where more than
/// one speaker is expected.
pub fn parse_response_text(results: &Option<Vec<GoogleResult>>, speaker_count: Option<u32>) -> (r:
    String)
    ensures
        r@ == response_text(*results, speaker_count),
{
    let diarize = match speaker_count {
        Some(c) => c > 1,
        None => false,
    };
    match results {
        None => String::new(),
        Some(rs) => {
            let n = rs.len();
            let mut full: Vec<char> = Vec::new();
            let mut i: usize = 0;
            while i < n
                invariant
                    n == rs@.len(),
                    i <= n,
                    diarize == diarizes(speaker_count),
                    full@ == joined_pieces(rs@.take(i as int), diarize),
                decreases n - i,
            {
                assert(rs@.take(i as int + 1).drop_last() =~= rs@.take(i as int));
                let piece = result_text(&rs[i], diarize);
                let ghost acc = full@;
                match &piece {
                    Some(p) => {
                        if full.len() > 0 {
                            full.push(' ');
                        }
                        push_all(&mut full, p.as_slice());
                    },
                    None => {},
                }
                proof {
                    reveal_strlit(" ");
                    assert(rs@.take(i as int + 1).last() == rs@[i as int]);
                    match piece {
                        Some(p) => {
                            if acc.len() != 0 {
                                assert(full@ =~= acc + " "@ + p@);
                            } else {
                                assert(full@ =~= p@);
                            }
                        },
                        None => {},
                    }
                }
                i = i + 1;
            }
            assert(rs@.take(n as int) =~= rs@);
            let t = trim_chars(full.as_slice());
            string_from_chars(t.as_slice())
        },
    }
}

/// Google Cloud Speech transcription backend.
#[derive(Debug)]
pub struct GoogleCloudBackend {
    /// The access token.
    pub access_token: String,
    /// The project.
    pub project_id: String,
    /// The region.
    pub location: String,
    /// The recognition model.
    pub model: String,
}

/// The recognition endpoint of a project in a region.
pub open spec fn endpoint_spec(project_id: Seq<char>, location: Seq<char>) -> Seq<char> {
    "https://"@ + location + "-speech.googleapis.com/v2/projects/"@ + project_id + "/locations/"@
        + location + "/recognizers/_:recognize"@
}

impl GoogleCloudBackend {
    /// Set up the backend from a configuration: the API key is the access
    /// token, the `project_id` option is required, the `location` option
    /// defaults to `us-central1` and the model name to `chirp`.
    pub fn new(config: BackendConfig) -> (r: Result<Self, TranscriptionError>)
        ensures
            match config.api_key {
                None => r matches Err(TranscriptionError::InvalidConfig(m)) && m@
                    == "Google Cloud access token required"@,
                Some(token) => match config.options.value_of("project_id"@) {
                    None => r matches Err(TranscriptionError::InvalidConfig(m)) && m@
                        == "Google Cloud project_id required"@,
                    Some(project) => r matches Ok(b) && b.access_token@ == token@ && b.project_id@
                        == project && b.location@ == match config.options.value_of("location"@) {
                        Some(l) => l,
                        None => DEFAULT_LOCATION@,
                    } && b.model@ == match config.model_name {
                        Some(m) => m@,
                        None => DEFAULT_MODEL@,
                    },
                },
            },
    {
        let access_token = match &config.api_key {
            Some(t) => t.clone(),
            None => {
                return Err(
                    TranscriptionError::InvalidConfig(
                        String::from_str("Google Cloud access token required"),
                    ),
                );
            },
        };
        let project_id = match config.options.get("project_id") {
            Some(p) => p.clone(),
            None => {
                return Err(
                    TranscriptionError::InvalidConfig(
                        String::from_str("Google Cloud project_id required"),
                    ),
                );
            },
        };
        let location = match config.options.get("location") {
            Some(l) => l.clone(),
            None => String::from_str(DEFAULT_LOCATION),
        };
        let model = match &config.model_name {
            Some(m) => m.clone(),
            None => String::from_str(DEFAULT_MODEL),
        };
        Ok(GoogleCloudBackend { access_token, project_id, location, model })
    }

    /// The backend's name.
    pub fn name(&self) -> (r: &'static str)
        ensures
            r@ == "google_cloud"@,
    {
        "google_cloud"
    }

    /// The features the backend supports.
    pub fn supported_features(&self) -> (r: Vec<&'static str>)
        ensures
            r@.len() == 2,
            r@[0]@ == "punctuation"@,
            r@[1]@ == "diarization"@,
    {
        vec!["punctuation", "diarization"]
    }

    /// The backend is always ready once it is set up.
    pub fn is_ready(&self) -> (r: bool)
        ensures
            r,
    {
        true
    }

    /// The recognition endpoint.
    pub fn get_endpoint(&self) -> (r: String)
        ensures
            r@ == endpoint_spec(self.project_id@, self.location@),
    {
        let mut u: Vec<char> = Vec::new();
        push_str_chars(&mut u, "https://");
        push_str_chars(&mut u, self.location.as_str());
        push_str_chars(&mut u, "-speech.googleapis.com/v2/projects/");
        push_str_chars(&mut u, self.project_id.as_str());
        push_str_chars(&mut u, "/locations/");
        push_str_chars(&mut u, self.location.as_str());
        push_str_chars(&mut u, "/recognizers/_:recognize");
        string_from_chars(u.as_slice())
    }

    /// The recognition request for `audio_content`: the configured language
    /// (`en-US` where there is none), the backend's model, punctuation, one
    /// alternative, and speakers told apart where more than one is expected
    /// (at most the service's limit).
    pub fn build_request(&self, audio_content: &[u8], config: &TranscriptionConfig) -> (r:
        RecognizeRequest)
        ensures
            r.language_codes@.len() == 1,
            r.language_codes@[0]@ == match config.language {
                Some(l) => l@,
                None => "en-US"@,
            },
            r.model@ == self.model@,
            r.enable_automatic_punctuation,
            r.max_alternatives == 1,
            r.diarization == match config.speaker_count {
                Some(c) => if c > 1 {
                    Some(
                        SpeakerDiarization {
                            min_speaker_count: 1,
                            max_speaker_count: if c < MAX_SPEAKERS {
                                c
                            } else {
                                MAX_SPEAKERS
                            },
                        },
                    )
                } else {
                    None
                },
                None => None,
            },
            r.content@ == base64_spec(audio_content@),
    {
        let language = match &config.language {
            Some(l) => l.clone(),
            None => String::from_str("en-US"),
        };
        let diarization = match config.speaker_count {
            Some(c) => if c > 1 {
                Some(
                    SpeakerDiarization {
                        min_speaker_count: 1,
                        max_speaker_count: if c < MAX_SPEAKERS {
                            c
                        } else {
                            MAX_SPEAKERS
                        },
                    },
                )
            } else {
                None
            },
            None => None,
        };
        RecognizeRequest {
            language_codes: vec![language],
            model: self.model.clone(),
            enable_automatic_punctuation: true,
            max_alternatives: 1,
            diarization,
            content: encode(audio_content),
        }
    }
}

impl HasProviderSchema for GoogleCloudBackend {
    /// The options this provider offers for configuration.
    fn get_provider_schema() -> (r: ProviderSchema)
        ensures
            r.provider_id@ == "google_cloud"@,
            r.provider_name@ == "Google Cloud Speech"@,
            r.options@.len() == 5,
            option_is(
                r.options@[0],
                "access_token"@,
                "Access Token"@,
                OptionType::Text,
                true,
                ""@,
                Seq::empty(),
                Some("Google Cloud access token. Get with: gcloud auth print-access-token"@),
            ),
            option_is(
                r.options@[1],
                "project_id"@,
                "Project ID"@,
                OptionType::Text,
                true,
                ""@,
                Seq::empty(),
                Some("Your Google Cloud project ID"@),
            ),
            option_is(
                r.options@[2],
                "location"@,
                "Location"@,
                OptionType::Select,
                false,
                "us-central1"@,
                seq![
                    ("us-central1"@, "US Central (Iowa)"@),
                    ("us-east1"@, "US East (South Carolina)"@),
                    ("us-west1"@, "US West (Oregon)"@),
                    ("europe-west1"@, "Europe West (Belgium)"@),
                    ("europe-west2"@, "Europe West (London)"@),
                    ("europe-west4"@, "Europe West (Netherlands)"@),
                    ("asia-east1"@, "Asia East (Taiwan)"@),
                    ("asia-northeast1"@, "Asia Northeast (Tokyo)"@),
                    ("asia-southeast1"@, "Asia Southeast (Singapore)"@),
                ],
                Some("Google Cloud region for Speech API"@),
            ),
            option_is(
                r.options@[3],
                "model"@,
                "Model"@,
                OptionType::Select,
                false,
                "chirp"@,
                seq![
                    ("chirp"@, "Chirp (Best quality, latest)"@),
                    ("chirp_2"@, "Chirp 2"@),
                    ("long"@, "Long (For long audio)"@),
                    ("short"@, "Short (For short audio)"@),
                    ("telephony"@, "Telephony (Phone calls)"@),
                    ("medical_dictation"@, "Medical Dictation"@),
                    ("medical_conversation"@, "Medical Conversation"@),
                ],
                Some("Speech recognition model to use"@),
            ),
            option_is(
                r.options@[4],
                "language"@,
                "Language"@,
                OptionType::Select,
                false,
                "en-US"@,
                seq![
                    ("en-US"@, "English (US)"@),
                    ("en-GB"@, "English (UK)"@),
                    ("es-ES"@, "Spanish (Spain)"@),
                    ("es-MX"@, "Spanish (Mexico)"@),
                    ("fr-FR"@, "French"@),
                    ("de-DE"@, "German"@),
                    ("it-IT"@, "Italian"@),
                    ("pt-BR"@, "Portuguese (Brazil)"@),
                    ("ja-JP"@, "Japanese"@),
                    ("ko-KR"@, "Korean"@),
                    ("zh-CN"@, "Chinese (Simplified)"@),
                    ("zh-TW"@, "Chinese (Traditional)"@),
                    ("ru-RU"@, "Russian"@),
                    ("ar-XA"@, "Arabic"@),
                    ("he-IL"@, "Hebrew"@),
                    ("hi-IN"@, "Hindi"@),
                    ("tr-TR"@, "Turkish"@),
                    ("pl-PL"@, "Polish"@),
                    ("uk-UA"@, "Ukrainian"@),
                    ("nl-NL"@, "Dutch"@),
                    ("sv-SE"@, "Swedish"@),
                ],
                Some("Language of the audio"@),
            ),
    {
        let schema = ProviderSchema::new("google_cloud", "Google Cloud Speech")
            .with_option(
                ProviderOption::new("access_token", "Access Token", OptionType::Text)
                    .required()
                    .with_description(
                        "Google Cloud access token. Get with: gcloud auth print-access-token",
                    )
            )
            .with_option(
                ProviderOption::new("project_id", "Project ID", OptionType::Text)
                    .required()
                    .with_description(
                        "Your Google Cloud project ID",
                    )
            )
            .with_option(
                ProviderOption::new("location", "Location", OptionType::Select)
                    .with_default("us-central1")
                    .with_values(
                        vec![
                            OptionValue::new("us-central1", "US Central (Iowa)"),
                            OptionValue::new("us-east1", "US East (South Carolina)"),
                            OptionValue::new("us-west1", "US West (Oregon)"),
                            OptionValue::new("europe-west1", "Europe West (Belgium)"),
                            OptionValue::new("europe-west2", "Europe West (London)"),
                            OptionValue::new("europe-west4", "Europe West (Netherlands)"),
                            OptionValue::new("asia-east1", "Asia East (Taiwan)"),
                            OptionValue::new("asia-northeast1", "Asia Northeast (Tokyo)"),
                            OptionValue::new("asia-southeast1", "Asia Southeast (Singapore)"),
                        ],
                    )
                    .with_description(
                        "Google Cloud region for Speech API",
                    )
            )
            .with_option(
                ProviderOption::new("model", "Model", OptionType::Select)
                    .with_default("chirp")
                    .with_values(
                        vec![
                            OptionValue::new("chirp", "Chirp (Best quality, latest)"),
                            OptionValue::new("chirp_2", "Chirp 2"),
                            OptionValue::new("long", "Long (For long audio)"),
                            OptionValue::new("short", "Short (For short audio)"),
                            OptionValue::new("telephony", "Telephony (Phone calls)"),
                            OptionValue::new("medical_dictation", "Medical Dictation"),
                            OptionValue::new("medical_conversation", "Medical Conversation"),
                        ],
                    )
                    .with_description(
                        "Speech recognition model to use",
                    )
            )
            .with_option(
                ProviderOption::new("language", "Language", OptionType::Select)
                    .with_default("en-US")
                    .with_values(
                        vec![
                            OptionValue::new("en-US", "English (US)"),
                            OptionValue::new("en-GB", "English (UK)"),
                            OptionValue::new("es-ES", "Spanish (Spain)"),
                            OptionValue::new("es-MX", "Spanish (Mexico)"),
                            OptionValue::new("fr-FR", "French"),
                            OptionValue::new("de-DE", "German"),
                            OptionValue::new("it-IT", "Italian"),
                            OptionValue::new("pt-BR", "Portuguese (Brazil)"),
                            OptionValue::new("ja-JP", "Japanese"),
                            OptionValue::new("ko-KR", "Korean"),
                            OptionValue::new("zh-CN", "Chinese (Simplified)"),
                            OptionValue::new("zh-TW", "Chinese (Traditional)"),
                            OptionValue::new("ru-RU", "Russian"),
                            OptionValue::new("ar-XA", "Arabic"),
                            OptionValue::new("he-IL", "Hebrew"),
                            OptionValue::new("hi-IN", "Hindi"),
                            OptionValue::new("tr-TR", "Turkish"),
                            OptionValue::new("pl-PL", "Polish"),
                            OptionValue::new("uk-UA", "Ukrainian"),
                            OptionValue::new("nl-NL", "Dutch"),
                            OptionValue::new("sv-SE", "Swedish"),
                        ],
                    )
                    .with_description(
                        "Language of the audio",
                    )
            );
        proof {
            reveal_strlit("");
            assert(values_view(schema.options@[0].values@) =~= Seq::empty());
            assert(schema.options@[0].default@ == ""@);
            assert(values_view(schema.options@[1].values@) =~= Seq::empty());
            assert(schema.options@[1].default@ == ""@);
            assert(values_view(schema.options@[2].values@) =~= seq![
                ("us-central1"@, "US Central (Iowa)"@),
                ("us-east1"@, "US East (South Carolina)"@),
                ("us-west1"@, "US West (Oregon)"@),
                ("europe-west1"@, "Europe West (Belgium)"@),
                ("europe-west2"@, "Europe West (London)"@),
                ("europe-west4"@, "Europe West (Netherlands)"@),
                ("asia-east1"@, "Asia East (Taiwan)"@),
                ("asia-northeast1"@, "Asia Northeast (Tokyo)"@),
                ("asia-southeast1"@, "Asia Southeast (Singapore)"@),
            ]);
            assert(values_view(schema.options@[3].values@) =~= seq![
                ("chirp"@, "Chirp (Best quality, latest)"@),
                ("chirp_2"@, "Chirp 2"@),
                ("long"@, "Long (For long audio)"@),
                ("short"@, "Short (For short audio)"@),
                ("telephony"@, "Telephony (Phone calls)"@),
                ("medical_dictation"@, "Medical Dictation"@),
                ("medical_conversation"@, "Medical Conversation"@),
            ]);
            assert(values_view(schema.options@[4].values@) =~= seq![
                ("en-US"@, "English (US)"@),
                ("en-GB"@, "English (UK)"@),
                ("es-ES"@, "Spanish (Spain)"@),
                ("es-MX"@, "Spanish (Mexico)"@),
                ("fr-FR"@, "French"@),
                ("de-DE"@, "German"@),
                ("it-IT"@, "Italian"@),
                ("pt-BR"@, "Portuguese (Brazil)"@),
                ("ja-JP"@, "Japanese"@),
                ("ko-KR"@, "Korean"@),
                ("zh-CN"@, "Chinese (Simplified)"@),
                ("zh-TW"@, "Chinese (Traditional)"@),
                ("ru-RU"@, "Russian"@),
                ("ar-XA"@, "Arabic"@),
                ("he-IL"@, "Hebrew"@),
                ("hi-IN"@, "Hindi"@),
                ("tr-TR"@, "Turkish"@),
                ("pl-PL"@, "Polish"@),
                ("uk-UA"@, "Ukrainian"@),
                ("nl-NL"@, "Dutch"@),
                ("sv-SE"@, "Swedish"@),
            ]);
        }
        schema
    }
}

} // verus!
