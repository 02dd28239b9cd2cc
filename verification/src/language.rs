//! Language code normalization for transcription providers.
//!
//! Different transcription providers expect different language code formats:
//! - Local Whisper: ISO 639-1 (e.g., "he", "en")
//! - SpeechText.AI: BCP-47 (e.g., "he-IL", "en-US")
//! - Google Cloud: BCP-47 (e.g., "he-IL", "en-US")
//! - AssemblyAI: ISO 639-1 or BCP-47
//!
//! This module converts user-provided language codes to the format expected
//! by each provider.

use vstd::prelude::*;

use crate::table::{lookup_first, lookup_last_by_value};
use crate::text::{
    char_lowercase, char_to_lowercase, char_to_uppercase, char_uppercase, chars_eq, chars_of,
    contains_char, lowercase, push_all, string_from_chars, to_lowercase_chars, to_uppercase_chars,
    trim, trim_chars, uppercase,
};

verus! {

/// Provider identifiers for language code normalization.
pub const PROVIDER_LOCAL_WHISPER: &'static str = "local_whisper";

pub const PROVIDER_SPEECHTEXT_AI: &'static str = "speechtext_ai";

pub const PROVIDER_GOOGLE_CLOUD: &'static str = "google_cloud";

pub const PROVIDER_ASSEMBLYAI: &'static str = "assemblyai";

/// Language code format expected by each provider.
#[derive(Debug, Clone, Copy, PartialEq, Eq, Structural)]
pub enum LanguageFormat {
    /// ISO 639-1 two-letter codes (e.g., "he", "en")
    Iso639_1,
    /// BCP-47 language tags (e.g., "he-IL", "en-US")
    Bcp47,
}

// ---------------------------------------------------------------------------
// Splitting at '-'
// ---------------------------------------------------------------------------

/// The pieces of `s` between `-` characters (`str::split('-')`); there is
/// always at least one piece.
pub open spec fn split_dash(s: Seq<char>) -> Seq<Seq<char>>
    decreases s.len(),
{
    if s.len() == 0 {
        seq![Seq::empty()]
    } else {
        let init = split_dash(s.drop_last());
        if s.last() == '-' {
            init.push(Seq::empty())
        } else {
            init.update(init.len() - 1, init.last().push(s.last()))
        }
    }
}

pub proof fn lemma_split_dash_nonempty(s: Seq<char>)
    ensures
        split_dash(s).len() >= 1,
    decreases s.len(),
{
    if s.len() > 0 {
        lemma_split_dash_nonempty(s.drop_last());
    }
}

/// The pieces of `s` between `-` characters.
pub fn split_at_dash(s: &[char]) -> (r: Vec<Vec<char>>)
    ensures
        r@.len() == split_dash(s@).len(),
        forall|i: int| 0 <= i < r@.len() ==> (#[trigger] r@[i])@ == split_dash(s@)[i],
{
    let n = s.len();
    let mut parts: Vec<Vec<char>> = Vec::new();
    let mut cur: Vec<char> = Vec::new();
    let mut i: usize = 0;
    assert(s@.take(0) =~= Seq::<char>::empty());
    while i < n
        invariant
            n == s@.len(),
            i <= n,
            parts@.len() + 1 == split_dash(s@.take(i as int)).len(),
            forall|k: int|
                0 <= k < parts@.len() ==> (#[trigger] parts@[k])@ == split_dash(
                    s@.take(i as int),
                )[k],
            cur@ == split_dash(s@.take(i as int)).last(),
        decreases n - i,
    {
        let c = s[i];
        let ghost pre = s@.take(i as int);
        let ghost nxt = s@.take(i as int + 1);
        assert(nxt.drop_last() =~= pre);
        assert(nxt.last() == c);
        proof {
            lemma_split_dash_nonempty(pre);
        }
        if c == '-' {
            let done = cur;
            parts.push(done);
            cur = Vec::new();
            assert(cur@ =~= Seq::<char>::empty());
        } else {
            cur.push(c);
        }
        i = i + 1;
    }
    assert(s@.take(n as int) =~= s@);
    parts.push(cur);
    parts
}

// ---------------------------------------------------------------------------
// Case of BCP-47 tags
// ---------------------------------------------------------------------------

/// `char::to_lowercase` applied to each character, the results joined.
pub open spec fn lower_each(s: Seq<char>) -> Seq<char>
    decreases s.len(),
{
    if s.len() == 0 {
        Seq::empty()
    } else {
        lower_each(s.drop_last()) + char_lowercase(s.last())
    }
}

/// First letter upper case, the rest lower case (for script codes like "Hans").
pub open spec fn capitalize_spec(s: Seq<char>) -> Seq<char> {
    if s.len() == 0 {
        Seq::empty()
    } else {
        char_uppercase(s[0]) + lower_each(s.drop_first())
    }
}

/// Capitalize first letter (for script codes like "Hans", "Hant").
pub fn capitalize(s: &[char]) -> (r: Vec<char>)
    ensures
        r@ == capitalize_spec(s@),
{
    let n = s.len();
    if n == 0 {
        return Vec::new();
    }
    let mut r = char_to_uppercase(s[0]);
    let ghost head = r@;
    let ghost rest = s@.drop_first();
    let mut i: usize = 1;
    assert(rest.take(0) =~= Seq::<char>::empty());
    while i < n
        invariant
            n == s@.len(),
            1 <= i <= n,
            rest == s@.drop_first(),
            head == char_uppercase(s@[0]),
            r@ == head + lower_each(rest.take(i - 1)),
        decreases n - i,
    {
        let low = char_to_lowercase(s[i]);
        let ghost before = r@;
        push_all(&mut r, low.as_slice());
        assert(rest.take(i as int).drop_last() =~= rest.take(i - 1));
        assert(rest.take(i as int).last() == s@[i as int]);
        assert(r@ =~= head + lower_each(rest.take(i as int)));
        i = i + 1;
    }
    assert(rest.take(n - 1) =~= rest);
    r
}

/// Joins pieces with `-` between them.
pub open spec fn join_dash(parts: Seq<Seq<char>>) -> Seq<char>
    decreases parts.len(),
{
    if parts.len() == 0 {
        Seq::empty()
    } else if parts.len() == 1 {
        parts[0]
    } else {
        join_dash(parts.drop_last()) + seq!['-'] + parts.last()
    }
}

/// BCP-47 tag case: language lower case, script capitalized, region upper
/// case; a tag of one piece is lower-cased and a tag of more than three
/// pieces is kept as it is.
pub open spec fn bcp47_case(code: Seq<char>) -> Seq<char> {
    let parts = split_dash(code);
    if parts.len() == 1 {
        lowercase(parts[0])
    } else if parts.len() == 2 {
        lowercase(parts[0]) + seq!['-'] + uppercase(parts[1])
    } else if parts.len() == 3 {
        lowercase(parts[0]) + seq!['-'] + capitalize_spec(parts[1]) + seq!['-'] + uppercase(
            parts[2],
        )
    } else {
        code
    }
}

/// Normalize BCP-47 tag case (language lowercase, region uppercase).
pub fn normalize_bcp47_case(code: &[char]) -> (r: Vec<char>)
    ensures
        r@ == bcp47_case(code@),
{
    let parts = split_at_dash(code);
    proof {
        lemma_split_dash_nonempty(code@);
    }
    if parts.len() == 1 {
        to_lowercase_chars(parts[0].as_slice())
    } else if parts.len() == 2 {
        let mut r = to_lowercase_chars(parts[0].as_slice());
        r.push('-');
        let up = to_uppercase_chars(parts[1].as_slice());
        push_all(&mut r, up.as_slice());
        r
    } else if parts.len() == 3 {
        let mut r = to_lowercase_chars(parts[0].as_slice());
        r.push('-');
        let cap = capitalize(parts[1].as_slice());
        push_all(&mut r, cap.as_slice());
        r.push('-');
        let up = to_uppercase_chars(parts[2].as_slice());
        push_all(&mut r, up.as_slice());
        r
    } else {
        let mut r: Vec<char> = Vec::new();
        push_all(&mut r, code);
        r
    }
}


// ---------------------------------------------------------------------------
// Code tables
// ---------------------------------------------------------------------------

/// ISO 639-1 codes and the default BCP-47 tag of each (the most common
/// region for the language).
pub open spec fn iso_bcp47_table() -> Seq<(Seq<char>, Seq<char>)> {
    seq![
        ("en"@, "en-US"@),
        ("he"@, "he-IL"@),
        ("ar"@, "ar-SA"@),
        ("zh"@, "zh-CN"@),
        ("es"@, "es-ES"@),
        ("fr"@, "fr-FR"@),
        ("de"@, "de-DE"@),
        ("it"@, "it-IT"@),
        ("ja"@, "ja-JP"@),
        ("ko"@, "ko-KR"@),
        ("pt"@, "pt-BR"@),
        ("ru"@, "ru-RU"@),
        ("nl"@, "nl-NL"@),
        ("pl"@, "pl-PL"@),
        ("tr"@, "tr-TR"@),
        ("vi"@, "vi-VN"@),
        ("th"@, "th-TH"@),
        ("id"@, "id-ID"@),
        ("ms"@, "ms-MY"@),
        ("hi"@, "hi-IN"@),
        ("bn"@, "bn-IN"@),
        ("ta"@, "ta-IN"@),
        ("te"@, "te-IN"@),
        ("mr"@, "mr-IN"@),
        ("gu"@, "gu-IN"@),
        ("kn"@, "kn-IN"@),
        ("ml"@, "ml-IN"@),
        ("pa"@, "pa-IN"@),
        ("ur"@, "ur-PK"@),
        ("fa"@, "fa-IR"@),
        ("uk"@, "uk-UA"@),
        ("cs"@, "cs-CZ"@),
        ("sk"@, "sk-SK"@),
        ("hu"@, "hu-HU"@),
        ("ro"@, "ro-RO"@),
        ("bg"@, "bg-BG"@),
        ("hr"@, "hr-HR"@),
        ("sr"@, "sr-RS"@),
        ("sl"@, "sl-SI"@),
        ("el"@, "el-GR"@),
        ("sv"@, "sv-SE"@),
        ("da"@, "da-DK"@),
        ("fi"@, "fi-FI"@),
        ("no"@, "nb-NO"@),
        ("nb"@, "nb-NO"@),
        ("nn"@, "nn-NO"@),
        ("is"@, "is-IS"@),
        ("et"@, "et-EE"@),
        ("lv"@, "lv-LV"@),
        ("lt"@, "lt-LT"@),
        ("ca"@, "ca-ES"@),
        ("eu"@, "eu-ES"@),
        ("gl"@, "gl-ES"@),
        ("cy"@, "cy-GB"@),
        ("ga"@, "ga-IE"@),
        ("mt"@, "mt-MT"@),
        ("sq"@, "sq-AL"@),
        ("mk"@, "mk-MK"@),
        ("bs"@, "bs-BA"@),
        ("af"@, "af-ZA"@),
        ("sw"@, "sw-KE"@),
        ("am"@, "am-ET"@),
        ("yi"@, "yi-001"@),
    ]
}

/// Further BCP-47 tags that name the same language as an ISO 639-1 code.
pub open spec fn bcp47_variant_table() -> Seq<(Seq<char>, Seq<char>)> {
    seq![
        ("en-GB"@, "en"@),
        ("en-AU"@, "en"@),
        ("en-CA"@, "en"@),
        ("en-IN"@, "en"@),
        ("es-MX"@, "es"@),
        ("es-AR"@, "es"@),
        ("pt-PT"@, "pt"@),
        ("zh-TW"@, "zh"@),
        ("zh-HK"@, "zh"@),
        ("fr-CA"@, "fr"@),
        ("fr-BE"@, "fr"@),
        ("de-AT"@, "de"@),
        ("de-CH"@, "de"@),
        ("ar-EG"@, "ar"@),
        ("ar-AE"@, "ar"@),
        ("ar-MA"@, "ar"@),
    ]
}

/// The character views of a table of string pairs.
pub open spec fn pairs_view(t: Seq<(&str, &str)>) -> Seq<(Seq<char>, Seq<char>)> {
    t.map_values(|p: (&str, &str)| (p.0@, p.1@))
}

/// The ISO 639-1 to BCP-47 table.
fn iso_bcp47_pairs() -> (t: Vec<(&'static str, &'static str)>)
    ensures
        pairs_view(t@) == iso_bcp47_table(),
{
    let t = vec![
        ("en", "en-US"),
        ("he", "he-IL"),
        ("ar", "ar-SA"),
        ("zh", "zh-CN"),
        ("es", "es-ES"),
        ("fr", "fr-FR"),
        ("de", "de-DE"),
        ("it", "it-IT"),
        ("ja", "ja-JP"),
        ("ko", "ko-KR"),
        ("pt", "pt-BR"),
        ("ru", "ru-RU"),
        ("nl", "nl-NL"),
        ("pl", "pl-PL"),
        ("tr", "tr-TR"),
        ("vi", "vi-VN"),
        ("th", "th-TH"),
        ("id", "id-ID"),
        ("ms", "ms-MY"),
        ("hi", "hi-IN"),
        ("bn", "bn-IN"),
        ("ta", "ta-IN"),
        ("te", "te-IN"),
        ("mr", "mr-IN"),
        ("gu", "gu-IN"),
        ("kn", "kn-IN"),
        ("ml", "ml-IN"),
        ("pa", "pa-IN"),
        ("ur", "ur-PK"),
        ("fa", "fa-IR"),
        ("uk", "uk-UA"),
        ("cs", "cs-CZ"),
        ("sk", "sk-SK"),
        ("hu", "hu-HU"),
        ("ro", "ro-RO"),
        ("bg", "bg-BG"),
        ("hr", "hr-HR"),
        ("sr", "sr-RS"),
        ("sl", "sl-SI"),
        ("el", "el-GR"),
        ("sv", "sv-SE"),
        ("da", "da-DK"),
        ("fi", "fi-FI"),
        ("no", "nb-NO"),
        ("nb", "nb-NO"),
        ("nn", "nn-NO"),
        ("is", "is-IS"),
        ("et", "et-EE"),
        ("lv", "lv-LV"),
        ("lt", "lt-LT"),
        ("ca", "ca-ES"),
        ("eu", "eu-ES"),
        ("gl", "gl-ES"),
        ("cy", "cy-GB"),
        ("ga", "ga-IE"),
        ("mt", "mt-MT"),
        ("sq", "sq-AL"),
        ("mk", "mk-MK"),
        ("bs", "bs-BA"),
        ("af", "af-ZA"),
        ("sw", "sw-KE"),
        ("am", "am-ET"),
        ("yi", "yi-001"),
    ];
    assert(pairs_view(t@) =~= iso_bcp47_table());
    t
}

/// The extra BCP-47 variants.
fn bcp47_variant_pairs() -> (t: Vec<(&'static str, &'static str)>)
    ensures
        pairs_view(t@) == bcp47_variant_table(),
{
    let t = vec![
        ("en-GB", "en"),
        ("en-AU", "en"),
        ("en-CA", "en"),
        ("en-IN", "en"),
        ("es-MX", "es"),
        ("es-AR", "es"),
        ("pt-PT", "pt"),
        ("zh-TW", "zh"),
        ("zh-HK", "zh"),
        ("fr-CA", "fr"),
        ("fr-BE", "fr"),
        ("de-AT", "de"),
        ("de-CH", "de"),
        ("ar-EG", "ar"),
        ("ar-AE", "ar"),
        ("ar-MA", "ar"),
    ];
    assert(pairs_view(t@) =~= bcp47_variant_table());
    t
}

// ---------------------------------------------------------------------------
// Table lookups
// ---------------------------------------------------------------------------

/// The default BCP-47 tag of an ISO 639-1 code.
pub open spec fn iso_to_bcp47(iso: Seq<char>) -> Option<Seq<char>> {
    lookup_first(iso_bcp47_table(), iso)
}

/// The ISO 639-1 code of a BCP-47 tag: a listed variant, else the code whose
/// default tag it is (for a tag that is the default of two codes, the later
/// code in the table).
pub open spec fn bcp47_to_iso(tag: Seq<char>) -> Option<Seq<char>> {
    match lookup_first(bcp47_variant_table(), tag) {
        Some(iso) => Some(iso),
        None => lookup_last_by_value(iso_bcp47_table(), tag),
    }
}

fn find_first(t: &Vec<(&'static str, &'static str)>, k: &[char]) -> (r: Option<&'static str>)
    ensures
        match r {
            Some(v) => lookup_first(pairs_view(t@), k@) == Some(v@),
            None => lookup_first(pairs_view(t@), k@) is None,
        },
{
    let n = t.len();
    let ghost tv = pairs_view(t@);
    let mut i: usize = 0;
    assert(tv.skip(0) =~= tv);
    while i < n
        invariant
            n == t@.len(),
            tv == pairs_view(t@),
            tv.len() == n,
            i <= n,
            lookup_first(tv, k@) == lookup_first(tv.skip(i as int), k@),
        decreases n - i,
    {
        let key = chars_of(t[i].0);
        assert(tv.skip(i as int)[0] == tv[i as int]);
        if chars_eq(key.as_slice(), k) {
            return Some(t[i].1);
        }
        assert(tv.skip(i as int).drop_first() =~= tv.skip(i as int + 1));
        i = i + 1;
    }
    None
}

fn find_last_by_value(t: &Vec<(&'static str, &'static str)>, v: &[char]) -> (r: Option<
    &'static str,
>)
    ensures
        match r {
            Some(k) => lookup_last_by_value(pairs_view(t@), v@) == Some(k@),
            None => lookup_last_by_value(pairs_view(t@), v@) is None,
        },
{
    let n = t.len();
    let ghost tv = pairs_view(t@);
    let mut j: usize = n;
    assert(tv.take(n as int) =~= tv);
    while j > 0
        invariant
            n == t@.len(),
            tv == pairs_view(t@),
            tv.len() == n,
            j <= n,
            lookup_last_by_value(tv, v@) == lookup_last_by_value(tv.take(j as int), v@),
        decreases j,
    {
        let val = chars_of(t[j - 1].1);
        assert(tv.take(j as int).last() == tv[j - 1]);
        if chars_eq(val.as_slice(), v) {
            return Some(t[j - 1].0);
        }
        assert(tv.take(j as int).drop_last() =~= tv.take(j - 1));
        j = j - 1;
    }
    None
}

fn iso_code_to_bcp47(iso: &[char]) -> (r: Option<&'static str>)
    ensures
        match r {
            Some(v) => iso_to_bcp47(iso@) == Some(v@),
            None => iso_to_bcp47(iso@) is None,
        },
{
    let t = iso_bcp47_pairs();
    find_first(&t, iso)
}

fn bcp47_tag_to_iso(tag: &[char]) -> (r: Option<&'static str>)
    ensures
        match r {
            Some(v) => bcp47_to_iso(tag@) == Some(v@),
            None => bcp47_to_iso(tag@) is None,
        },
{
    let variants = bcp47_variant_pairs();
    match find_first(&variants, tag) {
        Some(iso) => Some(iso),
        None => {
            let t = iso_bcp47_pairs();
            find_last_by_value(&t, tag)
        },
    }
}

// ---------------------------------------------------------------------------
// Providers
// ---------------------------------------------------------------------------

/// The format a provider expects; BCP-47 for a provider not listed.
pub open spec fn provider_format(provider: Seq<char>) -> LanguageFormat {
    if provider == PROVIDER_LOCAL_WHISPER@ {
        LanguageFormat::Iso639_1
    } else if provider == PROVIDER_SPEECHTEXT_AI@ {
        LanguageFormat::Bcp47
    } else if provider == PROVIDER_GOOGLE_CLOUD@ {
        LanguageFormat::Bcp47
    } else if provider == PROVIDER_ASSEMBLYAI@ {
        // AssemblyAI accepts both; the short form is preferred
        LanguageFormat::Iso639_1
    } else {
        LanguageFormat::Bcp47
    }
}

fn format_for_provider(provider: &str) -> (r: LanguageFormat)
    ensures
        r == provider_format(provider@),
{
    let p = chars_of(provider);
    let whisper = chars_of(PROVIDER_LOCAL_WHISPER);
    let speechtext = chars_of(PROVIDER_SPEECHTEXT_AI);
    let google = chars_of(PROVIDER_GOOGLE_CLOUD);
    let assembly = chars_of(PROVIDER_ASSEMBLYAI);
    if chars_eq(p.as_slice(), whisper.as_slice()) {
        LanguageFormat::Iso639_1
    } else if chars_eq(p.as_slice(), speechtext.as_slice()) {
        LanguageFormat::Bcp47
    } else if chars_eq(p.as_slice(), google.as_slice()) {
        LanguageFormat::Bcp47
    } else if chars_eq(p.as_slice(), assembly.as_slice()) {
        LanguageFormat::Iso639_1
    } else {
        LanguageFormat::Bcp47
    }
}

// ---------------------------------------------------------------------------
// Normalization
// ---------------------------------------------------------------------------

/// What a language code normalizes to for a provider.
///
/// The code is trimmed; a `-` marks it as BCP-47, else it is taken as
/// ISO 639-1. A code already in the provider's format has its case
/// normalized; an ISO code is mapped to its default tag (an unknown one
/// `xx` to `xx-XX`); a tag is mapped to its ISO code (an unknown one to its
/// first piece, lower-cased).
pub open spec fn normalize_spec(code: Seq<char>, provider: Seq<char>) -> Seq<char> {
    let c = trim(code);
    let is_bcp47 = c.contains('-');
    match provider_format(provider) {
        LanguageFormat::Bcp47 => if is_bcp47 {
            bcp47_case(c)
        } else {
            let iso = lowercase(c);
            match iso_to_bcp47(iso) {
                Some(tag) => tag,
                None => iso + seq!['-'] + uppercase(iso),
            }
        },
        LanguageFormat::Iso639_1 => if is_bcp47 {
            match bcp47_to_iso(bcp47_case(c)) {
                Some(iso) => iso,
                None => lowercase(split_dash(c)[0]),
            }
        } else {
            lowercase(c)
        },
    }
}

/// Normalize a language code for a specific provider.
///
/// # Arguments
/// * `code` - The input language code (ISO 639-1 or BCP-47)
/// * `provider` - The provider identifier (e.g., "speechtext_ai")
///
/// # Returns
/// The normalized language code in the format expected by the provider.
pub fn normalize_language_code(code: &str, provider: &str) -> (r: String)
    ensures
        r@ == normalize_spec(code@, provider@),
{
    let raw = chars_of(code);
    let c = trim_chars(raw.as_slice());
    let format = format_for_provider(provider);
    let is_bcp47 = contains_char(c.as_slice(), '-');
    let out: Vec<char> = match format {
        LanguageFormat::Bcp47 => {
            if is_bcp47 {
                normalize_bcp47_case(c.as_slice())
            } else {
                let iso = to_lowercase_chars(c.as_slice());
                match iso_code_to_bcp47(iso.as_slice()) {
                    Some(tag) => chars_of(tag),
                    None => {
                        // Unknown code: "xx" becomes "xx-XX"
                        let up = to_uppercase_chars(iso.as_slice());
                        let mut r = iso;
                        r.push('-');
                        push_all(&mut r, up.as_slice());
                        r
                    },
                }
            }
        },
        LanguageFormat::Iso639_1 => {
            if is_bcp47 {
                let normalized = normalize_bcp47_case(c.as_slice());
                match bcp47_tag_to_iso(normalized.as_slice()) {
                    Some(iso) => chars_of(iso),
                    None => {
                        // Unknown tag: keep its language piece
                        let parts = split_at_dash(c.as_slice());
                        proof {
                            lemma_split_dash_nonempty(c@);
                        }
                        to_lowercase_chars(parts[0].as_slice())
                    },
                }
            } else {
                to_lowercase_chars(c.as_slice())
            }
        },
    };
    string_from_chars(out.as_slice())
}

/// Hebrew in the form a provider expects.
pub open spec fn default_code(provider: Seq<char>) -> Seq<char> {
    match provider_format(provider) {
        LanguageFormat::Iso639_1 => "he"@,
        LanguageFormat::Bcp47 => "he-IL"@,
    }
}

/// Get the default language code for a provider.
///
/// Returns Hebrew as the default (per project requirements).
pub fn default_language_code(provider: &str) -> (r: &'static str)
    ensures
        r@ == default_code(provider@),
{
    match format_for_provider(provider) {
        LanguageFormat::Iso639_1 => "he",
        LanguageFormat::Bcp47 => "he-IL",
    }
}

/// Whether a code is listed: a tag (it holds a `-`) among the known tags
/// once its case is normalized, else an ISO code among the known codes once
/// lower-cased.
pub open spec fn is_known_spec(code: Seq<char>) -> bool {
    if code.contains('-') {
        bcp47_to_iso(bcp47_case(code)) is Some
    } else {
        iso_to_bcp47(lowercase(code)) is Some
    }
}

/// Check if a language code is supported by checking if it's in our mappings.
pub fn is_known_language_code(code: &str) -> (r: bool)
    ensures
        r == is_known_spec(code@),
{
    let c = chars_of(code);
    if contains_char(c.as_slice(), '-') {
        let normalized = normalize_bcp47_case(c.as_slice());
        bcp47_tag_to_iso(normalized.as_slice()).is_some()
    } else {
        let lower = to_lowercase_chars(c.as_slice());
        iso_code_to_bcp47(lower.as_slice()).is_some()
    }
}

} // verus!
