use voice_transcription::language::{
    default_language_code, is_known_language_code, normalize_language_code, LanguageFormat,
    PROVIDER_ASSEMBLYAI, PROVIDER_GOOGLE_CLOUD, PROVIDER_LOCAL_WHISPER, PROVIDER_SPEECHTEXT_AI,
};

#[test]
fn test_iso_to_bcp47_hebrew() {
    assert_eq!(normalize_language_code("he", "speechtext_ai"), "he-IL");
    assert_eq!(normalize_language_code("he", "google_cloud"), "he-IL");
}

#[test]
fn test_iso_to_bcp47_english() {
    assert_eq!(normalize_language_code("en", "speechtext_ai"), "en-US");
    assert_eq!(normalize_language_code("en", "google_cloud"), "en-US");
}

#[test]
fn test_bcp47_to_iso_hebrew() {
    assert_eq!(normalize_language_code("he-IL", "local_whisper"), "he");
    assert_eq!(normalize_language_code("he-IL", "assemblyai"), "he");
}

#[test]
fn test_bcp47_to_iso_english_variants() {
    assert_eq!(normalize_language_code("en-US", "local_whisper"), "en");
    assert_eq!(normalize_language_code("en-GB", "local_whisper"), "en");
    assert_eq!(normalize_language_code("en-AU", "local_whisper"), "en");
}

#[test]
fn test_passthrough_correct_format() {
    // BCP-47 to BCP-47 provider
    assert_eq!(normalize_language_code("he-IL", "speechtext_ai"), "he-IL");
    // ISO to ISO provider
    assert_eq!(normalize_language_code("he", "local_whisper"), "he");
}

#[test]
fn test_case_normalization() {
    assert_eq!(normalize_language_code("HE", "local_whisper"), "he");
    assert_eq!(normalize_language_code("HE-il", "speechtext_ai"), "he-IL");
    assert_eq!(normalize_language_code("en-us", "speechtext_ai"), "en-US");
}

#[test]
fn test_default_language_code() {
    assert_eq!(default_language_code("local_whisper"), "he");
    assert_eq!(default_language_code("speechtext_ai"), "he-IL");
    assert_eq!(default_language_code("google_cloud"), "he-IL");
}

#[test]
fn test_unknown_code_iso_to_bcp47() {
    // Unknown codes get a constructed BCP-47 tag
    assert_eq!(normalize_language_code("xx", "speechtext_ai"), "xx-XX");
}

#[test]
fn test_unknown_code_bcp47_to_iso() {
    // Unknown BCP-47 tags extract the language part
    assert_eq!(normalize_language_code("xx-YY", "local_whisper"), "xx");
}

#[test]
fn test_is_known_language_code() {
    assert!(is_known_language_code("he"));
    assert!(is_known_language_code("en"));
    assert!(is_known_language_code("he-IL"));
    assert!(is_known_language_code("en-US"));
    assert!(!is_known_language_code("xx"));
    assert!(!is_known_language_code("xx-YY"));
}

#[test]
fn test_arabic_variants() {
    assert_eq!(normalize_language_code("ar", "speechtext_ai"), "ar-SA");
    assert_eq!(normalize_language_code("ar-EG", "local_whisper"), "ar");
}

#[test]
fn test_chinese_variants() {
    assert_eq!(normalize_language_code("zh", "speechtext_ai"), "zh-CN");
    assert_eq!(normalize_language_code("zh-TW", "local_whisper"), "zh");
}

#[test]
fn provider_identifiers() {
    assert_eq!(PROVIDER_LOCAL_WHISPER, "local_whisper");
    assert_eq!(PROVIDER_SPEECHTEXT_AI, "speechtext_ai");
    assert_eq!(PROVIDER_GOOGLE_CLOUD, "google_cloud");
    assert_eq!(PROVIDER_ASSEMBLYAI, "assemblyai");
    assert_ne!(LanguageFormat::Iso639_1, LanguageFormat::Bcp47);
}

#[test]
fn unknown_provider_gets_bcp47() {
    assert_eq!(normalize_language_code("he", "some_new_service"), "he-IL");
    assert_eq!(default_language_code("some_new_service"), "he-IL");
    assert_eq!(default_language_code("assemblyai"), "he");
}

#[test]
fn surrounding_white_space_is_trimmed() {
    assert_eq!(normalize_language_code("  he-il \n", "speechtext_ai"), "he-IL");
    assert_eq!(normalize_language_code("\ten ", "local_whisper"), "en");
}

#[test]
fn script_subtag_is_capitalized() {
    assert_eq!(normalize_language_code("zh-hans-cn", "google_cloud"), "zh-Hans-CN");
    assert_eq!(normalize_language_code("ZH-HANT-tw", "speechtext_ai"), "zh-Hant-TW");
}

#[test]
fn norwegian_tag_maps_to_bokmal() {
    // two ISO codes share the tag; the later one in the table wins
    assert_eq!(normalize_language_code("no", "speechtext_ai"), "nb-NO");
    assert_eq!(normalize_language_code("nb-NO", "local_whisper"), "nb");
}

#[test]
fn normalization_is_idempotent_on_examples() {
    for (code, provider) in [
        ("HE", "speechtext_ai"),
        ("en-gb", "local_whisper"),
        ("xx", "google_cloud"),
        ("zh-hans-cn", "speechtext_ai"),
        ("ar-EG", "assemblyai"),
    ] {
        let once = normalize_language_code(code, provider);
        let twice = normalize_language_code(&once, provider);
        assert_eq!(once, twice);
    }
}

#[test]
fn normalized_codes_have_the_provider_format() {
    for code in ["he", "en-US", "xx", "xx-YY", "ZH-tw"] {
        assert!(!normalize_language_code(code, "local_whisper").contains('-'));
        assert!(normalize_language_code(code, "speechtext_ai").contains('-'));
    }
}

#[test]
fn iso_code_round_trips_through_its_tag() {
    for iso in ["en", "he", "ar", "zh", "ja", "pt", "nb", "yi"] {
        let tag = normalize_language_code(iso, "speechtext_ai");
        assert_eq!(normalize_language_code(&tag, "local_whisper"), iso);
    }
}

#[test]
fn non_ascii_codes_change_case_as_std_does() {
    assert_eq!(normalize_language_code("ÉS", "local_whisper"), "és");
    assert_eq!(normalize_language_code("és", "speechtext_ai"), "és-ÉS");
}

#[test]
fn non_ascii_script_subtag_is_capitalized_as_std_does() {
    assert_eq!(normalize_language_code("xx-ébc-yy", "speechtext_ai"), "xx-Ébc-YY");
    assert_eq!(normalize_language_code("xx-aÉb-yy", "speechtext_ai"), "xx-Aéb-YY");
}

#[test]
fn unlisted_code_round_trips_through_a_made_up_tag() {
    let tag = normalize_language_code("xx", "speechtext_ai");
    assert_eq!(tag, "xx-XX");
    assert_eq!(normalize_language_code(&tag, "local_whisper"), "xx");
    let tag = normalize_language_code(" EN ", "google_cloud");
    assert_eq!(normalize_language_code(&tag, "assemblyai"), "en");
}

#[test]
fn normalization_ignores_case_and_white_space() {
    for p in ["local_whisper", "speechtext_ai", "google_cloud", "assemblyai"] {
        assert_eq!(normalize_language_code("  he-il\t", p), normalize_language_code("he-il", p));
        assert_eq!(normalize_language_code("HE-IL", p), normalize_language_code("he-il", p));
        assert_eq!(normalize_language_code("He", p), normalize_language_code("he", p));
        assert_eq!(normalize_language_code("ZH-hant-tw", p), normalize_language_code("zh-Hant-TW", p));
    }
}

#[test]
fn default_is_normalized_hebrew() {
    for p in ["local_whisper", "speechtext_ai", "google_cloud", "assemblyai", "other"] {
        let d = default_language_code(p);
        assert_eq!(d, normalize_language_code("he", p));
        assert_eq!(normalize_language_code(d, p), d);
        assert!(is_known_language_code(d));
    }
}

#[test]
fn known_codes_stay_known() {
    for code in ["he", "EN", "en-us", "ZH-tw", "nb-NO", "no"] {
        assert!(is_known_language_code(code));
        assert!(is_known_language_code(&code.to_ascii_uppercase()));
        assert!(is_known_language_code(&code.to_ascii_lowercase()));
        for p in ["local_whisper", "speechtext_ai", "google_cloud", "assemblyai"] {
            assert!(is_known_language_code(&normalize_language_code(code, p)));
        }
    }
}
