use voice_transcription::backends::assemblyai::AssemblyAIBackend;
use voice_transcription::backends::google_cloud::GoogleCloudBackend;
use voice_transcription::backends::local_whisper::LocalWhisperBackend;
use voice_transcription::schema::{
    HasProviderSchema, OptionType, OptionValue, ProviderOption, ProviderSchema,
};

#[test]
fn test_option_value_new() {
    let opt = OptionValue::new("tiny", "Tiny (75MB)");
    assert_eq!(opt.value, "tiny");
    assert_eq!(opt.label, "Tiny (75MB)");
}

#[test]
fn test_option_value_simple() {
    let opt = OptionValue::simple("base");
    assert_eq!(opt.value, "base");
    assert_eq!(opt.label, "base");
}

#[test]
fn test_provider_option_builder() {
    let option = ProviderOption::new("model", "Model", OptionType::Select)
        .required()
        .with_default("base")
        .with_values(vec![
            OptionValue::new("tiny", "Tiny"),
            OptionValue::new("base", "Base"),
        ])
        .with_description("Whisper model to use");

    assert_eq!(option.id, "model");
    assert_eq!(option.label, "Model");
    assert_eq!(option.option_type, OptionType::Select);
    assert!(option.required);
    assert_eq!(option.default, "base");
    assert_eq!(option.values.len(), 2);
    assert_eq!(option.description, Some("Whisper model to use".to_string()));
}

#[test]
fn test_provider_schema_builder() {
    let schema = ProviderSchema::new("local_whisper", "Local Whisper")
        .with_option(ProviderOption::new("model", "Model", OptionType::Select));

    assert_eq!(schema.provider_id, "local_whisper");
    assert_eq!(schema.provider_name, "Local Whisper");
    assert_eq!(schema.options.len(), 1);
}

#[test]
fn assemblyai_test_provider_schema() {
    let schema = AssemblyAIBackend::get_provider_schema();
    assert_eq!(schema.provider_id, "assemblyai");
    assert_eq!(schema.provider_name, "AssemblyAI");
    assert!(!schema.options.is_empty());

    // Check that api_key is required
    let api_key_opt = schema.options.iter().find(|o| o.id == "api_key");
    assert!(api_key_opt.is_some());
    assert!(api_key_opt.unwrap().required);
}

#[test]
fn google_cloud_test_provider_schema() {
    let schema = GoogleCloudBackend::get_provider_schema();
    assert_eq!(schema.provider_id, "google_cloud");
    assert_eq!(schema.provider_name, "Google Cloud Speech");
    assert!(!schema.options.is_empty());

    // Check required options
    let required_ids: Vec<&str> = schema
        .options
        .iter()
        .filter(|o| o.required)
        .map(|o| o.id.as_str())
        .collect();

    assert!(required_ids.contains(&"access_token"));
    assert!(required_ids.contains(&"project_id"));
}

#[test]
fn local_whisper_provider_schema() {
    let schema = LocalWhisperBackend::get_provider_schema();
    assert_eq!(schema.provider_id, "local_whisper");
    assert_eq!(schema.provider_name, "Local Whisper");
    assert_eq!(schema.options.len(), 2);
    let model = &schema.options[0];
    assert_eq!(model.id, "model");
    assert_eq!(model.option_type, OptionType::Select);
    assert_eq!(model.default, "base");
    assert_eq!(model.values.len(), 10);
    assert_eq!(model.values[9].value, "large-v3-turbo");
    let path = &schema.options[1];
    assert_eq!(path.id, "model_path");
    assert_eq!(path.option_type, OptionType::Path);
    assert!(!path.required);
    assert_eq!(path.default, "");
}

#[test]
fn google_cloud_schema_defaults() {
    let schema = GoogleCloudBackend::get_provider_schema();
    assert_eq!(schema.options.len(), 5);
    assert_eq!(schema.options[2].id, "location");
    assert_eq!(schema.options[2].default, "us-central1");
    assert_eq!(schema.options[2].values.len(), 9);
    assert_eq!(schema.options[3].default, "chirp");
    assert_eq!(schema.options[4].default, "en-US");
    assert_eq!(schema.options[4].values.len(), 21);
}

#[test]
fn assemblyai_language_choice_starts_with_detection() {
    let schema = AssemblyAIBackend::get_provider_schema();
    let lang = &schema.options[2];
    assert_eq!(lang.default, "");
    assert_eq!(lang.values[0].value, "");
    assert_eq!(lang.values[0].label, "Auto-detect");
    assert_eq!(lang.values.len(), 18);
}

#[test]
fn schema_with_options_appends_in_order() {
    let schema = ProviderSchema::new("p", "P")
        .with_option(ProviderOption::new("a", "A", OptionType::Text))
        .with_options(vec![
            ProviderOption::new("b", "B", OptionType::Number),
            ProviderOption::new("c", "C", OptionType::Checkbox),
        ]);
    let ids: Vec<&str> = schema.options.iter().map(|o| o.id.as_str()).collect();
    assert_eq!(ids, vec!["a", "b", "c"]);
}
