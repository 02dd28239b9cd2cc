use voice_transcription::BackendConfig;

#[test]
fn test_backend_config_default() {
    let config = BackendConfig::default();
    assert!(config.model_path.is_none());
    assert!(config.model_name.is_none());
    assert!(config.api_key.is_none());
    assert!(config.options.is_empty());
}

#[test]
fn test_backend_config_new() {
    let config = BackendConfig::new();
    assert!(config.model_path.is_none());
    assert!(config.model_name.is_none());
    assert!(config.api_key.is_none());
    assert!(config.options.is_empty());
}

#[test]
fn test_backend_config_with_model_path() {
    let config = BackendConfig::new().with_model_path("/path/to/model.bin");
    assert_eq!(config.model_path, Some("/path/to/model.bin".to_string()));
}

#[test]
fn test_backend_config_with_model_name() {
    let config = BackendConfig::new().with_model_name("large-v3");
    assert_eq!(config.model_name, Some("large-v3".to_string()));
}

#[test]
fn test_backend_config_with_api_key() {
    let config = BackendConfig::new().with_api_key("secret-key-123");
    assert_eq!(config.api_key, Some("secret-key-123".to_string()));
}

#[test]
fn test_backend_config_with_option() {
    let config = BackendConfig::new()
        .with_option("threads", "4")
        .with_option("device", "cuda");
    assert_eq!(config.options.get("threads"), Some(&"4".to_string()));
    assert_eq!(config.options.get("device"), Some(&"cuda".to_string()));
}

#[test]
fn test_backend_config_builder_chain() {
    let config = BackendConfig::new()
        .with_model_path("/models/whisper.bin")
        .with_model_name("base")
        .with_api_key("key123")
        .with_option("threads", "8");
    assert_eq!(config.model_path, Some("/models/whisper.bin".to_string()));
    assert_eq!(config.model_name, Some("base".to_string()));
    assert_eq!(config.api_key, Some("key123".to_string()));
    assert_eq!(config.options.get("threads"), Some(&"8".to_string()));
}

#[test]
fn test_backend_config_debug() {
    let config = BackendConfig::new().with_model_name("test");
    let debug_str = format!("{:?}", config);
    assert!(debug_str.contains("BackendConfig"));
    assert!(debug_str.contains("test"));
}

#[test]
fn test_backend_config_clone() {
    let config = BackendConfig::new()
        .with_model_path("/path")
        .with_option("key", "value");
    let cloned = config.clone();
    assert_eq!(config.model_path, cloned.model_path);
    assert_eq!(config.options, cloned.options);
}

#[test]
fn test_backend_config() {
    let config = BackendConfig::new()
        .with_model_path("/path/to/model.bin")
        .with_model_name("base");

    assert_eq!(config.model_path, Some("/path/to/model.bin".to_string()));
    assert_eq!(config.model_name, Some("base".to_string()));
}

#[test]
fn option_set_twice_keeps_the_later_value() {
    let config = BackendConfig::new()
        .with_option("threads", "4")
        .with_option("threads", "8");
    assert_eq!(config.options.get("threads"), Some(&"8".to_string()));
    assert_eq!(config.options.len(), 1);
}

#[test]
fn option_not_set_reads_as_none() {
    let config = BackendConfig::new().with_option("threads", "4");
    assert_eq!(config.options.get("device"), None);
}

#[test]
fn options_compare_by_content_not_order() {
    let a = BackendConfig::new().with_option("a", "1").with_option("b", "2");
    let b = BackendConfig::new().with_option("b", "2").with_option("a", "1");
    assert_eq!(a.options, b.options);
    let c = BackendConfig::new().with_option("a", "1").with_option("b", "3");
    assert_ne!(a.options, c.options);
}
