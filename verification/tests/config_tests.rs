use meetnote::config::{
    default_config, default_language, default_summarizer_type, default_transcriber_type,
    load_config_or_default, ConfigError, MeetNoteConfig, SummarizerChoice, SummarizerType,
    TranscriberType,
};

#[test]
fn the_default_configuration_is_local_and_japanese() {
    let config = default_config();
    assert_eq!(config.transcriber_type, TranscriberType::WhisperCppTranscriberType);
    assert_eq!(config.summarizer_type, SummarizerType::TFIDFSummarizerType);
    assert_eq!(config.openai_api_token, None);
    assert_eq!(config.target_device, None);
    assert_eq!(config.whisper_model, "small");
    assert_eq!(config.language, "ja");
    assert_eq!(config.window_patterns.len(), 3);
    assert_eq!(config.window_patterns[0].bundle_id, "us.zoom.xos");
    assert_eq!(config.window_patterns[0].window_title, "Zoom Meeting");
    assert_eq!(config.window_patterns[2].window_title, "zoom share statusbar window");
    let same: MeetNoteConfig = Default::default();
    assert_eq!(same.whisper_model, "small");
    assert_eq!(default_language(), "ja");
    assert_eq!(default_transcriber_type(), TranscriberType::WhisperCppTranscriberType);
    assert_eq!(default_summarizer_type(), SummarizerType::TFIDFSummarizerType);
}

#[test]
fn the_remote_summarizer_needs_its_credential() {
    let mut config = default_config();
    assert!(matches!(config.build_summarizer(), Ok(SummarizerChoice::TFIDF)));
    config.summarizer_type = SummarizerType::OpenAISummarizerType;
    assert!(matches!(config.build_summarizer(), Err(ConfigError::MissingOpenAIToken)));
    config.openai_api_token = Some("SECRET-REDACTED".to_string());
    assert!(matches!(config.build_summarizer(),
        Ok(SummarizerChoice::OpenAI { token }) if token == "SECRET-REDACTED"));
    config.summarizer_type = SummarizerType::TFIDFSummarizerType;
    assert!(matches!(config.build_summarizer(), Ok(SummarizerChoice::TFIDF)));
}

#[test]
fn a_configuration_that_cannot_be_loaded_gives_way_to_the_default() {
    let mut stored = default_config();
    stored.language = "en".to_string();
    stored.whisper_model = "large".to_string();
    let config = load_config_or_default(Ok(stored));
    assert_eq!(config.language, "en");
    assert_eq!(config.whisper_model, "large");
    let config = load_config_or_default(Err("no such file".to_string()));
    assert_eq!(config.language, "ja");
    assert_eq!(config.whisper_model, "small");
}
