//! The configuration: which strategies serve a session, and for whom.

use vstd::prelude::*;
use crate::window::{default_patterns, get_window_patterns, pattern_views, WindowPattern};

verus! {

/// The strategy that turns audio into a transcript.
#[derive(Clone, Copy, Debug, PartialEq, Eq, Structural)]
pub enum TranscriberType {
    WhisperCppTranscriberType,
    OpenAITranscriberType,
}

/// The strategy that turns a transcript into a summary.
#[derive(Clone, Copy, Debug, PartialEq, Eq, Structural)]
pub enum SummarizerType {
    TFIDFSummarizerType,
    OpenAISummarizerType,
}

/// The configuration, as it is read once for each session.
#[derive(Debug)]
pub struct MeetNoteConfig {
    /// The credential of the remote service.
    pub openai_api_token: Option<String>,
    /// The name of the audio input device.
    pub target_device: Option<String>,
    /// The model of the local transcription engine.
    pub whisper_model: String,
    /// The windows that mark a meeting.
    pub window_patterns: Vec<WindowPattern>,
    pub transcriber_type: TranscriberType,
    pub summarizer_type: SummarizerType,
    /// The language of the meetings.
    pub language: String,
}

/// The summarizer that a configuration asks for, with what it needs.
#[derive(Debug)]
pub enum SummarizerChoice {
    /// The extractive summarizer.
    TFIDF,
    /// The remote summarizer, with its credential.
    OpenAI { token: String },
}

/// Why a configuration names no usable strategy.
#[derive(Clone, Copy, Debug, PartialEq, Eq, Structural)]
pub enum ConfigError {
    /// The remote summarizer is chosen and no credential is given.
    MissingOpenAIToken,
}

/// The language where none is configured.
pub fn default_language() -> (language: String)
    ensures
        language@ == "ja"@,
{
    let mut language = String::new();
    language.append("ja");
    proof {
        assert(language@ =~= "ja"@);
    }
    language
}

/// The transcriber where none is configured.
pub fn default_transcriber_type() -> (kind: TranscriberType)
    ensures
        kind == TranscriberType::WhisperCppTranscriberType,
{
    TranscriberType::WhisperCppTranscriberType
}

/// The summarizer where none is configured.
pub fn default_summarizer_type() -> (kind: SummarizerType)
    ensures
        kind == SummarizerType::TFIDFSummarizerType,
{
    SummarizerType::TFIDFSummarizerType
}

/// Whether `config` is the configuration that holds where none is stored.
pub open spec fn is_default_config(config: MeetNoteConfig) -> bool {
    &&& config.transcriber_type == TranscriberType::WhisperCppTranscriberType
    &&& config.summarizer_type == SummarizerType::TFIDFSummarizerType
    &&& config.openai_api_token is None
    &&& config.target_device is None
    &&& config.whisper_model@ == "small"@
    &&& config.language@ == "ja"@
    &&& pattern_views(config.window_patterns@) == default_patterns()
}

impl MeetNoteConfig {
    /// The summarizer that the configuration asks for. The remote one
    /// needs the credential.
    pub fn build_summarizer(&self) -> (choice: Result<SummarizerChoice, ConfigError>)
        ensures
            match choice {
                Ok(SummarizerChoice::TFIDF) => self.summarizer_type
                    == SummarizerType::TFIDFSummarizerType,
                Ok(SummarizerChoice::OpenAI { token }) => self.summarizer_type
                    == SummarizerType::OpenAISummarizerType && self.openai_api_token == Some(
                    token,
                ),
                Err(ConfigError::MissingOpenAIToken) => self.summarizer_type
                    == SummarizerType::OpenAISummarizerType && self.openai_api_token is None,
            },
    {
        match self.summarizer_type {
            SummarizerType::TFIDFSummarizerType => Ok(SummarizerChoice::TFIDF),
            SummarizerType::OpenAISummarizerType => match &self.openai_api_token {
                Some(token) => Ok(SummarizerChoice::OpenAI { token: token.clone() }),
                None => Err(ConfigError::MissingOpenAIToken),
            },
        }
    }
}

impl Default for MeetNoteConfig {
    fn default() -> (config: MeetNoteConfig)
        ensures
            is_default_config(config),
    {
        let mut whisper_model = String::new();
        whisper_model.append("small");
        proof {
            assert(whisper_model@ =~= "small"@);
        }
        MeetNoteConfig {
            transcriber_type: default_transcriber_type(),
            summarizer_type: default_summarizer_type(),
            openai_api_token: None,
            target_device: None,
            whisper_model,
            language: default_language(),
            window_patterns: get_window_patterns(),
        }
    }
}

/// The configuration that holds where none is stored.
pub fn default_config() -> (config: MeetNoteConfig)
    ensures
        is_default_config(config),
{
    MeetNoteConfig::default()
}

/// The stored configuration where it could be loaded, else the default
/// one.
pub fn load_config_or_default(loaded: Result<MeetNoteConfig, String>) -> (config: MeetNoteConfig)
    ensures
        match loaded {
            Ok(stored) => config == stored,
            Err(_) => is_default_config(config),
        },
{
    match loaded {
        Ok(stored) => stored,
        Err(_) => default_config(),
    }
}

} // verus!
