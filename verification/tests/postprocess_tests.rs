use meetnote::config::{default_config, MeetNoteConfig, TranscriberType};
use meetnote::entry::Entry;
use meetnote::mp3::convert_to_mp3;
use meetnote::postprocess::{
    concat_raw_command, mix_command, normalize_mic_command, postprocess_status,
    start_postprocess_thread, Action, CleanupError, MergeError, Outcome, PostProcessCommand,
    PostProcessError, PostProcessEvent, PostProcessStatus, PostProcessor, Stage, SummarizeError,
    TranscriberChoice,
};
use meetnote::postprocess_resumer::{resume_postprocess, SessionFiles};
use meetnote::transcriber::TranscribeError;

fn strings(v: &[&str]) -> Vec<String> {
    v.iter().map(|s| s.to_string()).collect()
}

fn processor() -> PostProcessor {
    PostProcessor::new("/tmp/screen.wav".to_string(), "/tmp/mic.wav".to_string())
}

fn entry() -> Entry {
    Entry::new("/data/s1".to_string())
}

fn raw_format() -> Vec<String> {
    strings(&[
        "-t", "raw", "-r", "48000", "-e", "floating-point", "-b", "32", "-c", "1", "--endian",
        "little",
    ])
}

fn run_args(action: Action) -> Vec<String> {
    match action {
        Action::Run(args) => args,
        other => panic!("expected a command, got {:?}", other),
    }
}

fn finished(action: Action) -> Result<Vec<CleanupError>, PostProcessError> {
    match action {
        Action::Finish(result) => result,
        other => panic!("expected the end, got {:?}", other),
    }
}

/// Runs a session up to `stage`, every step before it succeeding.
fn run_to(stage: Stage, p: &mut PostProcessor, status: &mut PostProcessStatus) -> Action {
    let mut action = p.postprocess(entry(), &default_config(), status);
    while p.stage != stage {
        let outcome = match p.stage {
            Stage::ListRaw => Outcome::Listed(strings(&["/data/s1/s1-0.raw", "/data/s1/s1-1.raw"])),
            Stage::ReadTranscript => Outcome::Text("WEBVTT\n".to_string()),
            Stage::Summarize => Outcome::Text("# Title\n- point".to_string()),
            Stage::Cleanup => Outcome::Cleaned(vec![]),
            Stage::Idle => panic!("the session ended before {:?}", stage),
            _ => Outcome::Succeeded,
        };
        action = p.advance(outcome, status);
    }
    action
}

#[test]
fn a_session_left_by_a_crash_is_processed_to_the_end() {
    let found = vec![
        SessionFiles { dir: "/data/done".to_string(), has_mic_track: true, has_summary: true },
        SessionFiles { dir: "/data/s1".to_string(), has_mic_track: true, has_summary: false },
        SessionFiles { dir: "/data/empty".to_string(), has_mic_track: false, has_summary: false },
    ];
    let mut entries = resume_postprocess(&found);
    assert_eq!(entries.len(), 1);
    let entry = entries.pop().unwrap();
    assert_eq!(entry.dir, "/data/s1");
    assert_eq!(entry.basename, "s1");

    let mut status = PostProcessStatus::new();
    let mut p = processor();
    let action = p.postprocess(entry, &default_config(), &mut status);
    assert_eq!(status.path, "/data/s1");
    assert_eq!(status.message, "Merging wave files");
    assert!(matches!(&action, Action::ListRawFiles(pattern) if pattern == "/data/s1/s1*.raw"));

    let raw = strings(&["/data/s1/s1-0.raw", "/data/s1/s1-1.raw"]);
    let action = p.advance(Outcome::Listed(raw.clone()), &mut status);
    let mut expected = strings(&["sox"]);
    expected.extend(raw_format());
    expected.push("/data/s1/s1-0.raw".to_string());
    expected.extend(raw_format());
    expected.push("/data/s1/s1-1.raw".to_string());
    expected.extend(strings(&["/tmp/screen.wav", "norm"]));
    assert_eq!(run_args(action), expected);
    assert_eq!(status.message, "Merging wave files");

    let action = p.advance(Outcome::Succeeded, &mut status);
    assert_eq!(run_args(action), strings(&["sox", "/data/s1/s1.mic.wav", "/tmp/mic.wav", "norm"]));

    let action = p.advance(Outcome::Succeeded, &mut status);
    assert_eq!(
        run_args(action),
        strings(&["sox", "-m", "/tmp/mic.wav", "/tmp/screen.wav", "/data/s1/s1.wav"])
    );

    let action = p.advance(Outcome::Succeeded, &mut status);
    assert_eq!(status.message, "Convert to MP3");
    assert_eq!(
        run_args(action),
        strings(&[
            "lame", "--verbose", "-v", "--abr", "58", "-m", "m", "/data/s1/s1.wav",
            "/data/s1/s1.mp3"
        ])
    );

    let action = p.advance(Outcome::Succeeded, &mut status);
    assert_eq!(status.message, "Transcribing");
    assert!(matches!(&action, Action::Transcribe { wav, vtt }
        if wav == "/data/s1/s1.wav" && vtt == "/data/s1/s1.vtt"));
    assert!(matches!(&p.transcriber, Some(TranscriberChoice::WhisperCpp(engine))
        if engine.version == "v1.5.1" && engine.model == "small" && engine.language == "ja"));

    let action = p.advance(Outcome::Succeeded, &mut status);
    assert_eq!(status.message, "Summarizing");
    assert!(matches!(&action, Action::ReadTranscript(path) if path == "/data/s1/s1.vtt"));

    let action = p.advance(Outcome::Text("WEBVTT\n\nhello".to_string()), &mut status);
    assert!(matches!(&action, Action::Summarize(text) if text == "WEBVTT\n\nhello"));

    let action = p.advance(Outcome::Text("# Title\n- point".to_string()), &mut status);
    assert!(matches!(&action, Action::WriteSummary { path, text }
        if path == "/data/s1/s1.md" && text == "# Title\n- point"));
    assert_eq!(status.message, "Summarizing");

    let action = p.advance(Outcome::Succeeded, &mut status);
    assert_eq!(status.message, "Cleanup");
    let expected =
        strings(&["/data/s1/s1.wav", "/data/s1/s1.mic.wav", "/data/s1/s1-0.raw", "/data/s1/s1-1.raw"]);
    assert_eq!(p.cleanup(), expected);
    assert!(matches!(&action, Action::Remove(paths) if *paths == expected));
    assert_eq!(status.processed_paths.len(), 0);

    let result = finished(p.advance(Outcome::Cleaned(vec![]), &mut status));
    assert!(matches!(result, Ok(left) if left.is_empty()));
    assert_eq!(p.stage, Stage::Idle);
    assert_eq!(status.path, "");
    assert_eq!(status.message, "");
    assert_eq!(status.processed_paths, strings(&["/data/s1"]));
}

#[test]
fn a_finished_session_is_reported_once() {
    let mut status = PostProcessStatus::new();
    let mut p = processor();
    run_to(Stage::Cleanup, &mut p, &mut status);
    p.advance(Outcome::Cleaned(vec![]), &mut status);

    let first = postprocess_status(&mut status);
    assert_eq!(first.path, "");
    assert_eq!(first.message, "");
    assert_eq!(first.processed_paths, strings(&["/data/s1"]));
    let second = postprocess_status(&mut status);
    assert_eq!(second.processed_paths, Vec::<String>::new());
}

#[test]
fn a_query_in_the_middle_shows_the_step_in_work() {
    let mut status = PostProcessStatus::new();
    let mut p = processor();
    run_to(Stage::Transcribe, &mut p, &mut status);
    let seen = postprocess_status(&mut status);
    assert_eq!(seen.path, "/data/s1");
    assert_eq!(seen.message, "Transcribing");
    assert_eq!(seen.processed_paths.len(), 0);
    assert_eq!(status.path, "/data/s1");
    assert_eq!(status.message, "Transcribing");
}

#[test]
fn the_status_is_set_step_by_step() {
    let mut status = PostProcessStatus::new();
    status.set_path("/data/x".to_string());
    status.set_message("Working");
    status.push_processed("/data/a".to_string());
    status.push_processed("/data/b".to_string());
    assert_eq!(status.path, "/data/x");
    assert_eq!(status.message, "Working");
    status.clear();
    assert_eq!(status.path, "");
    assert_eq!(status.message, "");
    assert_eq!(status.processed_paths, strings(&["/data/a", "/data/b"]));
}

#[test]
fn merging_nothing_is_an_error() {
    let mut status = PostProcessStatus::new();
    let mut p = processor();
    p.postprocess(entry(), &default_config(), &mut status);
    let result = finished(p.advance(Outcome::Listed(vec![]), &mut status));
    assert!(matches!(result, Err(PostProcessError::Merge(MergeError::NoRawFiles))));
    assert_eq!(p.stage, Stage::Idle);
    assert_eq!(status.processed_paths, strings(&["/data/s1"]));
    assert_eq!(status.message, "");
    assert!(matches!(
        concat_raw_command(&vec![], "/tmp/out.wav"),
        Err(MergeError::NoRawFiles)
    ));
    let one = concat_raw_command(&strings(&["a.raw"]), "/tmp/out.wav").unwrap();
    let mut expected = strings(&["sox"]);
    expected.extend(raw_format());
    expected.extend(strings(&["a.raw", "/tmp/out.wav", "norm"]));
    assert_eq!(one, expected);
}

#[test]
fn commands_name_the_program_first() {
    assert_eq!(normalize_mic_command("in.wav", "out.wav"), strings(&["sox", "in.wav", "out.wav", "norm"]));
    assert_eq!(mix_command("a.wav", "b.wav", "c.wav"), strings(&["sox", "-m", "a.wav", "b.wav", "c.wav"]));
    assert_eq!(
        convert_to_mp3("a.wav", "a.mp3"),
        strings(&["lame", "--verbose", "-v", "--abr", "58", "-m", "m", "a.wav", "a.mp3"])
    );
}

#[test]
fn a_failed_listing_is_a_merge_error() {
    let mut status = PostProcessStatus::new();
    let mut p = processor();
    p.postprocess(entry(), &default_config(), &mut status);
    let result = finished(p.advance(Outcome::Failed("bad pattern".to_string()), &mut status));
    assert!(matches!(result, Err(PostProcessError::Merge(MergeError::ListFailed(m))) if m == "bad pattern"));
}

#[test]
fn a_failed_concatenation_is_a_merge_error() {
    let mut status = PostProcessStatus::new();
    let mut p = processor();
    run_to(Stage::ConcatRaw, &mut p, &mut status);
    let result = finished(p.advance(Outcome::Exited("sox: bad".to_string()), &mut status));
    assert!(matches!(result, Err(PostProcessError::Merge(MergeError::ConcatFailed(m))) if m == "sox: bad"));
    assert_eq!(status.processed_paths, strings(&["/data/s1"]));
}

#[test]
fn a_microphone_track_that_cannot_be_normalized_does_not_stop_the_merge() {
    let mut status = PostProcessStatus::new();
    let mut p = processor();
    run_to(Stage::NormalizeMic, &mut p, &mut status);
    let action = p.advance(Outcome::Exited("sox WARN".to_string()), &mut status);
    assert_eq!(p.stage, Stage::Mix);
    assert!(matches!(action, Action::Run(_)));

    let mut p = processor();
    run_to(Stage::NormalizeMic, &mut p, &mut status);
    let result = finished(p.advance(Outcome::Failed("no sox".to_string()), &mut status));
    assert!(matches!(result, Err(PostProcessError::Merge(MergeError::NormalizeFailed(m))) if m == "no sox"));
}

#[test]
fn a_failed_mix_is_a_merge_error() {
    let mut status = PostProcessStatus::new();
    let mut p = processor();
    run_to(Stage::Mix, &mut p, &mut status);
    let result = finished(p.advance(Outcome::Exited("exit 2".to_string()), &mut status));
    assert!(matches!(result, Err(PostProcessError::Merge(MergeError::MixFailed(m))) if m == "exit 2"));
}

#[test]
fn a_failed_encoding_stops_before_the_transcript() {
    let mut status = PostProcessStatus::new();
    let mut p = processor();
    run_to(Stage::Encode, &mut p, &mut status);
    let result = finished(p.advance(Outcome::Exited("lame: no".to_string()), &mut status));
    assert!(matches!(result, Err(PostProcessError::Encode(e)) if e.diagnostics == "lame: no"));
    assert_eq!(p.stage, Stage::Idle);
}

#[test]
fn the_remote_transcriber_needs_its_credential() {
    let mut config = default_config();
    config.transcriber_type = TranscriberType::OpenAITranscriberType;
    assert!(matches!(PostProcessor::transcribe(&config), Err(TranscribeError::MissingCredential)));

    let mut status = PostProcessStatus::new();
    let mut p = processor();
    p.postprocess(entry(), &config, &mut status);
    p.advance(Outcome::Listed(strings(&["a.raw"])), &mut status);
    p.advance(Outcome::Succeeded, &mut status);
    p.advance(Outcome::Succeeded, &mut status);
    p.advance(Outcome::Succeeded, &mut status);
    assert_eq!(p.stage, Stage::Encode);
    let result = finished(p.advance(Outcome::Succeeded, &mut status));
    assert!(matches!(result, Err(PostProcessError::Transcribe(TranscribeError::MissingCredential))));

    config.openai_api_token = Some("SECRET-REDACTED".to_string());
    config.language = "en".to_string();
    assert!(matches!(PostProcessor::transcribe(&config),
        Ok(TranscriberChoice::OpenAI { token, language }) if token == "SECRET-REDACTED" && language == "en"));
}

#[test]
fn the_local_transcriber_takes_model_and_language_from_the_configuration() {
    let mut config: MeetNoteConfig = default_config();
    config.whisper_model = "medium".to_string();
    config.language = "en".to_string();
    assert!(matches!(PostProcessor::transcribe(&config),
        Ok(TranscriberChoice::WhisperCpp(engine))
            if engine.version == "v1.5.1" && engine.model == "medium" && engine.language == "en"));
}

#[test]
fn a_failed_transcription_carries_the_diagnostics() {
    let mut status = PostProcessStatus::new();
    let mut p = processor();
    run_to(Stage::Transcribe, &mut p, &mut status);
    let result = finished(p.advance(Outcome::Failed("whisper: boom".to_string()), &mut status));
    assert!(matches!(result, Err(PostProcessError::Transcribe(TranscribeError::Failed(m))) if m == "whisper: boom"));
}

#[test]
fn an_unreadable_transcript_is_a_summarize_error() {
    let mut status = PostProcessStatus::new();
    let mut p = processor();
    run_to(Stage::ReadTranscript, &mut p, &mut status);
    let result = finished(p.advance(Outcome::Failed("not found".to_string()), &mut status));
    assert!(matches!(result,
        Err(PostProcessError::Summarize(SummarizeError::UnreadableTranscript(m))) if m == "not found"));
}

#[test]
fn a_failing_summarizer_is_a_summarize_error() {
    let mut status = PostProcessStatus::new();
    let mut p = processor();
    run_to(Stage::Summarize, &mut p, &mut status);
    let result = finished(p.advance(Outcome::Failed("no answer".to_string()), &mut status));
    assert!(matches!(result, Err(PostProcessError::Summarize(SummarizeError::Failed(m))) if m == "no answer"));
}

#[test]
fn a_summary_that_cannot_be_written_is_a_summarize_error() {
    let mut status = PostProcessStatus::new();
    let mut p = processor();
    run_to(Stage::WriteSummary, &mut p, &mut status);
    let result = finished(p.advance(Outcome::Failed("disk full".to_string()), &mut status));
    assert!(matches!(result, Err(PostProcessError::Summarize(SummarizeError::WriteFailed(m))) if m == "disk full"));
    assert_eq!(p.stage, Stage::Idle);
}

#[test]
fn files_that_cleanup_leaves_are_reported_and_the_session_succeeds() {
    let mut status = PostProcessStatus::new();
    let mut p = processor();
    run_to(Stage::Cleanup, &mut p, &mut status);
    let left = vec![CleanupError { path: "/data/s1/s1-0.raw".to_string(), diagnostics: "busy".to_string() }];
    let result = finished(p.advance(Outcome::Cleaned(left), &mut status));
    assert!(matches!(result, Ok(left) if left.len() == 1 && left[0].path == "/data/s1/s1-0.raw" && left[0].diagnostics == "busy"));
}

#[test]
fn an_answer_that_does_not_fit_the_step_ends_the_session() {
    let mut status = PostProcessStatus::new();
    let mut p = processor();
    run_to(Stage::Mix, &mut p, &mut status);
    let result = finished(p.advance(Outcome::Text("?".to_string()), &mut status));
    assert!(matches!(result, Err(PostProcessError::Unexpected)));

    let before = status.processed_paths.len();
    let result = finished(p.advance(Outcome::Succeeded, &mut status));
    assert!(matches!(result, Err(PostProcessError::Unexpected)));
    assert_eq!(status.processed_paths.len(), before);
}

#[test]
fn the_summary_alone_can_be_made_anew_and_comes_out_the_same() {
    let mut written: Vec<String> = Vec::new();
    for _ in 0..2 {
        let mut status = PostProcessStatus::new();
        let mut p = processor();
        let action = p.regenerate_summary(entry(), &mut status);
        assert_eq!(status.path, "/data/s1");
        assert_eq!(status.message, "Summarizing again");
        assert!(matches!(&action, Action::ReadTranscript(path) if path == "/data/s1/s1.vtt"));
        let action = p.advance(Outcome::Text("WEBVTT\n\ntext".to_string()), &mut status);
        let text = match action {
            Action::Summarize(text) => text,
            other => panic!("{:?}", other),
        };
        let action = p.advance(Outcome::Text(format!("summary of {}", text.len())), &mut status);
        match action {
            Action::WriteSummary { path, text } => {
                assert_eq!(path, "/data/s1/s1.md");
                written.push(text);
            }
            other => panic!("{:?}", other),
        }
        let result = finished(p.advance(Outcome::Succeeded, &mut status));
        assert!(matches!(result, Ok(left) if left.is_empty()));
        assert_eq!(status.processed_paths, strings(&["/data/s1"]));
    }
    assert_eq!(written[0].as_bytes(), written[1].as_bytes());
}

#[test]
fn requests_are_served_by_their_command() {
    let config = default_config();
    let mut status = PostProcessStatus::new();
    let mut p = processor();
    let all = PostProcessEvent { command: "ALL".to_string(), entry: entry() };
    assert_eq!(all.parse_command(), PostProcessCommand::All);
    let action = start_postprocess_thread(&mut p, all, &config, &mut status);
    assert!(matches!(action, Action::ListRawFiles(_)));
    assert_eq!(p.stage, Stage::ListRaw);

    let again = PostProcessEvent { command: "REGENERATE_SUMMARY".to_string(), entry: entry() };
    assert_eq!(again.parse_command(), PostProcessCommand::RegenerateSummary);
    let action = start_postprocess_thread(&mut p, again, &config, &mut status);
    assert!(matches!(action, Action::ReadTranscript(_)));
    assert!(p.summary_only);

    let mut idle = processor();
    let mut untouched = PostProcessStatus::new();
    let other = PostProcessEvent { command: "all".to_string(), entry: entry() };
    assert_eq!(other.parse_command(), PostProcessCommand::Unknown);
    let action = start_postprocess_thread(&mut idle, other, &config, &mut untouched);
    assert!(matches!(action, Action::Finish(Err(PostProcessError::Unexpected))));
    assert_eq!(idle.stage, Stage::Idle);
    assert_eq!(untouched.path, "");
    assert_eq!(untouched.processed_paths.len(), 0);
}

#[test]
fn only_sessions_with_a_track_and_without_a_summary_are_resumed() {
    let found = vec![
        SessionFiles { dir: "/d/a".to_string(), has_mic_track: true, has_summary: false },
        SessionFiles { dir: "/d/b".to_string(), has_mic_track: false, has_summary: true },
        SessionFiles { dir: "/d/c/".to_string(), has_mic_track: true, has_summary: false },
        SessionFiles { dir: "/d/d".to_string(), has_mic_track: true, has_summary: true },
    ];
    let entries = resume_postprocess(&found);
    let dirs: Vec<&str> = entries.iter().map(|e| e.dir.as_str()).collect();
    assert_eq!(dirs, vec!["/d/a", "/d/c/"]);
    assert_eq!(entries[1].basename, "c");
    assert_eq!(resume_postprocess(&vec![]).len(), 0);
}
