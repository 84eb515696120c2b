use meetnote::transcriber::TranscribeError;
use meetnote::whisper_cpp::{
    run_whisper, WhisperAction, WhisperOutcome, WhisperRun, WhisperStage, WhisperTranscriber,
};

fn strings(v: &[&str]) -> Vec<String> {
    v.iter().map(|s| s.to_string()).collect()
}

fn start() -> (WhisperRun, WhisperAction) {
    run_whisper(
        WhisperTranscriber::new("v1.5.1".to_string(), "small".to_string(), "ja".to_string()),
        "/cache/whisper.cpp".to_string(),
        "/tmp/0a1b.wav".to_string(),
        "/data/s1/s1.wav".to_string(),
        "/data/s1/s1.vtt".to_string(),
    )
}

fn command(action: &WhisperAction) -> (Option<&str>, Vec<String>) {
    match action {
        WhisperAction::Run { dir, command } => (dir.as_deref(), command.clone()),
        other => panic!("expected a command, got {:?}", other),
    }
}

fn to_run_stage() -> WhisperRun {
    let (mut run, _) = start();
    run.advance(WhisperOutcome::Present);
    run.advance(WhisperOutcome::Succeeded);
    run.advance(WhisperOutcome::Succeeded);
    run.advance(WhisperOutcome::Present);
    run.advance(WhisperOutcome::Present);
    run.advance(WhisperOutcome::Succeeded);
    assert_eq!(run.stage, WhisperStage::Run);
    run
}

#[test]
fn an_engine_that_is_there_is_brought_up_to_date_and_run() {
    let (mut run, action) = start();
    assert_eq!(run.stage, WhisperStage::ProbeRepo);
    assert!(matches!(&action, WhisperAction::Probe(p) if p == "/cache/whisper.cpp/.git"));

    let action = run.advance(WhisperOutcome::Present);
    assert_eq!(command(&action), (Some("/cache/whisper.cpp"), strings(&["git", "fetch"])));
    let action = run.advance(WhisperOutcome::Succeeded);
    assert_eq!(
        command(&action),
        (Some("/cache/whisper.cpp"), strings(&["git", "checkout", "v1.5.1"]))
    );
    let action = run.advance(WhisperOutcome::Succeeded);
    assert!(matches!(&action, WhisperAction::Probe(p) if p == "/cache/whisper.cpp/models/ggml-small.bin"));
    let action = run.advance(WhisperOutcome::Present);
    assert!(matches!(&action, WhisperAction::Probe(p) if p == "/cache/whisper.cpp/main"));
    let action = run.advance(WhisperOutcome::Present);
    assert_eq!(
        command(&action),
        (
            None,
            strings(&[
                "ffmpeg", "-i", "/data/s1/s1.wav", "-ar", "16000", "-acodec", "pcm_s16le",
                "/tmp/0a1b.wav"
            ])
        )
    );
    let action = run.advance(WhisperOutcome::Succeeded);
    assert_eq!(
        command(&action),
        (
            Some("/cache/whisper.cpp"),
            strings(&[
                "./main", "--language", "ja", "-m", "models/ggml-small.bin", "-ovtt", "-of",
                "/data/s1/s1", "-f", "/tmp/0a1b.wav"
            ])
        )
    );
    let action = run.advance(WhisperOutcome::Succeeded);
    assert!(matches!(&action, WhisperAction::Remove(p) if p == "/tmp/0a1b.wav"));
    let action = run.advance(WhisperOutcome::Succeeded);
    assert!(matches!(action, WhisperAction::Finish(Ok(()))));
    assert_eq!(run.stage, WhisperStage::Idle);
}

#[test]
fn an_engine_that_is_missing_is_fetched_and_built() {
    let (mut run, _) = start();
    let action = run.advance(WhisperOutcome::Absent);
    assert_eq!(
        command(&action),
        (
            None,
            strings(&[
                "git", "clone", "git@github.com:ggerganov/whisper.cpp.git", "-b", "v1.5.1",
                "/cache/whisper.cpp"
            ])
        )
    );
    let action = run.advance(WhisperOutcome::Succeeded);
    assert!(matches!(&action, WhisperAction::Probe(p) if p == "/cache/whisper.cpp/models/ggml-small.bin"));
    let action = run.advance(WhisperOutcome::Absent);
    assert_eq!(
        command(&action),
        (Some("/cache/whisper.cpp"), strings(&["./models/download-ggml-model.sh", "small"]))
    );
    let action = run.advance(WhisperOutcome::Succeeded);
    assert!(matches!(&action, WhisperAction::Probe(p) if p == "/cache/whisper.cpp/main"));
    let action = run.advance(WhisperOutcome::Absent);
    assert_eq!(command(&action), (Some("/cache/whisper.cpp"), strings(&["make"])));
    run.advance(WhisperOutcome::Succeeded);
    assert_eq!(run.stage, WhisperStage::Resample);
}

#[test]
fn a_step_that_fails_ends_the_run_with_its_diagnostics() {
    for failing in 1..=6 {
        let (mut run, _) = start();
        let outcomes = [
            WhisperOutcome::Absent,
            WhisperOutcome::Succeeded,
            WhisperOutcome::Absent,
            WhisperOutcome::Succeeded,
            WhisperOutcome::Absent,
            WhisperOutcome::Succeeded,
        ];
        let mut step = 0;
        for outcome in outcomes {
            step += 1;
            if step == failing {
                break;
            }
            run.advance(outcome);
        }
        let failure = if failing % 2 == 0 {
            WhisperOutcome::Exited("exit 1".to_string())
        } else {
            WhisperOutcome::Failed("exit 1".to_string())
        };
        let action = run.advance(failure);
        assert!(matches!(&action,
            WhisperAction::Finish(Err(TranscribeError::Failed(m))) if m == "exit 1"), "{}", failing);
        assert_eq!(run.stage, WhisperStage::Idle);
    }
}

#[test]
fn a_failed_resampling_ends_the_run() {
    let (mut run, _) = start();
    run.advance(WhisperOutcome::Present);
    run.advance(WhisperOutcome::Succeeded);
    run.advance(WhisperOutcome::Succeeded);
    run.advance(WhisperOutcome::Present);
    run.advance(WhisperOutcome::Present);
    assert_eq!(run.stage, WhisperStage::Resample);
    let action = run.advance(WhisperOutcome::Exited("ffmpeg: no".to_string()));
    assert!(matches!(&action, WhisperAction::Finish(Err(TranscribeError::Failed(m))) if m == "ffmpeg: no"));
}

#[test]
fn the_resampled_file_is_deleted_whatever_the_engine_does() {
    let mut run = to_run_stage();
    let action = run.advance(WhisperOutcome::Exited("whisper: bad model".to_string()));
    assert!(matches!(&action, WhisperAction::Remove(p) if p == "/tmp/0a1b.wav"));
    assert_eq!(run.failure.as_deref(), Some("whisper: bad model"));
    let action = run.advance(WhisperOutcome::Succeeded);
    assert!(matches!(&action,
        WhisperAction::Finish(Err(TranscribeError::Failed(m))) if m == "whisper: bad model"));

    let mut run = to_run_stage();
    let action = run.advance(WhisperOutcome::Failed("cannot run".to_string()));
    assert!(matches!(&action, WhisperAction::Remove(_)));
    let action = run.advance(WhisperOutcome::Succeeded);
    assert!(matches!(&action,
        WhisperAction::Finish(Err(TranscribeError::Failed(m))) if m == "cannot run"));
}

#[test]
fn a_file_that_cannot_be_deleted_fails_the_run() {
    let mut run = to_run_stage();
    run.advance(WhisperOutcome::Succeeded);
    let action = run.advance(WhisperOutcome::Failed("busy".to_string()));
    assert!(matches!(&action, WhisperAction::Finish(Err(TranscribeError::Failed(m))) if m == "busy"));
}

#[test]
fn an_answer_that_does_not_fit_the_step_ends_the_run() {
    let (mut run, _) = start();
    let action = run.advance(WhisperOutcome::Succeeded);
    assert!(matches!(action, WhisperAction::Finish(Err(TranscribeError::Unexpected))));
    let action = run.advance(WhisperOutcome::Failed("late".to_string()));
    assert!(matches!(action, WhisperAction::Finish(Err(TranscribeError::Unexpected))));

    let mut run = to_run_stage();
    let action = run.advance(WhisperOutcome::Present);
    assert!(matches!(action, WhisperAction::Finish(Err(TranscribeError::Unexpected))));
}

#[test]
fn every_occurrence_of_the_extension_leaves_the_output_name() {
    let (mut run, _) = run_whisper(
        WhisperTranscriber::new("v1".to_string(), "base".to_string(), "en".to_string()),
        "w/".to_string(),
        "t.wav".to_string(),
        "in.wav".to_string(),
        "/a.vtt/b.vtt".to_string(),
    );
    run.advance(WhisperOutcome::Present);
    run.advance(WhisperOutcome::Succeeded);
    run.advance(WhisperOutcome::Succeeded);
    run.advance(WhisperOutcome::Present);
    run.advance(WhisperOutcome::Present);
    let action = run.advance(WhisperOutcome::Succeeded);
    let (dir, args) = command(&action);
    assert_eq!(dir, Some("w/"));
    assert_eq!(args[4], "models/ggml-base.bin");
    assert_eq!(args[7], "/a/b");
}
