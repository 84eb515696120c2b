//! The local transcription engine: what has to be run, in which order,
//! to turn a waveform into a transcript.

use vstd::prelude::*;
use crate::entry::{join_path, joined};
use crate::text::{glue, from_chars, push_text, remove_all, texts, to_chars, without};
use crate::transcriber::TranscribeError;

verus! {

/// The local transcription engine at a given version, with the model and
/// the language that it is run with.
#[derive(Debug)]
pub struct WhisperTranscriber {
    pub version: String,
    pub model: String,
    pub language: String,
}

impl WhisperTranscriber {
    /// The engine at `version`, run with `model` on speech in `language`.
    pub fn new(version: String, model: String, language: String) -> (engine: WhisperTranscriber)
        ensures
            engine.version == version,
            engine.model == model,
            engine.language == language,
    {
        WhisperTranscriber { version, model, language }
    }
}

/// The steps of a run of the local engine, each one piece of outside
/// work. `Idle` is the state in which nothing is run.
#[derive(Clone, Copy, Debug, PartialEq, Eq, Structural)]
pub enum WhisperStage {
    Idle,
    /// Is the engine's source there?
    ProbeRepo,
    /// Fetch the engine's source.
    Clone,
    /// Bring the engine's source up to date.
    Fetch,
    /// Take the wanted version of the source.
    Checkout,
    /// Is the model there?
    ProbeModel,
    /// Fetch the model.
    DownloadModel,
    /// Is the engine built?
    ProbeBinary,
    /// Build the engine.
    Build,
    /// Bring the waveform to the rate and depth that the engine asks for.
    Resample,
    /// Run the engine.
    Run,
    /// Delete the resampled waveform.
    RemoveTemp,
}

/// What the outside work of a step came to.
#[derive(Debug)]
pub enum WhisperOutcome {
    /// The file is there.
    Present,
    /// The file is not there.
    Absent,
    /// The work was done.
    Succeeded,
    /// A tool ran and reported failure, with its diagnostic output.
    Exited(String),
    /// The work could not be done, with the reason.
    Failed(String),
}

/// The outside work that is to be done next.
#[derive(Debug)]
pub enum WhisperAction {
    /// Find out whether the file is there.
    Probe(String),
    /// Run the command, program first, in the directory where one is
    /// given.
    Run { dir: Option<String>, command: Vec<String> },
    /// Delete the file.
    Remove(String),
    /// Nothing: the run is over, with this result.
    Finish(Result<(), TranscribeError>),
}

/// One run of the local engine on one waveform.
#[derive(Debug)]
pub struct WhisperRun {
    pub stage: WhisperStage,
    pub engine: WhisperTranscriber,
    /// Where the engine is kept.
    pub whisper_dir: String,
    /// Where the resampled waveform is kept while the engine runs.
    pub temp_file: String,
    pub in_file: String,
    pub out_file: String,
    /// What the engine reported, where it failed.
    pub failure: Option<String>,
}

/// The place of a step in the order of a run.
pub open spec fn whisper_rank(stage: WhisperStage) -> nat {
    match stage {
        WhisperStage::ProbeRepo => 1,
        WhisperStage::Clone => 2,
        WhisperStage::Fetch => 3,
        WhisperStage::Checkout => 4,
        WhisperStage::ProbeModel => 5,
        WhisperStage::DownloadModel => 6,
        WhisperStage::ProbeBinary => 7,
        WhisperStage::Build => 8,
        WhisperStage::Resample => 9,
        WhisperStage::Run => 10,
        WhisperStage::RemoveTemp => 11,
        WhisperStage::Idle => 12,
    }
}

/// The step that is taken after `stage` came to `outcome`; `Idle` where
/// the run is over. What is there is not fetched or built again. Once the
/// waveform is resampled, the resampled file is deleted whatever becomes
/// of the engine's run.
pub open spec fn whisper_step(stage: WhisperStage, outcome: WhisperOutcome) -> WhisperStage {
    match stage {
        WhisperStage::Idle => WhisperStage::Idle,
        WhisperStage::ProbeRepo => match outcome {
            WhisperOutcome::Present => WhisperStage::Fetch,
            WhisperOutcome::Absent => WhisperStage::Clone,
            _ => WhisperStage::Idle,
        },
        WhisperStage::Clone => if outcome is Succeeded {
            WhisperStage::ProbeModel
        } else {
            WhisperStage::Idle
        },
        WhisperStage::Fetch => if outcome is Succeeded {
            WhisperStage::Checkout
        } else {
            WhisperStage::Idle
        },
        WhisperStage::Checkout => if outcome is Succeeded {
            WhisperStage::ProbeModel
        } else {
            WhisperStage::Idle
        },
        WhisperStage::ProbeModel => match outcome {
            WhisperOutcome::Present => WhisperStage::ProbeBinary,
            WhisperOutcome::Absent => WhisperStage::DownloadModel,
            _ => WhisperStage::Idle,
        },
        WhisperStage::DownloadModel => if outcome is Succeeded {
            WhisperStage::ProbeBinary
        } else {
            WhisperStage::Idle
        },
        WhisperStage::ProbeBinary => match outcome {
            WhisperOutcome::Present => WhisperStage::Resample,
            WhisperOutcome::Absent => WhisperStage::Build,
            _ => WhisperStage::Idle,
        },
        WhisperStage::Build => if outcome is Succeeded {
            WhisperStage::Resample
        } else {
            WhisperStage::Idle
        },
        WhisperStage::Resample => if outcome is Succeeded {
            WhisperStage::Run
        } else {
            WhisperStage::Idle
        },
        WhisperStage::Run => match outcome {
            WhisperOutcome::Succeeded => WhisperStage::RemoveTemp,
            WhisperOutcome::Exited(_) => WhisperStage::RemoveTemp,
            WhisperOutcome::Failed(_) => WhisperStage::RemoveTemp,
            _ => WhisperStage::Idle,
        },
        WhisperStage::RemoveTemp => WhisperStage::Idle,
    }
}

/// What the engine reported where its run failed: kept until the
/// resampled file is deleted.
pub open spec fn failure_after(
    stage: WhisperStage,
    failure: Option<String>,
    outcome: WhisperOutcome,
) -> Option<String> {
    if stage == WhisperStage::Run {
        match outcome {
            WhisperOutcome::Exited(text) => Some(text),
            WhisperOutcome::Failed(text) => Some(text),
            _ => None,
        }
    } else {
        failure
    }
}

/// The result with which a run is over at `stage` on `outcome`. The run
/// succeeds where the engine ran and the resampled file is deleted; a
/// step that failed gives its diagnostics as the error, and so does the
/// engine where it failed and the file is deleted.
pub open spec fn whisper_result(
    stage: WhisperStage,
    failure: Option<String>,
    outcome: WhisperOutcome,
) -> Result<(), TranscribeError> {
    match outcome {
        WhisperOutcome::Exited(text) => if stage == WhisperStage::Idle {
            Err(TranscribeError::Unexpected)
        } else {
            Err(TranscribeError::Failed(text))
        },
        WhisperOutcome::Failed(text) => if stage == WhisperStage::Idle {
            Err(TranscribeError::Unexpected)
        } else {
            Err(TranscribeError::Failed(text))
        },
        WhisperOutcome::Succeeded => if stage == WhisperStage::RemoveTemp {
            match failure {
                Some(text) => Err(TranscribeError::Failed(text)),
                None => Ok(()),
            }
        } else {
            Err(TranscribeError::Unexpected)
        },
        _ => Err(TranscribeError::Unexpected),
    }
}

/// The name of the model's file inside the engine's directory.
pub open spec fn model_file(model: Seq<char>) -> Seq<char> {
    "models/ggml-"@ + model + ".bin"@
}

/// The command that fetches the engine's source at `version` into `dir`.
pub open spec fn clone_arguments(version: Seq<char>, dir: Seq<char>) -> Seq<Seq<char>> {
    seq!["git"@, "clone"@, "git@github.com:ggerganov/whisper.cpp.git"@, "-b"@, version, dir]
}

/// The command that brings `input` to 16 kHz and 16 bit in `temp`.
pub open spec fn resample_arguments(input: Seq<char>, temp: Seq<char>) -> Seq<Seq<char>> {
    seq!["ffmpeg"@, "-i"@, input, "-ar"@, "16000"@, "-acodec"@, "pcm_s16le"@, temp]
}

/// The command that runs the engine on `temp` and has it write the
/// transcript `out_file`, whose name the engine completes itself.
pub open spec fn engine_arguments(
    language: Seq<char>,
    model: Seq<char>,
    out_file: Seq<char>,
    temp: Seq<char>,
) -> Seq<Seq<char>> {
    seq![
        "./main"@,
        "--language"@,
        language,
        "-m"@,
        model_file(model),
        "-ovtt"@,
        "-of"@,
        without(out_file, ".vtt"@),
        "-f"@,
        temp,
    ]
}

/// Whether `action` is the work of the step that `run` is at.
pub open spec fn whisper_action_fits(run: WhisperRun, action: WhisperAction) -> bool {
    let dir = run.whisper_dir@;
    match run.stage {
        WhisperStage::Idle => action is Finish,
        WhisperStage::ProbeRepo => action matches WhisperAction::Probe(path) && path@ == joined(
            dir,
            ".git"@,
        ),
        WhisperStage::Clone => action matches WhisperAction::Run { dir: at, command } && at is None
            && texts(command@) == clone_arguments(run.engine.version@, dir),
        WhisperStage::Fetch => action matches WhisperAction::Run { dir: at, command } && at
            matches Some(d) && d@ == dir && texts(command@) == seq!["git"@, "fetch"@],
        WhisperStage::Checkout => action matches WhisperAction::Run { dir: at, command } && at
            matches Some(d) && d@ == dir && texts(command@) == seq![
            "git"@,
            "checkout"@,
            run.engine.version@,
        ],
        WhisperStage::ProbeModel => action matches WhisperAction::Probe(path) && path@ == joined(
            dir,
            model_file(run.engine.model@),
        ),
        WhisperStage::DownloadModel => action matches WhisperAction::Run { dir: at, command } && at
            matches Some(d) && d@ == dir && texts(command@) == seq![
            "./models/download-ggml-model.sh"@,
            run.engine.model@,
        ],
        WhisperStage::ProbeBinary => action matches WhisperAction::Probe(path) && path@ == joined(
            dir,
            "main"@,
        ),
        WhisperStage::Build => action matches WhisperAction::Run { dir: at, command } && at
            matches Some(d) && d@ == dir && texts(command@) == seq!["make"@],
        WhisperStage::Resample => action matches WhisperAction::Run { dir: at, command } && at
            is None && texts(command@) == resample_arguments(run.in_file@, run.temp_file@),
        WhisperStage::Run => action matches WhisperAction::Run { dir: at, command } && at
            matches Some(d) && d@ == dir && texts(command@) == engine_arguments(
            run.engine.language@,
            run.engine.model@,
            run.out_file@,
            run.temp_file@,
        ),
        WhisperStage::RemoveTemp => action matches WhisperAction::Remove(path) && path@
            == run.temp_file@,
    }
}

/// The name of the model's file inside the engine's directory.
fn model_file_name(model: &str) -> (name: String)
    ensures
        name@ == model_file(model@),
{
    let head = glue("models/ggml-", model);
    glue(head.as_str(), ".bin")
}

/// `path` without `.vtt`.
fn transcript_stem(path: &str) -> (stem: String)
    ensures
        stem@ == without(path@, ".vtt"@),
{
    let chars = to_chars(path);
    let pat = to_chars(".vtt");
    let stem = remove_all(&chars, &pat);
    from_chars(&stem)
}

impl WhisperRun {
    /// Goes to `stage` and tells its work.
    fn begin(&mut self, stage: WhisperStage) -> (action: WhisperAction)
        requires
            stage != WhisperStage::Idle,
        ensures
            final(self).stage == stage,
            final(self).engine == old(self).engine,
            final(self).whisper_dir == old(self).whisper_dir,
            final(self).temp_file == old(self).temp_file,
            final(self).in_file == old(self).in_file,
            final(self).out_file == old(self).out_file,
            final(self).failure == old(self).failure,
            whisper_action_fits(*final(self), action),
    {
        self.stage = stage;
        let mut command: Vec<String> = Vec::new();
        match stage {
            WhisperStage::ProbeRepo => WhisperAction::Probe(
                join_path(self.whisper_dir.as_str(), ".git"),
            ),
            WhisperStage::Clone => {
                push_text(&mut command, "git");
                push_text(&mut command, "clone");
                push_text(&mut command, "git@github.com:ggerganov/whisper.cpp.git");
                push_text(&mut command, "-b");
                push_text(&mut command, self.engine.version.as_str());
                push_text(&mut command, self.whisper_dir.as_str());
                proof {
                    assert(texts(command@) =~= clone_arguments(
                        self.engine.version@,
                        self.whisper_dir@,
                    ));
                }
                WhisperAction::Run { dir: None, command }
            },
            WhisperStage::Fetch => {
                push_text(&mut command, "git");
                push_text(&mut command, "fetch");
                proof {
                    assert(texts(command@) =~= seq!["git"@, "fetch"@]);
                }
                WhisperAction::Run { dir: Some(self.whisper_dir.clone()), command }
            },
            WhisperStage::Checkout => {
                push_text(&mut command, "git");
                push_text(&mut command, "checkout");
                push_text(&mut command, self.engine.version.as_str());
                proof {
                    assert(texts(command@) =~= seq!["git"@, "checkout"@, self.engine.version@]);
                }
                WhisperAction::Run { dir: Some(self.whisper_dir.clone()), command }
            },
            WhisperStage::ProbeModel => {
                let name = model_file_name(self.engine.model.as_str());
                WhisperAction::Probe(join_path(self.whisper_dir.as_str(), name.as_str()))
            },
            WhisperStage::DownloadModel => {
                push_text(&mut command, "./models/download-ggml-model.sh");
                push_text(&mut command, self.engine.model.as_str());
                proof {
                    assert(texts(command@) =~= seq![
                        "./models/download-ggml-model.sh"@,
                        self.engine.model@,
                    ]);
                }
                WhisperAction::Run { dir: Some(self.whisper_dir.clone()), command }
            },
            WhisperStage::ProbeBinary => WhisperAction::Probe(
                join_path(self.whisper_dir.as_str(), "main"),
            ),
            WhisperStage::Build => {
                push_text(&mut command, "make");
                proof {
                    assert(texts(command@) =~= seq!["make"@]);
                }
                WhisperAction::Run { dir: Some(self.whisper_dir.clone()), command }
            },
            WhisperStage::Resample => {
                push_text(&mut command, "ffmpeg");
                push_text(&mut command, "-i");
                push_text(&mut command, self.in_file.as_str());
                push_text(&mut command, "-ar");
                push_text(&mut command, "16000");
                push_text(&mut command, "-acodec");
                push_text(&mut command, "pcm_s16le");
                push_text(&mut command, self.temp_file.as_str());
                proof {
                    assert(texts(command@) =~= resample_arguments(
                        self.in_file@,
                        self.temp_file@,
                    ));
                }
                WhisperAction::Run { dir: None, command }
            },
            WhisperStage::Run => {
                let model = model_file_name(self.engine.model.as_str());
                let stem = transcript_stem(self.out_file.as_str());
                push_text(&mut command, "./main");
                push_text(&mut command, "--language");
                push_text(&mut command, self.engine.language.as_str());
                push_text(&mut command, "-m");
                push_text(&mut command, model.as_str());
                push_text(&mut command, "-ovtt");
                push_text(&mut command, "-of");
                push_text(&mut command, stem.as_str());
                push_text(&mut command, "-f");
                push_text(&mut command, self.temp_file.as_str());
                proof {
                    assert(texts(command@) =~= engine_arguments(
                        self.engine.language@,
                        self.engine.model@,
                        self.out_file@,
                        self.temp_file@,
                    ));
                }
                WhisperAction::Run { dir: Some(self.whisper_dir.clone()), command }
            },
            _ => WhisperAction::Remove(self.temp_file.clone()),
        }
    }

    /// Takes note of what the work of the current step came to, and tells
    /// the next piece of work, or that the run is over and how.
    pub fn advance(&mut self, outcome: WhisperOutcome) -> (action: WhisperAction)
        ensures
            final(self).stage == whisper_step(old(self).stage, outcome),
            final(self).engine == old(self).engine,
            final(self).whisper_dir == old(self).whisper_dir,
            final(self).temp_file == old(self).temp_file,
            final(self).in_file == old(self).in_file,
            final(self).out_file == old(self).out_file,
            final(self).stage != WhisperStage::Idle ==> final(self).failure == failure_after(
                old(self).stage,
                old(self).failure,
                outcome,
            ),
            whisper_action_fits(*final(self), action),
            final(self).stage == WhisperStage::Idle ==> action == WhisperAction::Finish(
                whisper_result(old(self).stage, old(self).failure, outcome),
            ),
    {
        let stage = self.stage;
        let next = match stage {
            WhisperStage::Idle => WhisperStage::Idle,
            WhisperStage::ProbeRepo => match &outcome {
                WhisperOutcome::Present => WhisperStage::Fetch,
                WhisperOutcome::Absent => WhisperStage::Clone,
                _ => WhisperStage::Idle,
            },
            WhisperStage::Clone => match &outcome {
                WhisperOutcome::Succeeded => WhisperStage::ProbeModel,
                _ => WhisperStage::Idle,
            },
            WhisperStage::Fetch => match &outcome {
                WhisperOutcome::Succeeded => WhisperStage::Checkout,
                _ => WhisperStage::Idle,
            },
            WhisperStage::Checkout => match &outcome {
                WhisperOutcome::Succeeded => WhisperStage::ProbeModel,
                _ => WhisperStage::Idle,
            },
            WhisperStage::ProbeModel => match &outcome {
                WhisperOutcome::Present => WhisperStage::ProbeBinary,
                WhisperOutcome::Absent => WhisperStage::DownloadModel,
                _ => WhisperStage::Idle,
            },
            WhisperStage::DownloadModel => match &outcome {
                WhisperOutcome::Succeeded => WhisperStage::ProbeBinary,
                _ => WhisperStage::Idle,
            },
            WhisperStage::ProbeBinary => match &outcome {
                WhisperOutcome::Present => WhisperStage::Resample,
                WhisperOutcome::Absent => WhisperStage::Build,
                _ => WhisperStage::Idle,
            },
            WhisperStage::Build => match &outcome {
                WhisperOutcome::Succeeded => WhisperStage::Resample,
                _ => WhisperStage::Idle,
            },
            WhisperStage::Resample => match &outcome {
                WhisperOutcome::Succeeded => WhisperStage::Run,
                _ => WhisperStage::Idle,
            },
            WhisperStage::Run => match &outcome {
                WhisperOutcome::Succeeded => WhisperStage::RemoveTemp,
                WhisperOutcome::Exited(_) => WhisperStage::RemoveTemp,
                WhisperOutcome::Failed(_) => WhisperStage::RemoveTemp,
                _ => WhisperStage::Idle,
            },
            WhisperStage::RemoveTemp => WhisperStage::Idle,
        };
        if next != WhisperStage::Idle {
            if stage == WhisperStage::Run {
                self.failure = match outcome {
                    WhisperOutcome::Exited(text) => Some(text),
                    WhisperOutcome::Failed(text) => Some(text),
                    _ => None,
                };
            }
            self.begin(next)
        } else {
            self.stage = WhisperStage::Idle;
            let mut failure: Option<String> = None;
            core::mem::swap(&mut failure, &mut self.failure);
            let result = match outcome {
                WhisperOutcome::Exited(text) => if stage != WhisperStage::Idle {
                    Err(TranscribeError::Failed(text))
                } else {
                    Err(TranscribeError::Unexpected)
                },
                WhisperOutcome::Failed(text) => if stage != WhisperStage::Idle {
                    Err(TranscribeError::Failed(text))
                } else {
                    Err(TranscribeError::Unexpected)
                },
                WhisperOutcome::Succeeded => if stage == WhisperStage::RemoveTemp {
                    match failure {
                        Some(text) => Err(TranscribeError::Failed(text)),
                        None => Ok(()),
                    }
                } else {
                    Err(TranscribeError::Unexpected)
                },
                _ => Err(TranscribeError::Unexpected),
            };
            WhisperAction::Finish(result)
        }
    }
}

/// Begins a run of `engine`, kept in `whisper_dir`, that transcribes
/// `in_file` into `out_file` and keeps the resampled waveform in
/// `temp_file` meanwhile. The first piece of work is to find out whether
/// the engine's source is there.
pub fn run_whisper(
    engine: WhisperTranscriber,
    whisper_dir: String,
    temp_file: String,
    in_file: String,
    out_file: String,
) -> (started: (WhisperRun, WhisperAction))
    ensures
        started.0.stage == WhisperStage::ProbeRepo,
        started.0.engine == engine,
        started.0.whisper_dir == whisper_dir,
        started.0.temp_file == temp_file,
        started.0.in_file == in_file,
        started.0.out_file == out_file,
        started.0.failure is None,
        whisper_action_fits(started.0, started.1),
{
    let mut run = WhisperRun {
        stage: WhisperStage::Idle,
        engine,
        whisper_dir,
        temp_file,
        in_file,
        out_file,
        failure: None,
    };
    let action = run.begin(WhisperStage::ProbeRepo);
    (run, action)
}

/// The steps of a run are taken in a fixed order and none twice, so
/// every run is over after at most eleven steps.
pub proof fn lemma_whisper_in_order(stage: WhisperStage, outcome: WhisperOutcome)
    requires
        stage != WhisperStage::Idle,
    ensures
        whisper_rank(whisper_step(stage, outcome)) > whisper_rank(stage),
{
}

/// Once the waveform is resampled, the run is not over before the
/// resampled file is deleted, whatever the engine's run came to; and the
/// run succeeds only where the engine did.
pub proof fn lemma_temp_removed(outcome: WhisperOutcome, failure: Option<String>, removal: WhisperOutcome)
    requires
        outcome is Succeeded || outcome is Exited || outcome is Failed,
    ensures
        whisper_step(WhisperStage::Run, outcome) == WhisperStage::RemoveTemp,
        whisper_result(
            WhisperStage::RemoveTemp,
            failure_after(WhisperStage::Run, failure, outcome),
            removal,
        ) is Ok <==> (outcome is Succeeded && removal is Succeeded),
{
}

} // verus!
