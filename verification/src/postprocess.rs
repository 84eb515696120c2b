//! Post-processing of one session: merge, encode, transcribe, summarize,
//! clean up. The work itself is done outside; what is decided here is
//! which step comes next, with which arguments, and how a session ends.

use vstd::prelude::*;
use crate::config::{MeetNoteConfig, TranscriberType};
use crate::entry::{file_path, joined, Entry};
use crate::mp3::{convert_to_mp3, encode_arguments};
use crate::text::{push_text, same_text, texts};
use crate::transcriber::TranscribeError;
use crate::whisper_cpp::WhisperTranscriber;

verus! {

/// A request to post-process a session.
#[derive(Debug)]
pub struct PostProcessEvent {
    pub command: String,
    pub entry: Entry,
}

/// What a request asks for.
#[derive(Clone, Copy, Debug, PartialEq, Eq, Structural)]
pub enum PostProcessCommand {
    /// The whole pipeline.
    All,
    /// The summary alone, from the transcript that is there.
    RegenerateSummary,
    /// Nothing that is known.
    Unknown,
}

/// What the command word of a request asks for.
pub open spec fn command_of(word: Seq<char>) -> PostProcessCommand {
    if word == "ALL"@ {
        PostProcessCommand::All
    } else if word == "REGENERATE_SUMMARY"@ {
        PostProcessCommand::RegenerateSummary
    } else {
        PostProcessCommand::Unknown
    }
}

impl PostProcessEvent {
    /// What the request asks for.
    pub fn parse_command(&self) -> (command: PostProcessCommand)
        ensures
            command == command_of(self.command@),
    {
        if same_text(self.command.as_str(), "ALL") {
            PostProcessCommand::All
        } else if same_text(self.command.as_str(), "REGENERATE_SUMMARY") {
            PostProcessCommand::RegenerateSummary
        } else {
            PostProcessCommand::Unknown
        }
    }
}

/// What can be observed of post-processing: the session in work, the
/// step it is at, and the sessions finished since the last query.
#[derive(Debug)]
pub struct PostProcessStatus {
    pub path: String,
    pub message: String,
    pub processed_paths: Vec<String>,
}

impl PostProcessStatus {
    /// The status at process start: nothing in work, nothing finished.
    pub fn new() -> (status: PostProcessStatus)
        ensures
            status.path@.len() == 0,
            status.message@.len() == 0,
            status.processed_paths@.len() == 0,
    {
        PostProcessStatus { path: String::new(), message: String::new(), processed_paths: Vec::new() }
    }

    /// Names the session in work.
    pub fn set_path(&mut self, path: String)
        ensures
            final(self).path == path,
            final(self).message == old(self).message,
            final(self).processed_paths == old(self).processed_paths,
    {
        self.path = path;
    }

    /// Names the step in work.
    pub fn set_message(&mut self, message: &str)
        ensures
            final(self).message@ == message@,
            final(self).path == old(self).path,
            final(self).processed_paths == old(self).processed_paths,
    {
        let mut owned = String::new();
        owned.append(message);
        proof {
            assert(owned@ =~= message@);
        }
        self.message = owned;
    }

    /// Nothing is in work any more.
    pub fn clear(&mut self)
        ensures
            final(self).path@.len() == 0,
            final(self).message@.len() == 0,
            final(self).processed_paths == old(self).processed_paths,
    {
        self.message = String::new();
        self.path = String::new();
    }

    /// Records a session as finished.
    pub fn push_processed(&mut self, path: String)
        ensures
            final(self).processed_paths@ == old(self).processed_paths@.push(path),
            final(self).path == old(self).path,
            final(self).message == old(self).message,
    {
        self.processed_paths.push(path);
    }
}

/// The status as it stands, for a query. The query consumes the list of
/// finished sessions: what it returns is no longer in `state` afterwards.
pub fn postprocess_status(state: &mut PostProcessStatus) -> (snapshot: PostProcessStatus)
    ensures
        snapshot.path == old(state).path,
        snapshot.message == old(state).message,
        snapshot.processed_paths == old(state).processed_paths,
        final(state).path == old(state).path,
        final(state).message == old(state).message,
        final(state).processed_paths@.len() == 0,
{
    let mut processed_paths: Vec<String> = Vec::new();
    core::mem::swap(&mut processed_paths, &mut state.processed_paths);
    PostProcessStatus { path: state.path.clone(), message: state.message.clone(), processed_paths }
}

/// Why the raw capture of a session could not be merged.
#[derive(Debug)]
pub enum MergeError {
    /// No raw fragment was found: nothing was captured.
    NoRawFiles,
    /// The raw fragments could not be listed.
    ListFailed(String),
    /// The raw fragments could not be made into one waveform.
    ConcatFailed(String),
    /// The tool that normalizes the microphone track could not be run.
    NormalizeFailed(String),
    /// The two waveforms could not be mixed.
    MixFailed(String),
}

/// Why the merged waveform could not be encoded.
#[derive(Debug)]
pub struct EncodeError {
    pub diagnostics: String,
}

/// Why no summary was made.
#[derive(Debug)]
pub enum SummarizeError {
    /// The transcript is absent or is no text.
    UnreadableTranscript(String),
    /// The strategy failed, with what it reported.
    Failed(String),
    /// The summary could not be written.
    WriteFailed(String),
}

/// A file that could not be deleted.
#[derive(Debug)]
pub struct CleanupError {
    pub path: String,
    pub diagnostics: String,
}

/// Why post-processing of a session was abandoned.
#[derive(Debug)]
pub enum PostProcessError {
    Merge(MergeError),
    Encode(EncodeError),
    Transcribe(TranscribeError),
    Summarize(SummarizeError),
    /// What was reported does not answer the step that was asked for, or
    /// nothing was asked for.
    Unexpected,
}

/// The transcriber that a configuration asks for, with what it needs.
#[derive(Debug)]
pub enum TranscriberChoice {
    /// The local engine.
    WhisperCpp(WhisperTranscriber),
    /// The remote service, with its credential and the language.
    OpenAI { token: String, language: String },
}

/// The format of a raw fragment, as the mixing tool is told it:
/// headerless, 48 kHz, 32-bit floating point, one channel, little endian.
pub open spec fn raw_format() -> Seq<Seq<char>> {
    seq![
        "-t"@,
        "raw"@,
        "-r"@,
        "48000"@,
        "-e"@,
        "floating-point"@,
        "-b"@,
        "32"@,
        "-c"@,
        "1"@,
        "--endian"@,
        "little"@,
    ]
}

/// The raw fragments as inputs of the mixing tool, each behind its
/// format.
pub open spec fn raw_inputs(files: Seq<Seq<char>>) -> Seq<Seq<char>>
    decreases files.len(),
{
    if files.len() == 0 {
        Seq::empty()
    } else {
        raw_inputs(files.drop_last()) + raw_format() + seq![files.last()]
    }
}

/// The command that makes the raw fragments into one normalized waveform
/// `out`.
pub open spec fn concat_arguments(files: Seq<Seq<char>>, out: Seq<char>) -> Seq<Seq<char>> {
    seq!["sox"@] + raw_inputs(files) + seq![out, "norm"@]
}

/// The command that normalizes the microphone track `mic` into `out`.
pub open spec fn normalize_arguments(mic: Seq<char>, out: Seq<char>) -> Seq<Seq<char>> {
    seq!["sox"@, mic, out, "norm"@]
}

/// The command that mixes the two normalized waveforms into `out`.
pub open spec fn mix_arguments(mic: Seq<char>, screen: Seq<char>, out: Seq<char>) -> Seq<
    Seq<char>,
> {
    seq!["sox"@, "-m"@, mic, screen, out]
}

/// The files that are deleted once a session has its transcript and its
/// summary: the merged waveform, the microphone track and every raw
/// fragment.
pub open spec fn cleanup_targets(
    dir: Seq<char>,
    basename: Seq<char>,
    raw_files: Seq<Seq<char>>,
) -> Seq<Seq<char>> {
    seq![file_path(dir, basename, "wav"@), file_path(dir, basename, "mic.wav"@)] + raw_files
}

/// The command, program first, that makes the raw fragments into one
/// normalized waveform `out`. Without a fragment there is nothing to
/// merge.
pub fn concat_raw_command(raw_files: &Vec<String>, out: &str) -> (command: Result<
    Vec<String>,
    MergeError,
>)
    ensures
        match command {
            Ok(args) => raw_files.len() > 0 && texts(args@) == concat_arguments(
                texts(raw_files@),
                out@,
            ),
            Err(MergeError::NoRawFiles) => raw_files.len() == 0,
            Err(_) => false,
        },
{
    if raw_files.len() == 0 {
        return Err(MergeError::NoRawFiles);
    }
    let ghost files = texts(raw_files@);
    let mut args: Vec<String> = Vec::new();
    push_text(&mut args, "sox");
    let mut i: usize = 0;
    proof {
        assert(files.take(0) =~= Seq::<Seq<char>>::empty());
        assert(texts(args@) =~= seq!["sox"@] + raw_inputs(files.take(0)));
    }
    while i < raw_files.len()
        invariant
            i <= raw_files.len(),
            files == texts(raw_files@),
            texts(args@) == seq!["sox"@] + raw_inputs(files.take(i as int)),
        decreases raw_files.len() - i,
    {
        let ghost before = texts(args@);
        push_text(&mut args, "-t");
        push_text(&mut args, "raw");
        push_text(&mut args, "-r");
        push_text(&mut args, "48000");
        push_text(&mut args, "-e");
        push_text(&mut args, "floating-point");
        push_text(&mut args, "-b");
        push_text(&mut args, "32");
        push_text(&mut args, "-c");
        push_text(&mut args, "1");
        push_text(&mut args, "--endian");
        push_text(&mut args, "little");
        push_text(&mut args, raw_files[i].as_str());
        proof {
            let prefix = files.take(i + 1);
            assert(prefix.drop_last() =~= files.take(i as int));
            assert(prefix.last() == raw_files@[i as int]@);
            assert(texts(args@) =~= before + raw_format() + seq![raw_files@[i as int]@]);
            assert(texts(args@) =~= seq!["sox"@] + raw_inputs(prefix));
        }
        i += 1;
    }
    let ghost before = texts(args@);
    push_text(&mut args, out);
    push_text(&mut args, "norm");
    proof {
        assert(files.take(raw_files.len() as int) =~= files);
        assert(texts(args@) =~= before + seq![out@, "norm"@]);
    }
    Ok(args)
}

/// The command, program first, that normalizes the microphone track
/// `mic` into `out`.
pub fn normalize_mic_command(mic: &str, out: &str) -> (command: Vec<String>)
    ensures
        texts(command@) == normalize_arguments(mic@, out@),
{
    let mut command: Vec<String> = Vec::new();
    push_text(&mut command, "sox");
    push_text(&mut command, mic);
    push_text(&mut command, out);
    push_text(&mut command, "norm");
    proof {
        assert(texts(command@) =~= normalize_arguments(mic@, out@));
    }
    command
}

/// The command, program first, that mixes the normalized microphone
/// track `mic` and the normalized system audio `screen` into `out`.
pub fn mix_command(mic: &str, screen: &str, out: &str) -> (command: Vec<String>)
    ensures
        texts(command@) == mix_arguments(mic@, screen@, out@),
{
    let mut command: Vec<String> = Vec::new();
    push_text(&mut command, "sox");
    push_text(&mut command, "-m");
    push_text(&mut command, mic);
    push_text(&mut command, screen);
    push_text(&mut command, out);
    proof {
        assert(texts(command@) =~= mix_arguments(mic@, screen@, out@));
    }
    command
}

/// The five phases of post-processing.
#[derive(Clone, Copy, Debug, PartialEq, Eq, Structural)]
pub enum Phase {
    Merge,
    Encode,
    Transcribe,
    Summarize,
    Cleanup,
}

/// The steps of post-processing, each one piece of outside work. `Idle`
/// is the state in which no session is in work.
#[derive(Clone, Copy, Debug, PartialEq, Eq, Structural)]
pub enum Stage {
    Idle,
    ListRaw,
    ConcatRaw,
    NormalizeMic,
    Mix,
    Encode,
    Transcribe,
    ReadTranscript,
    Summarize,
    WriteSummary,
    Cleanup,
}

/// What the outside work of a step came to.
#[derive(Debug)]
pub enum Outcome {
    /// The raw fragments that were found.
    Listed(Vec<String>),
    /// The work was done.
    Succeeded,
    /// A tool ran and reported failure, with its diagnostic output.
    Exited(String),
    /// The text that was read or made.
    Text(String),
    /// The files were deleted, but for those listed.
    Cleaned(Vec<CleanupError>),
    /// The work could not be done, with the reason.
    Failed(String),
}

/// The outside work that is to be done next.
#[derive(Debug)]
pub enum Action {
    /// List the files that match the pattern.
    ListRawFiles(String),
    /// Run the command, program first.
    Run(Vec<String>),
    /// Transcribe the waveform `wav` into `vtt` with the chosen strategy.
    Transcribe { wav: String, vtt: String },
    /// Read the file as text.
    ReadTranscript(String),
    /// Summarize the text with the chosen strategy.
    Summarize(String),
    /// Write the text to the file.
    WriteSummary { path: String, text: String },
    /// Delete the files, each whatever becomes of the others.
    Remove(Vec<String>),
    /// Nothing: the session is finished, with this result. A success
    /// lists the files that cleanup could not delete.
    Finish(Result<Vec<CleanupError>, PostProcessError>),
}

/// The post-processor: the session in work and the step it is at.
#[derive(Debug)]
pub struct PostProcessor {
    pub stage: Stage,
    /// Whether only the summary is made anew.
    pub summary_only: bool,
    pub entry: Entry,
    /// Where the normalized system audio is kept until it is mixed.
    pub screen_tmp: String,
    /// Where the normalized microphone track is kept until it is mixed.
    pub mic_tmp: String,
    /// The raw fragments of the session, once they are listed.
    pub raw_files: Vec<String>,
    /// The transcriber, where the configuration names a usable one.
    pub transcriber: Option<TranscriberChoice>,
}

/// The phase to which a step belongs.
pub open spec fn phase_of(stage: Stage) -> Option<Phase> {
    match stage {
        Stage::Idle => None,
        Stage::ListRaw => Some(Phase::Merge),
        Stage::ConcatRaw => Some(Phase::Merge),
        Stage::NormalizeMic => Some(Phase::Merge),
        Stage::Mix => Some(Phase::Merge),
        Stage::Encode => Some(Phase::Encode),
        Stage::Transcribe => Some(Phase::Transcribe),
        Stage::ReadTranscript => Some(Phase::Summarize),
        Stage::Summarize => Some(Phase::Summarize),
        Stage::WriteSummary => Some(Phase::Summarize),
        Stage::Cleanup => Some(Phase::Cleanup),
    }
}

/// The place of a step in the order of the pipeline.
pub open spec fn stage_rank(stage: Stage) -> nat {
    match stage {
        Stage::ListRaw => 1,
        Stage::ConcatRaw => 2,
        Stage::NormalizeMic => 3,
        Stage::Mix => 4,
        Stage::Encode => 5,
        Stage::Transcribe => 6,
        Stage::ReadTranscript => 7,
        Stage::Summarize => 8,
        Stage::WriteSummary => 9,
        Stage::Cleanup => 10,
        Stage::Idle => 11,
    }
}

/// The place of a phase in the order of the pipeline.
pub open spec fn phase_rank(phase: Phase) -> nat {
    match phase {
        Phase::Merge => 1,
        Phase::Encode => 2,
        Phase::Transcribe => 3,
        Phase::Summarize => 4,
        Phase::Cleanup => 5,
    }
}

/// What is published as the step in work.
pub open spec fn stage_label(stage: Stage, summary_only: bool) -> Seq<char> {
    match phase_of(stage) {
        None => Seq::empty(),
        Some(Phase::Merge) => "Merging wave files"@,
        Some(Phase::Encode) => "Convert to MP3"@,
        Some(Phase::Transcribe) => "Transcribing"@,
        Some(Phase::Summarize) => if summary_only {
            "Summarizing again"@
        } else {
            "Summarizing"@
        },
        Some(Phase::Cleanup) => "Cleanup"@,
    }
}

/// Whether the outside work of `stage` is done with `outcome`, so that
/// the pipeline goes on. A tool that normalizes the microphone track and
/// reports failure does not stop it.
pub open spec fn goes_on(stage: Stage, outcome: Outcome) -> bool {
    match stage {
        Stage::Idle => false,
        Stage::ListRaw => outcome matches Outcome::Listed(files) && files.len() > 0,
        Stage::ConcatRaw => outcome is Succeeded,
        Stage::NormalizeMic => outcome is Succeeded || outcome is Exited,
        Stage::Mix => outcome is Succeeded,
        Stage::Encode => outcome is Succeeded,
        Stage::Transcribe => outcome is Succeeded,
        Stage::ReadTranscript => outcome is Text,
        Stage::Summarize => outcome is Text,
        Stage::WriteSummary => outcome is Succeeded,
        Stage::Cleanup => outcome is Cleaned,
    }
}

/// The step that follows `stage` in the pipeline.
pub open spec fn following(stage: Stage) -> Stage {
    match stage {
        Stage::Idle => Stage::Idle,
        Stage::ListRaw => Stage::ConcatRaw,
        Stage::ConcatRaw => Stage::NormalizeMic,
        Stage::NormalizeMic => Stage::Mix,
        Stage::Mix => Stage::Encode,
        Stage::Encode => Stage::Transcribe,
        Stage::Transcribe => Stage::ReadTranscript,
        Stage::ReadTranscript => Stage::Summarize,
        Stage::Summarize => Stage::WriteSummary,
        Stage::WriteSummary => Stage::Cleanup,
        Stage::Cleanup => Stage::Idle,
    }
}

/// The step that is taken after `stage` came to `outcome`; `Idle` where
/// the session is finished. A step whose work failed is the last. After
/// encoding, a session without a usable transcriber is finished, and so
/// is one that only wanted its summary, once the summary is written.
pub open spec fn step(
    stage: Stage,
    summary_only: bool,
    has_transcriber: bool,
    outcome: Outcome,
) -> Stage {
    if !goes_on(stage, outcome) {
        Stage::Idle
    } else if stage == Stage::Encode && !has_transcriber {
        Stage::Idle
    } else if stage == Stage::WriteSummary && summary_only {
        Stage::Idle
    } else {
        following(stage)
    }
}

/// The diagnostic text that comes with a failure.
pub open spec fn diagnostics_of(outcome: Outcome) -> Option<String> {
    match outcome {
        Outcome::Exited(text) => Some(text),
        Outcome::Failed(text) => Some(text),
        _ => None,
    }
}

/// The error with which a session is abandoned at `stage` on `outcome`.
pub open spec fn error_of(stage: Stage, outcome: Outcome) -> PostProcessError {
    match stage {
        Stage::Idle => PostProcessError::Unexpected,
        Stage::ListRaw => match outcome {
            Outcome::Listed(_) => PostProcessError::Merge(MergeError::NoRawFiles),
            _ => match diagnostics_of(outcome) {
                Some(text) => PostProcessError::Merge(MergeError::ListFailed(text)),
                None => PostProcessError::Unexpected,
            },
        },
        Stage::ConcatRaw => match diagnostics_of(outcome) {
            Some(text) => PostProcessError::Merge(MergeError::ConcatFailed(text)),
            None => PostProcessError::Unexpected,
        },
        Stage::NormalizeMic => match diagnostics_of(outcome) {
            Some(text) => PostProcessError::Merge(MergeError::NormalizeFailed(text)),
            None => PostProcessError::Unexpected,
        },
        Stage::Mix => match diagnostics_of(outcome) {
            Some(text) => PostProcessError::Merge(MergeError::MixFailed(text)),
            None => PostProcessError::Unexpected,
        },
        Stage::Encode => match outcome {
            Outcome::Succeeded => PostProcessError::Transcribe(
                TranscribeError::MissingCredential,
            ),
            _ => match diagnostics_of(outcome) {
                Some(text) => PostProcessError::Encode(EncodeError { diagnostics: text }),
                None => PostProcessError::Unexpected,
            },
        },
        Stage::Transcribe => match diagnostics_of(outcome) {
            Some(text) => PostProcessError::Transcribe(TranscribeError::Failed(text)),
            None => PostProcessError::Unexpected,
        },
        Stage::ReadTranscript => match diagnostics_of(outcome) {
            Some(text) => PostProcessError::Summarize(SummarizeError::UnreadableTranscript(text)),
            None => PostProcessError::Unexpected,
        },
        Stage::Summarize => match diagnostics_of(outcome) {
            Some(text) => PostProcessError::Summarize(SummarizeError::Failed(text)),
            None => PostProcessError::Unexpected,
        },
        Stage::WriteSummary => match diagnostics_of(outcome) {
            Some(text) => PostProcessError::Summarize(SummarizeError::WriteFailed(text)),
            None => PostProcessError::Unexpected,
        },
        Stage::Cleanup => PostProcessError::Unexpected,
    }
}

/// Whether `result` is the result with which a session finishes at
/// `stage` on `outcome`: success where the last step was done, with the
/// files that cleanup left; else the error of the step.
pub open spec fn result_fits(
    stage: Stage,
    outcome: Outcome,
    result: Result<Vec<CleanupError>, PostProcessError>,
) -> bool {
    if goes_on(stage, outcome) && stage == Stage::Cleanup {
        result matches Ok(left) && outcome == Outcome::Cleaned(left)
    } else if goes_on(stage, outcome) && stage == Stage::WriteSummary {
        result matches Ok(left) && left@.len() == 0
    } else {
        result matches Err(e) && e == error_of(stage, outcome)
    }
}

/// Whether `action` is the work of the step that `p` is at, as far as
/// the session itself determines it.
pub open spec fn action_fits(p: PostProcessor, action: Action) -> bool {
    let dir = p.entry.dir@;
    let base = p.entry.basename@;
    match p.stage {
        Stage::ListRaw => action matches Action::ListRawFiles(pattern) && pattern@ == joined(
            dir,
            base + "*.raw"@,
        ),
        Stage::ConcatRaw => action matches Action::Run(args) && texts(args@) == concat_arguments(
            texts(p.raw_files@),
            p.screen_tmp@,
        ),
        Stage::NormalizeMic => action matches Action::Run(args) && texts(args@)
            == normalize_arguments(file_path(dir, base, "mic.wav"@), p.mic_tmp@),
        Stage::Mix => action matches Action::Run(args) && texts(args@) == mix_arguments(
            p.mic_tmp@,
            p.screen_tmp@,
            file_path(dir, base, "wav"@),
        ),
        Stage::Encode => action matches Action::Run(args) && texts(args@) == encode_arguments(
            file_path(dir, base, "wav"@),
            file_path(dir, base, "mp3"@),
        ),
        Stage::Transcribe => action matches Action::Transcribe { wav, vtt } && wav@ == file_path(
            dir,
            base,
            "wav"@,
        ) && vtt@ == file_path(dir, base, "vtt"@),
        Stage::ReadTranscript => action matches Action::ReadTranscript(path) && path@
            == file_path(dir, base, "vtt"@),
        Stage::Summarize => action is Summarize,
        Stage::WriteSummary => action matches Action::WriteSummary { path, text } && path@
            == file_path(dir, base, "md"@),
        Stage::Cleanup => action matches Action::Remove(paths) && texts(paths@)
            == cleanup_targets(dir, base, texts(p.raw_files@)),
        Stage::Idle => action is Finish,
    }
}

/// Whether `action` hands on the text that `outcome` brought, where the
/// step that `p` is at works on such a text: the transcript is summarized
/// as it was read, and the summary is written as it was made.
pub open spec fn text_handed_on(p: PostProcessor, outcome: Outcome, action: Action) -> bool {
    match p.stage {
        Stage::Summarize => action matches Action::Summarize(text) && outcome == Outcome::Text(
            text,
        ),
        Stage::WriteSummary => action matches Action::WriteSummary { path, text } && outcome
            == Outcome::Text(text),
        _ => true,
    }
}

/// Whether the status `after` is what is published when a session goes
/// from `stage` to `next`: the label of the new step, or, at the end,
/// nothing in work and the session's directory among the finished.
pub open spec fn status_follows(
    before: PostProcessStatus,
    after: PostProcessStatus,
    stage: Stage,
    next: Stage,
    summary_only: bool,
    dir: Seq<char>,
) -> bool {
    if stage == Stage::Idle {
        after == before
    } else if next == Stage::Idle {
        &&& after.path@.len() == 0
        &&& after.message@.len() == 0
        &&& texts(after.processed_paths@) == texts(before.processed_paths@).push(dir)
    } else {
        &&& after.path == before.path
        &&& after.message@ == stage_label(next, summary_only)
        &&& after.processed_paths == before.processed_paths
    }
}

/// The transcriber that `config` asks for.
pub open spec fn choice_fits(config: MeetNoteConfig, choice: Option<TranscriberChoice>) -> bool {
    match choice {
        Some(TranscriberChoice::WhisperCpp(engine)) => {
            &&& config.transcriber_type == TranscriberType::WhisperCppTranscriberType
            &&& engine.version@ == "v1.5.1"@
            &&& engine.model@ == config.whisper_model@
            &&& engine.language@ == config.language@
        },
        Some(TranscriberChoice::OpenAI { token, language }) => {
            &&& config.transcriber_type == TranscriberType::OpenAITranscriberType
            &&& config.openai_api_token == Some(token)
            &&& language@ == config.language@
        },
        None => {
            &&& config.transcriber_type == TranscriberType::OpenAITranscriberType
            &&& config.openai_api_token is None
        },
    }
}

/// What is published as the step in work.
fn label(stage: Stage, summary_only: bool) -> (text: &'static str)
    ensures
        text@ == stage_label(stage, summary_only),
{
    match stage {
        Stage::Idle => {
            proof {
                reveal_strlit("");
                assert(""@ =~= Seq::<char>::empty());
            }
            ""
        },
        Stage::ListRaw | Stage::ConcatRaw | Stage::NormalizeMic | Stage::Mix => {
            "Merging wave files"
        },
        Stage::Encode => "Convert to MP3",
        Stage::Transcribe => "Transcribing",
        Stage::ReadTranscript | Stage::Summarize | Stage::WriteSummary => if summary_only {
            "Summarizing again"
        } else {
            "Summarizing"
        },
        Stage::Cleanup => "Cleanup",
    }
}

impl PostProcessor {
    /// A post-processor with no session in work, which keeps the two
    /// normalized waveforms at the given places while it merges.
    pub fn new(screen_tmp: String, mic_tmp: String) -> (p: PostProcessor)
        ensures
            p.stage == Stage::Idle,
            p.screen_tmp == screen_tmp,
            p.mic_tmp == mic_tmp,
            p.raw_files@.len() == 0,
            p.transcriber is None,
            !p.summary_only,
    {
        PostProcessor {
            stage: Stage::Idle,
            summary_only: false,
            entry: Entry::new(String::new()),
            screen_tmp,
            mic_tmp,
            raw_files: Vec::new(),
            transcriber: None,
        }
    }

    /// The transcriber that `config` asks for: the local engine with the
    /// configured model and language, or the remote service, which needs
    /// the credential.
    pub fn transcribe(config: &MeetNoteConfig) -> (choice: Result<
        TranscriberChoice,
        TranscribeError,
    >)
        ensures
            match choice {
                Ok(c) => choice_fits(*config, Some(c)),
                Err(TranscribeError::MissingCredential) => choice_fits(*config, None),
                Err(_) => false,
            },
    {
        match config.transcriber_type {
            TranscriberType::WhisperCppTranscriberType => {
                let mut version = String::new();
                version.append("v1.5.1");
                proof {
                    assert(version@ =~= "v1.5.1"@);
                }
                Ok(
                    TranscriberChoice::WhisperCpp(
                        WhisperTranscriber::new(
                            version,
                            config.whisper_model.clone(),
                            config.language.clone(),
                        ),
                    ),
                )
            },
            TranscriberType::OpenAITranscriberType => match &config.openai_api_token {
                Some(token) => Ok(
                    TranscriberChoice::OpenAI {
                        token: token.clone(),
                        language: config.language.clone(),
                    },
                ),
                None => Err(TranscribeError::MissingCredential),
            },
        }
    }

    /// The files to delete once the session has its transcript and its
    /// summary.
    pub fn cleanup(&self) -> (paths: Vec<String>)
        ensures
            texts(paths@) == cleanup_targets(
                self.entry.dir@,
                self.entry.basename@,
                texts(self.raw_files@),
            ),
    {
        let mut paths: Vec<String> = Vec::new();
        paths.push(self.entry.merged_wav_path_string());
        paths.push(self.entry.mic_wav_path_string());
        let ghost head = texts(paths@);
        let mut i: usize = 0;
        proof {
            assert(texts(self.raw_files@).take(0) =~= Seq::<Seq<char>>::empty());
            assert(head + texts(self.raw_files@).take(0) =~= head);
        }
        while i < self.raw_files.len()
            invariant
                i <= self.raw_files.len(),
                texts(paths@) == head + texts(self.raw_files@).take(i as int),
            decreases self.raw_files.len() - i,
        {
            let ghost before = texts(paths@);
            push_text(&mut paths, self.raw_files[i].as_str());
            proof {
                assert(texts(self.raw_files@).take(i + 1) =~= texts(self.raw_files@).take(
                    i as int,
                ).push(self.raw_files@[i as int]@));
                assert(texts(paths@) =~= head + texts(self.raw_files@).take(i + 1));
            }
            i += 1;
        }
        proof {
            assert(texts(self.raw_files@).take(self.raw_files.len() as int) =~= texts(
                self.raw_files@,
            ));
            assert(head =~= seq![
                file_path(self.entry.dir@, self.entry.basename@, "wav"@),
                file_path(self.entry.dir@, self.entry.basename@, "mic.wav"@),
            ]);
        }
        paths
    }

    /// Goes to `stage` and tells its work. The steps that work on a text
    /// are entered by `advance` itself.
    fn begin(&mut self, stage: Stage, status: &mut PostProcessStatus) -> (action: Action)
        requires
            stage != Stage::Idle,
            stage != Stage::Summarize,
            stage != Stage::WriteSummary,
            stage == Stage::ConcatRaw ==> old(self).raw_files.len() > 0,
        ensures
            final(self).stage == stage,
            final(self).summary_only == old(self).summary_only,
            final(self).entry == old(self).entry,
            final(self).screen_tmp == old(self).screen_tmp,
            final(self).mic_tmp == old(self).mic_tmp,
            final(self).raw_files == old(self).raw_files,
            final(self).transcriber == old(self).transcriber,
            action_fits(*final(self), action),
            final(status).path == old(status).path,
            final(status).message@ == stage_label(stage, old(self).summary_only),
            final(status).processed_paths == old(status).processed_paths,
    {
        self.stage = stage;
        status.set_message(label(stage, self.summary_only));
        match stage {
            Stage::ListRaw => Action::ListRawFiles(self.entry.raw_files_pattern()),
            Stage::ConcatRaw => {
                match concat_raw_command(&self.raw_files, self.screen_tmp.as_str()) {
                    Ok(args) => Action::Run(args),
                    Err(_) => Action::Run(Vec::new()),
                }
            },
            Stage::NormalizeMic => Action::Run(
                normalize_mic_command(
                    self.entry.mic_wav_path_string().as_str(),
                    self.mic_tmp.as_str(),
                ),
            ),
            Stage::Mix => Action::Run(
                mix_command(
                    self.mic_tmp.as_str(),
                    self.screen_tmp.as_str(),
                    self.entry.merged_wav_path_string().as_str(),
                ),
            ),
            Stage::Encode => Action::Run(
                convert_to_mp3(
                    self.entry.merged_wav_path_string().as_str(),
                    self.entry.mp3_path_string().as_str(),
                ),
            ),
            Stage::Transcribe => Action::Transcribe {
                wav: self.entry.merged_wav_path_string(),
                vtt: self.entry.webvtt_path_string(),
            },
            Stage::ReadTranscript => Action::ReadTranscript(self.entry.webvtt_path_string()),
            _ => Action::Remove(self.cleanup()),
        }
    }

    /// Ends the session with `result`: nothing is in work any more, and
    /// the session counts as finished, whatever the result.
    fn finish(
        &mut self,
        result: Result<Vec<CleanupError>, PostProcessError>,
        status: &mut PostProcessStatus,
    ) -> (action: Action)
        ensures
            final(self).stage == Stage::Idle,
            final(self).summary_only == old(self).summary_only,
            final(self).entry == old(self).entry,
            final(self).screen_tmp == old(self).screen_tmp,
            final(self).mic_tmp == old(self).mic_tmp,
            final(self).raw_files == old(self).raw_files,
            final(self).transcriber == old(self).transcriber,
            action == Action::Finish(result),
            final(status).path@.len() == 0,
            final(status).message@.len() == 0,
            texts(final(status).processed_paths@) == texts(old(status).processed_paths@).push(
                old(self).entry.dir@,
            ),
    {
        self.stage = Stage::Idle;
        status.clear();
        let ghost before = texts(status.processed_paths@);
        status.push_processed(self.entry.dir.clone());
        proof {
            assert(texts(status.processed_paths@) =~= before.push(self.entry.dir@));
        }
        Action::Finish(result)
    }

    /// Takes up `entry` for the whole pipeline, with the transcriber that
    /// `config` asks for, and tells the first piece of work: to list the
    /// raw fragments.
    pub fn postprocess(
        &mut self,
        entry: Entry,
        config: &MeetNoteConfig,
        status: &mut PostProcessStatus,
    ) -> (action: Action)
        ensures
            final(self).stage == Stage::ListRaw,
            !final(self).summary_only,
            final(self).entry == entry,
            final(self).screen_tmp == old(self).screen_tmp,
            final(self).mic_tmp == old(self).mic_tmp,
            final(self).raw_files@.len() == 0,
            choice_fits(*config, final(self).transcriber),
            action_fits(*final(self), action),
            final(status).path@ == entry.dir@,
            final(status).message@ == stage_label(Stage::ListRaw, false),
            final(status).processed_paths == old(status).processed_paths,
    {
        status.set_path(entry.dir.clone());
        self.entry = entry;
        self.summary_only = false;
        self.raw_files = Vec::new();
        self.transcriber = match Self::transcribe(config) {
            Ok(choice) => Some(choice),
            Err(_) => None,
        };
        self.begin(Stage::ListRaw, status)
    }

    /// Takes up `entry` to make its summary anew from the transcript that
    /// is there, and tells the first piece of work: to read the
    /// transcript.
    pub fn regenerate_summary(&mut self, entry: Entry, status: &mut PostProcessStatus) -> (action:
        Action)
        ensures
            final(self).stage == Stage::ReadTranscript,
            final(self).summary_only,
            final(self).entry == entry,
            final(self).screen_tmp == old(self).screen_tmp,
            final(self).mic_tmp == old(self).mic_tmp,
            final(self).raw_files@.len() == 0,
            final(self).transcriber == old(self).transcriber,
            action_fits(*final(self), action),
            final(status).path@ == entry.dir@,
            final(status).message@ == stage_label(Stage::ReadTranscript, true),
            final(status).processed_paths == old(status).processed_paths,
    {
        status.set_path(entry.dir.clone());
        self.entry = entry;
        self.summary_only = true;
        self.raw_files = Vec::new();
        self.begin(Stage::ReadTranscript, status)
    }

    /// Takes note of what the work of the current step came to, and tells
    /// the next piece of work, or that the session is finished and how.
    ///
    /// The steps follow each other in the order of the pipeline; a step
    /// whose work failed is the last, and its error is the result. The
    /// status names each step before its work begins and, at the end,
    /// counts the session as finished, whatever the result.
    pub fn advance(&mut self, outcome: Outcome, status: &mut PostProcessStatus) -> (action: Action)
        ensures
            final(self).stage == step(
                old(self).stage,
                old(self).summary_only,
                old(self).transcriber is Some,
                outcome,
            ),
            final(self).summary_only == old(self).summary_only,
            final(self).entry == old(self).entry,
            final(self).screen_tmp == old(self).screen_tmp,
            final(self).mic_tmp == old(self).mic_tmp,
            final(self).transcriber == old(self).transcriber,
            final(self).stage == Stage::ConcatRaw ==> outcome == Outcome::Listed(
                final(self).raw_files,
            ),
            final(self).stage != Stage::ConcatRaw ==> final(self).raw_files == old(self).raw_files,
            action_fits(*final(self), action),
            text_handed_on(*final(self), outcome, action),
            final(self).stage == Stage::Idle ==> (action matches Action::Finish(result)
                && result_fits(old(self).stage, outcome, result)),
            status_follows(
                *old(status),
                *final(status),
                old(self).stage,
                final(self).stage,
                old(self).summary_only,
                old(self).entry.dir@,
            ),
    {
        let stage = self.stage;
        match stage {
            Stage::Idle => Action::Finish(Err(PostProcessError::Unexpected)),
            Stage::ListRaw => match outcome {
                Outcome::Listed(files) => {
                    if files.len() > 0 {
                        self.raw_files = files;
                        self.begin(Stage::ConcatRaw, status)
                    } else {
                        self.finish(Err(PostProcessError::Merge(MergeError::NoRawFiles)), status)
                    }
                },
                Outcome::Exited(text) => self.finish(
                    Err(PostProcessError::Merge(MergeError::ListFailed(text))),
                    status,
                ),
                Outcome::Failed(text) => self.finish(
                    Err(PostProcessError::Merge(MergeError::ListFailed(text))),
                    status,
                ),
                _ => self.finish(Err(PostProcessError::Unexpected), status),
            },
            Stage::ConcatRaw => match outcome {
                Outcome::Succeeded => self.begin(Stage::NormalizeMic, status),
                Outcome::Exited(text) => self.finish(
                    Err(PostProcessError::Merge(MergeError::ConcatFailed(text))),
                    status,
                ),
                Outcome::Failed(text) => self.finish(
                    Err(PostProcessError::Merge(MergeError::ConcatFailed(text))),
                    status,
                ),
                _ => self.finish(Err(PostProcessError::Unexpected), status),
            },
            Stage::NormalizeMic => match outcome {
                Outcome::Succeeded => self.begin(Stage::Mix, status),
                Outcome::Exited(_) => self.begin(Stage::Mix, status),
                Outcome::Failed(text) => self.finish(
                    Err(PostProcessError::Merge(MergeError::NormalizeFailed(text))),
                    status,
                ),
                _ => self.finish(Err(PostProcessError::Unexpected), status),
            },
            Stage::Mix => match outcome {
                Outcome::Succeeded => self.begin(Stage::Encode, status),
                Outcome::Exited(text) => self.finish(
                    Err(PostProcessError::Merge(MergeError::MixFailed(text))),
                    status,
                ),
                Outcome::Failed(text) => self.finish(
                    Err(PostProcessError::Merge(MergeError::MixFailed(text))),
                    status,
                ),
                _ => self.finish(Err(PostProcessError::Unexpected), status),
            },
            Stage::Encode => match outcome {
                Outcome::Succeeded => {
                    if self.transcriber.is_some() {
                        self.begin(Stage::Transcribe, status)
                    } else {
                        self.finish(
                            Err(PostProcessError::Transcribe(TranscribeError::MissingCredential)),
                            status,
                        )
                    }
                },
                Outcome::Exited(text) => self.finish(
                    Err(PostProcessError::Encode(EncodeError { diagnostics: text })),
                    status,
                ),
                Outcome::Failed(text) => self.finish(
                    Err(PostProcessError::Encode(EncodeError { diagnostics: text })),
                    status,
                ),
                _ => self.finish(Err(PostProcessError::Unexpected), status),
            },
            Stage::Transcribe => match outcome {
                Outcome::Succeeded => self.begin(Stage::ReadTranscript, status),
                Outcome::Exited(text) => self.finish(
                    Err(PostProcessError::Transcribe(TranscribeError::Failed(text))),
                    status,
                ),
                Outcome::Failed(text) => self.finish(
                    Err(PostProcessError::Transcribe(TranscribeError::Failed(text))),
                    status,
                ),
                _ => self.finish(Err(PostProcessError::Unexpected), status),
            },
            Stage::ReadTranscript => match outcome {
                Outcome::Text(text) => {
                    self.stage = Stage::Summarize;
                    status.set_message(label(Stage::Summarize, self.summary_only));
                    Action::Summarize(text)
                },
                Outcome::Exited(text) => self.finish(
                    Err(PostProcessError::Summarize(SummarizeError::UnreadableTranscript(text))),
                    status,
                ),
                Outcome::Failed(text) => self.finish(
                    Err(PostProcessError::Summarize(SummarizeError::UnreadableTranscript(text))),
                    status,
                ),
                _ => self.finish(Err(PostProcessError::Unexpected), status),
            },
            Stage::Summarize => match outcome {
                Outcome::Text(text) => {
                    self.stage = Stage::WriteSummary;
                    status.set_message(label(Stage::WriteSummary, self.summary_only));
                    Action::WriteSummary { path: self.entry.md_path(), text }
                },
                Outcome::Exited(text) => self.finish(
                    Err(PostProcessError::Summarize(SummarizeError::Failed(text))),
                    status,
                ),
                Outcome::Failed(text) => self.finish(
                    Err(PostProcessError::Summarize(SummarizeError::Failed(text))),
                    status,
                ),
                _ => self.finish(Err(PostProcessError::Unexpected), status),
            },
            Stage::WriteSummary => match outcome {
                Outcome::Succeeded => {
                    if self.summary_only {
                        self.finish(Ok(Vec::new()), status)
                    } else {
                        self.begin(Stage::Cleanup, status)
                    }
                },
                Outcome::Exited(text) => self.finish(
                    Err(PostProcessError::Summarize(SummarizeError::WriteFailed(text))),
                    status,
                ),
                Outcome::Failed(text) => self.finish(
                    Err(PostProcessError::Summarize(SummarizeError::WriteFailed(text))),
                    status,
                ),
                _ => self.finish(Err(PostProcessError::Unexpected), status),
            },
            Stage::Cleanup => match outcome {
                Outcome::Cleaned(left) => self.finish(Ok(left), status),
                _ => self.finish(Err(PostProcessError::Unexpected), status),
            },
        }
    }
}

/// Serves one request: `ALL` takes the session up for the whole
/// pipeline, `REGENERATE_SUMMARY` for its summary alone; any other
/// command changes nothing and is answered as unexpected.
pub fn start_postprocess_thread(
    processor: &mut PostProcessor,
    event: PostProcessEvent,
    config: &MeetNoteConfig,
    status: &mut PostProcessStatus,
) -> (action: Action)
    ensures
        match command_of(event.command@) {
            PostProcessCommand::All => {
                &&& final(processor).stage == Stage::ListRaw
                &&& !final(processor).summary_only
                &&& final(processor).entry == event.entry
                &&& final(processor).raw_files@.len() == 0
                &&& choice_fits(*config, final(processor).transcriber)
                &&& action_fits(*final(processor), action)
                &&& final(status).path@ == event.entry.dir@
                &&& final(status).message@ == stage_label(Stage::ListRaw, false)
                &&& final(status).processed_paths == old(status).processed_paths
            },
            PostProcessCommand::RegenerateSummary => {
                &&& final(processor).stage == Stage::ReadTranscript
                &&& final(processor).summary_only
                &&& final(processor).entry == event.entry
                &&& action_fits(*final(processor), action)
                &&& final(status).path@ == event.entry.dir@
                &&& final(status).message@ == stage_label(Stage::ReadTranscript, true)
                &&& final(status).processed_paths == old(status).processed_paths
            },
            PostProcessCommand::Unknown => {
                &&& *final(processor) == *old(processor)
                &&& *final(status) == *old(status)
                &&& action == Action::Finish(Err(PostProcessError::Unexpected))
            },
        },
{
    match event.parse_command() {
        PostProcessCommand::All => processor.postprocess(event.entry, config, status),
        PostProcessCommand::RegenerateSummary => processor.regenerate_summary(event.entry, status),
        PostProcessCommand::Unknown => Action::Finish(Err(PostProcessError::Unexpected)),
    }
}

/// The steps are taken strictly in the order of the pipeline: whatever a
/// step came to, the step after it stands later, and its phase is the
/// same or a later one. So no step is taken twice and every session
/// finishes.
pub proof fn lemma_steps_in_order(
    stage: Stage,
    summary_only: bool,
    has_transcriber: bool,
    outcome: Outcome,
)
    requires
        stage != Stage::Idle,
    ensures
        stage_rank(step(stage, summary_only, has_transcriber, outcome)) > stage_rank(stage),
        match phase_of(step(stage, summary_only, has_transcriber, outcome)) {
            Some(next) => phase_rank(next) >= phase_rank(phase_of(stage)->0),
            None => true,
        },
{
}

/// A step is entered only from the step before it, and only when the
/// work of that step was done: where any phase fails, none of the later
/// phases runs; cleanup in particular runs only after merge, encode,
/// transcribe and summarize have all succeeded, and never for a session
/// that only wanted its summary.
pub proof fn lemma_entered_only_after_success(
    stage: Stage,
    summary_only: bool,
    has_transcriber: bool,
    outcome: Outcome,
)
    requires
        step(stage, summary_only, has_transcriber, outcome) != Stage::Idle,
    ensures
        goes_on(stage, outcome),
        step(stage, summary_only, has_transcriber, outcome) == following(stage),
        step(stage, summary_only, has_transcriber, outcome) == Stage::Cleanup ==> stage
            == Stage::WriteSummary && outcome is Succeeded && !summary_only,
        step(stage, summary_only, has_transcriber, outcome) == Stage::Transcribe
            ==> has_transcriber,
{
}

/// Work that could not be done ends the session at once, with an error.
pub proof fn lemma_failure_aborts(
    stage: Stage,
    summary_only: bool,
    has_transcriber: bool,
    outcome: Outcome,
    result: Result<Vec<CleanupError>, PostProcessError>,
)
    requires
        outcome is Failed,
        result_fits(stage, outcome, result),
    ensures
        step(stage, summary_only, has_transcriber, outcome) == Stage::Idle,
        result is Err,
{
}

/// A tool that reports failure ends the session with an error, but for
/// the tool that normalizes the microphone track.
pub proof fn lemma_tool_failure_aborts(
    stage: Stage,
    summary_only: bool,
    has_transcriber: bool,
    outcome: Outcome,
    result: Result<Vec<CleanupError>, PostProcessError>,
)
    requires
        outcome is Exited,
        stage != Stage::NormalizeMic,
        result_fits(stage, outcome, result),
    ensures
        step(stage, summary_only, has_transcriber, outcome) == Stage::Idle,
        result is Err,
{
}

/// Merging never succeeds on nothing: where no raw fragment is found the
/// session ends with `MergeError::NoRawFiles`; where fragments are
/// found, all of them are inputs of the merge and all of them are
/// deleted at cleanup.
pub proof fn lemma_no_fragment_dropped(
    files: Vec<String>,
    summary_only: bool,
    has_transcriber: bool,
    result: Result<Vec<CleanupError>, PostProcessError>,
    out: Seq<char>,
    dir: Seq<char>,
    basename: Seq<char>,
)
    ensures
        files.len() == 0 ==> step(
            Stage::ListRaw,
            summary_only,
            has_transcriber,
            Outcome::Listed(files),
        ) == Stage::Idle,
        files.len() == 0 && result_fits(Stage::ListRaw, Outcome::Listed(files), result) ==> result
            == Err::<Vec<CleanupError>, PostProcessError>(
            PostProcessError::Merge(MergeError::NoRawFiles),
        ),
        files.len() > 0 ==> step(
            Stage::ListRaw,
            summary_only,
            has_transcriber,
            Outcome::Listed(files),
        ) == Stage::ConcatRaw,
        forall|k: int|
            0 <= k < files.len() ==> concat_arguments(texts(files@), out).contains(
                #[trigger] texts(files@)[k],
            ) && cleanup_targets(dir, basename, texts(files@)).contains(texts(files@)[k]),
{
    let names = texts(files@);
    lemma_raw_inputs_hold(names);
    assert forall|k: int| 0 <= k < files.len() implies concat_arguments(names, out).contains(
        #[trigger] names[k],
    ) && cleanup_targets(dir, basename, names).contains(names[k]) by {
        assert(raw_inputs(names).contains(names[k]));
        let j = choose|j: int| 0 <= j < raw_inputs(names).len() && raw_inputs(names)[j] == names[k];
        assert(concat_arguments(names, out)[j + 1] == names[k]);
        assert(cleanup_targets(dir, basename, names)[k + 2] == names[k]);
    }
}

/// Every raw fragment is among the inputs of the mixing tool.
pub proof fn lemma_raw_inputs_hold(files: Seq<Seq<char>>)
    ensures
        forall|k: int| 0 <= k < files.len() ==> raw_inputs(files).contains(#[trigger] files[k]),
    decreases files.len(),
{
    if files.len() > 0 {
        let head = files.drop_last();
        lemma_raw_inputs_hold(head);
        let all = raw_inputs(files);
        assert forall|k: int| 0 <= k < files.len() implies all.contains(#[trigger] files[k]) by {
            if k < files.len() - 1 {
                assert(head[k] == files[k]);
                assert(raw_inputs(head).contains(head[k]));
                let j = choose|j: int|
                    0 <= j < raw_inputs(head).len() && raw_inputs(head)[j] == head[k];
                assert(all[j] == files[k]);
            } else {
                assert(all[all.len() - 1] == files.last());
            }
        }
    }
}

} // verus!
