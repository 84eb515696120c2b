//! The recording controller: which capture work follows from the
//! commands to start and stop, and from what the window watch sees.

use vstd::prelude::*;
use crate::entry::{basename_of, file_path, joined, Entry};
use crate::text::same_text;

verus! {

/// A command to the recording controller.
#[derive(Debug)]
pub struct RecordingEvent {
    pub command: String,
    pub path: Option<String>,
}

/// Where the controller stands. At most one session is held.
#[derive(Debug)]
pub enum Recording {
    /// Nothing is captured.
    Idle,
    /// The microphone recorder of the session is being started.
    StartingMic(Entry),
    /// The microphone recorder runs and the system-audio recorder of the
    /// session is being started.
    StartingScreen(Entry),
    /// Both recorders of the session run.
    Capturing(Entry),
}

/// The capture work that the controller asks for.
#[derive(Debug)]
pub enum RecorderAction {
    /// Stop the microphone recorder and release it.
    StopMic,
    /// Stop the system-audio recorder and release it.
    StopScreen,
    /// Start a microphone recorder that writes to the file.
    StartMic(String),
    /// Start a system-audio recorder that writes files of the prefix.
    StartScreen(String),
    /// Hand the finished session to post-processing.
    Send(Entry),
}

/// What the window watch asks of the controller.
#[derive(Clone, Copy, Debug, PartialEq, Eq, Structural)]
pub enum Decision {
    Start,
    Stop,
    Nothing,
}

/// The recording controller.
#[derive(Debug)]
pub struct RecordingProc {
    pub state: Recording,
}

/// The recorders that run in `state`, as the work that stops them: the
/// microphone first, then the system audio.
pub open spec fn stops(state: Recording) -> Seq<RecorderAction> {
    match state {
        Recording::Idle => Seq::empty(),
        Recording::StartingMic(_) => Seq::empty(),
        Recording::StartingScreen(_) => seq![RecorderAction::StopMic],
        Recording::Capturing(_) => seq![RecorderAction::StopMic, RecorderAction::StopScreen],
    }
}

/// What follows when the window watch finds the meeting window present
/// or absent: a start where nothing is held, a stop where a session is
/// captured, and nothing where the state already matches.
pub open spec fn decision_of(state: Recording, window_present: bool) -> Decision {
    match state {
        Recording::Idle => if window_present {
            Decision::Start
        } else {
            Decision::Nothing
        },
        Recording::Capturing(_) => if window_present {
            Decision::Nothing
        } else {
            Decision::Stop
        },
        _ => Decision::Nothing,
    }
}

impl RecordingProc {
    /// A controller that captures nothing.
    pub fn new() -> (controller: RecordingProc)
        ensures
            controller.state is Idle,
    {
        RecordingProc { state: Recording::Idle }
    }

    /// What follows from a sample of the window watch.
    pub fn decide(&self, window_present: bool) -> (decision: Decision)
        ensures
            decision == decision_of(self.state, window_present),
    {
        match &self.state {
            Recording::Idle => if window_present {
                Decision::Start
            } else {
                Decision::Nothing
            },
            Recording::Capturing(_) => if window_present {
                Decision::Nothing
            } else {
                Decision::Stop
            },
            _ => Decision::Nothing,
        }
    }

    /// The work that stops the recorders that run, and leaves the
    /// controller idle. The session that was held is given up.
    fn release(&mut self) -> (actions: Vec<RecorderAction>)
        ensures
            final(self).state is Idle,
            actions@ == stops(old(self).state),
    {
        let mut actions: Vec<RecorderAction> = Vec::new();
        match &self.state {
            Recording::Idle => {},
            Recording::StartingMic(_) => {},
            Recording::StartingScreen(_) => {
                actions.push(RecorderAction::StopMic);
            },
            Recording::Capturing(_) => {
                actions.push(RecorderAction::StopMic);
                actions.push(RecorderAction::StopScreen);
            },
        }
        proof {
            assert(actions@ =~= stops(self.state));
        }
        self.state = Recording::Idle;
        actions
    }

    /// Starts a session in directory `path`. The recorders of a session
    /// that is still held are stopped first; then the microphone recorder
    /// of the new session is to be started.
    pub fn start(&mut self, path: String) -> (actions: Vec<RecorderAction>)
        ensures
            final(self).state matches Recording::StartingMic(entry) && entry.dir@ == path@
                && entry.basename@ == basename_of(path@),
            actions@.len() == stops(old(self).state).len() + 1,
            actions@.take(actions@.len() - 1) == stops(old(self).state),
            actions@.last() matches RecorderAction::StartMic(file) && file@ == file_path(
                path@,
                basename_of(path@),
                "mic.wav"@,
            ),
    {
        let mut actions = self.release();
        let ghost stopped = actions@;
        let entry = Entry::new(path);
        actions.push(RecorderAction::StartMic(entry.mic_wav_path_string()));
        self.state = Recording::StartingMic(entry);
        proof {
            assert(actions@.take(actions@.len() - 1) =~= stopped);
        }
        actions
    }

    /// Takes note of whether the microphone recorder started. Where it
    /// did, the system-audio recorder is to be started next; where it did
    /// not, the session is given up and the controller is idle. In any
    /// other state nothing changes.
    pub fn mic_started(&mut self, ok: bool) -> (actions: Vec<RecorderAction>)
        ensures
            match old(self).state {
                Recording::StartingMic(entry) => if ok {
                    &&& final(self).state == Recording::StartingScreen(entry)
                    &&& actions@.len() == 1
                    &&& actions@[0] matches RecorderAction::StartScreen(prefix) && prefix@
                        == joined(entry.dir@, entry.basename@)
                } else {
                    final(self).state is Idle && actions@.len() == 0
                },
                _ => final(self).state == old(self).state && actions@.len() == 0,
            },
    {
        let mut actions: Vec<RecorderAction> = Vec::new();
        let mut state = Recording::Idle;
        core::mem::swap(&mut state, &mut self.state);
        match state {
            Recording::StartingMic(entry) => {
                if ok {
                    actions.push(RecorderAction::StartScreen(entry.raw_prefix_path_string()));
                    self.state = Recording::StartingScreen(entry);
                }
            },
            other => {
                self.state = other;
            },
        }
        actions
    }

    /// Takes note of whether the system-audio recorder started. Where it
    /// did, the session is captured; where it did not, the microphone
    /// recorder is stopped, the session is given up and the controller is
    /// idle. In any other state nothing changes.
    pub fn screen_started(&mut self, ok: bool) -> (actions: Vec<RecorderAction>)
        ensures
            match old(self).state {
                Recording::StartingScreen(entry) => if ok {
                    final(self).state == Recording::Capturing(entry) && actions@.len() == 0
                } else {
                    final(self).state is Idle && actions@ == seq![RecorderAction::StopMic]
                },
                _ => final(self).state == old(self).state && actions@.len() == 0,
            },
    {
        let mut actions: Vec<RecorderAction> = Vec::new();
        let mut state = Recording::Idle;
        core::mem::swap(&mut state, &mut self.state);
        match state {
            Recording::StartingScreen(entry) => {
                if ok {
                    self.state = Recording::Capturing(entry);
                } else {
                    actions.push(RecorderAction::StopMic);
                    proof {
                        assert(actions@ =~= seq![RecorderAction::StopMic]);
                    }
                }
            },
            other => {
                self.state = other;
            },
        }
        actions
    }

    /// Stops the session. The recorders that run are stopped, the
    /// microphone first; a session that was captured is then handed to
    /// post-processing, and one that was still starting is given up.
    /// Where nothing is held, nothing is done.
    pub fn stop(&mut self) -> (actions: Vec<RecorderAction>)
        ensures
            final(self).state is Idle,
            match old(self).state {
                Recording::Capturing(entry) => actions@ == stops(old(self).state).push(
                    RecorderAction::Send(entry),
                ),
                _ => actions@ == stops(old(self).state),
            },
    {
        let mut state = Recording::Idle;
        core::mem::swap(&mut state, &mut self.state);
        let mut actions: Vec<RecorderAction> = Vec::new();
        match state {
            Recording::Idle => {},
            Recording::StartingMic(_) => {},
            Recording::StartingScreen(_) => {
                actions.push(RecorderAction::StopMic);
            },
            Recording::Capturing(entry) => {
                actions.push(RecorderAction::StopMic);
                actions.push(RecorderAction::StopScreen);
                actions.push(RecorderAction::Send(entry));
            },
        }
        proof {
            match old(self).state {
                Recording::Capturing(entry) => {
                    assert(actions@ =~= stops(old(self).state).push(RecorderAction::Send(entry)));
                },
                _ => {
                    assert(actions@ =~= stops(old(self).state));
                },
            }
        }
        actions
    }
}

/// What a command asks of the controller.
pub open spec fn is_start(event: RecordingEvent) -> bool {
    event.command@ == "START"@ && event.path is Some
}

/// What a command asks of the controller.
pub open spec fn is_stop(event: RecordingEvent) -> bool {
    event.command@ == "STOP"@
}

/// Serves one command: `START` with the directory of the new session
/// starts it, `STOP` stops the session, and anything else changes
/// nothing.
pub fn start_recording_process_ex(controller: &mut RecordingProc, event: RecordingEvent) -> (actions:
    Vec<RecorderAction>)
    ensures
        is_start(event) ==> {
            let path = event.path->0@;
            &&& final(controller).state matches Recording::StartingMic(entry) && entry.dir@ == path
                && entry.basename@ == basename_of(path)
            &&& actions@.len() == stops(old(controller).state).len() + 1
            &&& actions@.take(actions@.len() - 1) == stops(old(controller).state)
            &&& actions@.last() matches RecorderAction::StartMic(file) && file@ == file_path(
                path,
                basename_of(path),
                "mic.wav"@,
            )
        },
        is_stop(event) ==> {
            &&& final(controller).state is Idle
            &&& match old(controller).state {
                Recording::Capturing(entry) => actions@ == stops(old(controller).state).push(
                    RecorderAction::Send(entry),
                ),
                _ => actions@ == stops(old(controller).state),
            }
        },
        !is_start(event) && !is_stop(event) ==> final(controller).state == old(controller).state
            && actions@.len() == 0,
{
    proof {
        reveal_strlit("START");
        reveal_strlit("STOP");
        assert("START"@.len() == 5);
        assert("STOP"@.len() == 4);
    }
    if same_text(event.command.as_str(), "START") {
        match event.path {
            Some(path) => controller.start(path),
            None => Vec::new(),
        }
    } else if same_text(event.command.as_str(), "STOP") {
        controller.stop()
    } else {
        Vec::new()
    }
}

/// No two sessions overlap: a start while a session is captured first
/// stops both of its recorders, the microphone before the system audio,
/// and only then asks for the new microphone recorder.
pub proof fn lemma_start_stops_first(state: Recording, actions: Seq<RecorderAction>)
    requires
        state is Capturing,
        actions.len() == stops(state).len() + 1,
        actions.take(actions.len() - 1) == stops(state),
        actions.last() is StartMic,
    ensures
        actions.len() == 3,
        actions[0] == RecorderAction::StopMic,
        actions[1] == RecorderAction::StopScreen,
        actions[2] is StartMic,
{
    let head = actions.take(actions.len() - 1);
    assert(head[0] == actions[0]);
    assert(head[1] == actions[1]);
}

/// Repeated samples change nothing: once a start or a stop has been
/// carried through, the same sample asks for nothing more.
pub proof fn lemma_samples_idempotent(entry: Entry)
    ensures
        decision_of(Recording::Capturing(entry), true) == Decision::Nothing,
        decision_of(Recording::Idle, false) == Decision::Nothing,
        decision_of(Recording::Idle, true) == Decision::Start,
        decision_of(Recording::Capturing(entry), false) == Decision::Stop,
{
}

} // verus!
