//! The resumer: which sessions of an earlier run are taken up again.

use vstd::prelude::*;
use crate::entry::{basename_of, Entry};

verus! {

/// What is found of a session on disk at startup.
#[derive(Debug)]
pub struct SessionFiles {
    /// The session's directory.
    pub dir: String,
    /// Whether the microphone track is there.
    pub has_mic_track: bool,
    /// Whether the summary is there.
    pub has_summary: bool,
}

/// Whether a session was captured and never finished: its microphone
/// track is there and its summary is not.
pub open spec fn is_unfinished(session: SessionFiles) -> bool {
    session.has_mic_track && !session.has_summary
}

/// The directories of the unfinished sessions among `found`, in order.
pub open spec fn unfinished(found: Seq<SessionFiles>) -> Seq<Seq<char>>
    decreases found.len(),
{
    if found.len() == 0 {
        Seq::empty()
    } else if is_unfinished(found.last()) {
        unfinished(found.drop_last()).push(found.last().dir@)
    } else {
        unfinished(found.drop_last())
    }
}

/// The directories of a sequence of sessions.
pub open spec fn entry_dirs(entries: Seq<Entry>) -> Seq<Seq<char>> {
    Seq::new(entries.len(), |i: int| entries[i].dir@)
}

/// The sessions to post-process again, each from its first phase: those of
/// `found` that have a microphone track and no summary, in order.
pub fn resume_postprocess(found: &Vec<SessionFiles>) -> (entries: Vec<Entry>)
    ensures
        entry_dirs(entries@) == unfinished(found@),
        forall|k: int|
            0 <= k < entries.len() ==> (#[trigger] entries[k]).basename@ == basename_of(
                entries[k].dir@,
            ),
{
    let mut entries: Vec<Entry> = Vec::new();
    let mut i: usize = 0;
    proof {
        assert(found@.take(0) =~= Seq::<SessionFiles>::empty());
        assert(entry_dirs(entries@) =~= Seq::<Seq<char>>::empty());
    }
    while i < found.len()
        invariant
            i <= found.len(),
            entry_dirs(entries@) == unfinished(found@.take(i as int)),
            forall|k: int|
                0 <= k < entries.len() ==> (#[trigger] entries[k]).basename@ == basename_of(
                    entries[k].dir@,
                ),
        decreases found.len() - i,
    {
        let ghost before = entry_dirs(entries@);
        proof {
            assert(found@.take(i + 1).drop_last() =~= found@.take(i as int));
            assert(found@.take(i + 1).last() == found@[i as int]);
        }
        if found[i].has_mic_track && !found[i].has_summary {
            entries.push(Entry::new(found[i].dir.clone()));
            proof {
                assert(entry_dirs(entries@) =~= before.push(found@[i as int].dir@));
            }
        }
        i += 1;
    }
    proof {
        assert(found@.take(found.len() as int) =~= found@);
    }
    entries
}

} // verus!
