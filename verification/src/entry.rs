//! The identity of one recording session and the file names derived from it.

use vstd::prelude::*;
use crate::text::{glue, slice_to_string, to_chars};

verus! {

/// Whether position `j` of `s` holds what a path may end in without
/// naming anything: a separator, or a dot that stands alone behind one.
pub open spec fn is_trailing(s: Seq<char>, j: int) -> bool {
    s[j] == '/' || (s[j] == '.' && j >= 1 && s[j - 1] == '/')
}

/// `s` without its trailing separators and the dots that stand alone
/// between them.
pub open spec fn strip_separators(s: Seq<char>) -> Seq<char>
    decreases s.len(),
{
    if s.len() > 0 && is_trailing(s, s.len() - 1) {
        strip_separators(s.drop_last())
    } else {
        s
    }
}

/// What follows the last separator of `s`, or all of `s` where it has none.
pub open spec fn last_component(s: Seq<char>) -> Seq<char>
    decreases s.len(),
{
    if s.len() == 0 || s.last() == '/' {
        Seq::empty()
    } else {
        last_component(s.drop_last()).push(s.last())
    }
}

/// The name of a directory: the last component of its path, trailing
/// separators and lone dots set aside.
pub open spec fn basename_of(dir: Seq<char>) -> Seq<char> {
    last_component(strip_separators(dir))
}

/// The path of `name` inside `dir`.
pub open spec fn joined(dir: Seq<char>, name: Seq<char>) -> Seq<char> {
    if dir.len() == 0 {
        name
    } else if dir.last() == '/' {
        dir + name
    } else {
        dir + seq!['/'] + name
    }
}

/// The path of the session file with the given extension.
pub open spec fn file_path(dir: Seq<char>, basename: Seq<char>, ext: Seq<char>) -> Seq<char> {
    joined(dir, basename + seq!['.'] + ext)
}

/// Dropping what trails down to length `k` does not change what
/// `strip_separators` gives.
pub proof fn lemma_strip_separators_take(s: Seq<char>, k: int)
    requires
        0 <= k <= s.len(),
        forall|j: int| k <= j < s.len() ==> is_trailing(s, j),
    ensures
        strip_separators(s) == strip_separators(s.take(k)),
    decreases s.len() - k,
{
    if k == s.len() {
        assert(s.take(k) == s);
    } else {
        assert(is_trailing(s, s.len() - 1));
        let t = s.drop_last();
        assert forall|j: int| k <= j < t.len() implies is_trailing(t, j) by {
            assert(is_trailing(s, j));
        }
        lemma_strip_separators_take(t, k);
        assert(t.take(k) == s.take(k));
    }
}

/// Where no separator stands at or after `k`, and one stands just before
/// `k` or `k` is the start, the last component is what follows `k`.
pub proof fn lemma_last_component_skip(s: Seq<char>, k: int)
    requires
        0 <= k <= s.len(),
        forall|j: int| k <= j < s.len() ==> #[trigger] s[j] != '/',
        k == 0 || s[k - 1] == '/',
    ensures
        last_component(s) == s.skip(k),
    decreases s.len() - k,
{
    if k == s.len() {
        assert(s.skip(k) =~= Seq::<char>::empty());
    } else {
        assert(s.last() != '/');
        let t = s.drop_last();
        lemma_last_component_skip(t, k);
        assert(t.skip(k).push(s.last()) =~= s.skip(k));
    }
}

/// The path of `name` inside `dir`.
pub fn join_path(dir: &str, name: &str) -> (path: String)
    ensures
        path@ == joined(dir@, name@),
{
    let d = to_chars(dir);
    if d.len() == 0 {
        let path = glue("", name);
        proof {
            reveal_strlit("");
            assert(path@ =~= name@);
        }
        path
    } else if d[d.len() - 1] == '/' {
        glue(dir, name)
    } else {
        let with_separator = glue(dir, "/");
        proof {
            reveal_strlit("/");
            assert("/"@ =~= seq!['/']);
        }
        glue(with_separator.as_str(), name)
    }
}

/// One recording session: its directory and the name that all of its
/// files share.
#[derive(Debug)]
pub struct Entry {
    pub dir: String,
    pub basename: String,
}

impl Entry {
    /// The session kept in directory `dir`. Its files are named after the
    /// directory.
    pub fn new(dir: String) -> (entry: Entry)
        ensures
            entry.dir@ == dir@,
            entry.basename@ == basename_of(dir@),
    {
        let v = to_chars(dir.as_str());
        let mut end: usize = v.len();
        while end > 0 && (v[end - 1] == '/' || (v[end - 1] == '.' && end >= 2 && v[end - 2]
            == '/'))
            invariant
                end <= v.len(),
                forall|j: int| end <= j < v.len() ==> is_trailing(v@, j),
            decreases end,
        {
            end -= 1;
        }
        let mut start: usize = end;
        while start > 0 && v[start - 1] != '/'
            invariant
                start <= end <= v.len(),
                forall|j: int| start <= j < end ==> #[trigger] v@[j] != '/',
            decreases start,
        {
            start -= 1;
        }
        let basename = slice_to_string(&v, start, end);
        proof {
            let s = v@;
            lemma_strip_separators_take(s, end as int);
            let t = s.take(end as int);
            assert(strip_separators(t) == t) by {
                if t.len() > 0 {
                    assert(t[t.len() - 1] == s[end - 1]);
                    if t.len() >= 2 {
                        assert(t[t.len() - 2] == s[end - 2]);
                    }
                }
            }
            assert forall|j: int| start <= j < t.len() implies #[trigger] t[j] != '/' by {
                assert(t[j] == s[j]);
            }
            lemma_last_component_skip(t, start as int);
            assert(t.skip(start as int) == s.subrange(start as int, end as int));
        }
        Entry { dir, basename }
    }

    /// The path of `name` inside the session's directory.
    fn join(&self, name: &str) -> (path: String)
        ensures
            path@ == joined(self.dir@, name@),
    {
        join_path(self.dir.as_str(), name)
    }

    /// The path of the session file with extension `ext`.
    pub fn path(&self, ext: &str) -> (path: String)
        ensures
            path@ == file_path(self.dir@, self.basename@, ext@),
    {
        let stem = glue(self.basename.as_str(), ".");
        let filename = glue(stem.as_str(), ext);
        proof {
            reveal_strlit(".");
            assert("."@ =~= seq!['.']);
        }
        self.join(filename.as_str())
    }

    /// The path of the microphone track.
    pub fn mic_wav_path(&self) -> (path: String)
        ensures
            path@ == file_path(self.dir@, self.basename@, "mic.wav"@),
    {
        self.path("mic.wav")
    }

    /// The path of the microphone track.
    pub fn mic_wav_path_string(&self) -> (path: String)
        ensures
            path@ == file_path(self.dir@, self.basename@, "mic.wav"@),
    {
        self.mic_wav_path()
    }

    /// The path of the merged waveform.
    pub fn merged_wav_path_string(&self) -> (path: String)
        ensures
            path@ == file_path(self.dir@, self.basename@, "wav"@),
    {
        self.path("wav")
    }

    /// The prefix that the names of all raw capture fragments share.
    pub fn raw_prefix_path_string(&self) -> (path: String)
        ensures
            path@ == joined(self.dir@, self.basename@),
    {
        self.join(self.basename.as_str())
    }

    /// The pattern that matches the raw capture fragments.
    pub fn raw_files_pattern(&self) -> (pattern: String)
        ensures
            pattern@ == joined(self.dir@, self.basename@ + "*.raw"@),
    {
        let name = glue(self.basename.as_str(), "*.raw");
        self.join(name.as_str())
    }

    /// The path of the transcript.
    pub fn webvtt_path_string(&self) -> (path: String)
        ensures
            path@ == file_path(self.dir@, self.basename@, "vtt"@),
    {
        self.path("vtt")
    }

    /// The path of the encoded audio.
    pub fn mp3_path_string(&self) -> (path: String)
        ensures
            path@ == file_path(self.dir@, self.basename@, "mp3"@),
    {
        self.path("mp3")
    }

    /// The path of the summary.
    pub fn md_path(&self) -> (path: String)
        ensures
            path@ == file_path(self.dir@, self.basename@, "md"@),
    {
        self.path("md")
    }

    /// A copy of the session.
    pub fn duplicate(&self) -> (copy: Entry)
        ensures
            copy == *self,
    {
        Entry { dir: self.dir.clone(), basename: self.basename.clone() }
    }
}

/// The name of a directory holds no separator, so every path that is
/// joined from the directory and the name lies directly in the directory.
pub proof fn lemma_basename_has_no_separator(dir: Seq<char>)
    ensures
        forall|j: int| 0 <= j < basename_of(dir).len() ==> #[trigger] basename_of(dir)[j] != '/',
{
    lemma_last_component_has_no_separator(strip_separators(dir));
}

/// The last component of a path holds no separator.
pub proof fn lemma_last_component_has_no_separator(s: Seq<char>)
    ensures
        forall|j: int| 0 <= j < last_component(s).len() ==> #[trigger] last_component(s)[j] != '/',
    decreases s.len(),
{
    if s.len() == 0 || s.last() == '/' {
    } else {
        let head = last_component(s.drop_last());
        lemma_last_component_has_no_separator(s.drop_last());
        assert forall|j: int| 0 <= j < last_component(s).len() implies #[trigger] last_component(
            s,
        )[j] != '/' by {
            if j < head.len() {
                assert(last_component(s)[j] == head[j]);
            }
        }
    }
}

/// Every file of a session lies in the session's directory and is named
/// by the session's basename, a dot and its extension; the raw fragments
/// share the same prefix.
pub proof fn lemma_paths_share_prefix(dir: Seq<char>, basename: Seq<char>, ext: Seq<char>)
    ensures
        file_path(dir, basename, ext) == joined(dir, basename) + seq!['.'] + ext,
        joined(dir, basename + "*.raw"@) == joined(dir, basename) + "*.raw"@,
        joined(dir, basename) == joined(dir, Seq::empty()) + basename,
{
    assert(file_path(dir, basename, ext) =~= joined(dir, basename) + seq!['.'] + ext);
    assert(joined(dir, basename + "*.raw"@) =~= joined(dir, basename) + "*.raw"@);
    assert(joined(dir, basename) =~= joined(dir, Seq::empty()) + basename);
}

} // verus!
