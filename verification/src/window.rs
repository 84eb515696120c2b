//! Windows on screen and the patterns that mark a meeting.

use vstd::prelude::*;

verus! {

/// The application and title of a window that marks a meeting.
#[derive(Debug)]
pub struct WindowPattern {
    pub bundle_id: String,
    pub window_title: String,
}

/// A window on screen.
#[derive(Debug)]
pub struct WindowInfo {
    pub bundle_id: String,
    pub window_title: String,
    pub height: u32,
    pub width: u32,
    pub is_on_screen: bool,
}

/// What a pattern holds: the application's identifier and the title.
pub open spec fn pattern_view(p: WindowPattern) -> (Seq<char>, Seq<char>) {
    (p.bundle_id@, p.window_title@)
}

/// The views of a sequence of patterns.
pub open spec fn pattern_views(v: Seq<WindowPattern>) -> Seq<(Seq<char>, Seq<char>)> {
    Seq::new(v.len(), |i: int| pattern_view(v[i]))
}

/// The patterns of the meeting windows that are watched by default.
pub open spec fn default_patterns() -> Seq<(Seq<char>, Seq<char>)> {
    seq![
        ("us.zoom.xos"@, "Zoom Meeting"@),
        ("us.zoom.xos"@, "zoom share toolbar window"@),
        ("us.zoom.xos"@, "zoom share statusbar window"@),
    ]
}

/// Whether `window` is a window that `pattern` describes.
pub open spec fn matches_pattern(window: WindowInfo, pattern: WindowPattern) -> bool {
    pattern.bundle_id@ == window.bundle_id@ && pattern.window_title@ == window.window_title@
}

/// Whether some window is described by some pattern.
pub open spec fn has_target_window(windows: Seq<WindowInfo>, patterns: Seq<WindowPattern>) -> bool {
    exists|i: int, j: int|
        0 <= i < windows.len() && 0 <= j < patterns.len() && matches_pattern(
            #[trigger] windows[i],
            #[trigger] patterns[j],
        )
}

impl WindowPattern {
    /// The pattern of the given application and title.
    pub fn new(bundle_id: &str, window_title: &str) -> (pattern: WindowPattern)
        ensures
            pattern_view(pattern) == (bundle_id@, window_title@),
    {
        let mut b = String::new();
        b.append(bundle_id);
        let mut t = String::new();
        t.append(window_title);
        proof {
            assert(b@ =~= bundle_id@);
            assert(t@ =~= window_title@);
        }
        WindowPattern { bundle_id: b, window_title: t }
    }
}

/// The patterns of the meeting windows that are watched by default.
pub fn get_window_patterns() -> (patterns: Vec<WindowPattern>)
    ensures
        pattern_views(patterns@) == default_patterns(),
{
    let mut patterns: Vec<WindowPattern> = Vec::new();
    patterns.push(WindowPattern::new("us.zoom.xos", "Zoom Meeting"));
    patterns.push(WindowPattern::new("us.zoom.xos", "zoom share toolbar window"));
    patterns.push(WindowPattern::new("us.zoom.xos", "zoom share statusbar window"));
    proof {
        assert(pattern_views(patterns@) =~= default_patterns());
    }
    patterns
}

/// Whether one of `windows` is described by one of `patterns`: whether a
/// meeting is on screen.
pub fn is_there_target_windows(windows: &Vec<WindowInfo>, patterns: &Vec<WindowPattern>) -> (found:
    bool)
    ensures
        found == has_target_window(windows@, patterns@),
{
    let mut i: usize = 0;
    while i < windows.len()
        invariant
            i <= windows.len(),
            forall|a: int, b: int|
                0 <= a < i && 0 <= b < patterns.len() ==> !matches_pattern(
                    #[trigger] windows[a],
                    #[trigger] patterns[b],
                ),
        decreases windows.len() - i,
    {
        let mut j: usize = 0;
        while j < patterns.len()
            invariant
                i < windows.len(),
                j <= patterns.len(),
                forall|b: int|
                    0 <= b < j ==> !matches_pattern(windows[i as int], #[trigger] patterns[b]),
            decreases patterns.len() - j,
        {
            if patterns[j].bundle_id == windows[i].bundle_id && patterns[j].window_title
                == windows[i].window_title {
                assert(matches_pattern(windows[i as int], patterns[j as int]));
                return true;
            }
            j += 1;
        }
        i += 1;
    }
    false
}

} // verus!
