//! Whether the system can capture what this program records.

use vstd::prelude::*;

verus! {

/// What can be captured.
#[derive(Clone, Copy, Debug, PartialEq, Eq, Structural)]
pub enum TargetKind {
    Display,
    Window,
    Audio,
}

/// Something on the system that can be captured.
#[derive(Debug)]
pub struct Target {
    pub kind: TargetKind,
    pub title: String,
    pub id: u32,
}

/// How a capture is to be made.
#[derive(Debug)]
pub struct Options {
    pub fps: u32,
    pub show_cursor: bool,
    pub show_highlight: bool,
    pub targets: Vec<Target>,
    /// What is left out of the capture.
    pub excluded_targets: Option<Vec<Target>>,
}

/// The least version of the system that is supported, as the system
/// prints it: `12.3` and a line feed.
pub open spec fn min_version() -> Seq<u8> {
    seq![0x31u8, 0x32u8, 0x2Eu8, 0x33u8, 0x0Au8]
}

/// Whether `a` comes before `b`, or is `b`, in the order of a dictionary.
pub open spec fn at_most(a: Seq<u8>, b: Seq<u8>) -> bool
    decreases a.len(),
{
    if a.len() == 0 {
        true
    } else if b.len() == 0 {
        false
    } else if a[0] != b[0] {
        a[0] < b[0]
    } else {
        at_most(a.drop_first(), b.drop_first())
    }
}

/// Whether the system whose version is printed as `os_version` is
/// supported: whether, read as bytes in the order of a dictionary, the
/// version is no less than `12.3` and a line feed.
pub fn is_supported(os_version: &Vec<u8>) -> (supported: bool)
    ensures
        supported == at_most(min_version(), os_version@),
{
    let mut least: Vec<u8> = Vec::new();
    least.push(0x31u8);
    least.push(0x32u8);
    least.push(0x2Eu8);
    least.push(0x33u8);
    least.push(0x0Au8);
    proof {
        assert(least@ =~= min_version());
        assert(least@.skip(0) =~= least@);
        assert(os_version@.skip(0) =~= os_version@);
    }
    let mut i: usize = 0;
    while i < least.len()
        invariant
            i <= least.len(),
            i <= os_version.len(),
            least@ == min_version(),
            at_most(min_version(), os_version@) == at_most(
                least@.skip(i as int),
                os_version@.skip(i as int),
            ),
        decreases least.len() - i,
    {
        let ghost a = least@.skip(i as int);
        let ghost b = os_version@.skip(i as int);
        if i >= os_version.len() {
            return false;
        }
        proof {
            assert(a[0] == least@[i as int]);
            assert(b[0] == os_version@[i as int]);
            assert(a.drop_first() =~= least@.skip(i + 1));
            assert(b.drop_first() =~= os_version@.skip(i + 1));
        }
        if least[i] != os_version[i] {
            return least[i] < os_version[i];
        }
        i += 1;
    }
    true
}

} // verus!
