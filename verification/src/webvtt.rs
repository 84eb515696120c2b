//! The timed-transcript format: captions, timecodes and the tolerant parser.

use vstd::prelude::*;
use crate::text::{
    is_white_space, lemma_trimmed_is_clean, lines_of, line_views, same_chars, slice_to_string,
    split_lines, to_chars, trim_bounds, trimmed,
};

verus! {

/// One line of a timed transcript.
#[derive(Clone, Debug, PartialEq)]
pub struct Caption {
    pub start_time: String,
    pub end_time: String,
    pub text: String,
}

/// What a caption holds, as plain sequences of characters.
pub struct CaptionView {
    pub start_time: Seq<char>,
    pub end_time: Seq<char>,
    pub text: Seq<char>,
}

impl View for Caption {
    type V = CaptionView;

    open spec fn view(&self) -> CaptionView {
        CaptionView { start_time: self.start_time@, end_time: self.end_time@, text: self.text@ }
    }
}

/// The views of a sequence of captions.
pub open spec fn caption_views(v: Seq<Caption>) -> Seq<CaptionView> {
    Seq::new(v.len(), |i: int| v[i]@)
}

/// An ASCII decimal digit.
pub open spec fn is_digit(c: char) -> bool {
    '0' <= c <= '9'
}

/// The value of an ASCII decimal digit.
pub open spec fn digit_value(c: char) -> nat
    recommends
        is_digit(c),
{
    (c as u32 - 0x30) as nat
}

/// The value of the two digits at `i`.
pub open spec fn two_digits(s: Seq<char>, i: int) -> nat {
    digit_value(s[i]) * 10 + digit_value(s[i + 1])
}

/// The value of the three digits at `i`.
pub open spec fn three_digits(s: Seq<char>, i: int) -> nat {
    digit_value(s[i]) * 100 + digit_value(s[i + 1]) * 10 + digit_value(s[i + 2])
}

/// Whether a timecode `HH:MM:SS.mmm` stands in `s` at position `i`.
pub open spec fn timecode_at(s: Seq<char>, i: int) -> bool {
    &&& 0 <= i
    &&& i + 12 <= s.len()
    &&& is_digit(s[i])
    &&& is_digit(s[i + 1])
    &&& s[i + 2] == ':'
    &&& is_digit(s[i + 3])
    &&& is_digit(s[i + 4])
    &&& s[i + 5] == ':'
    &&& is_digit(s[i + 6])
    &&& is_digit(s[i + 7])
    &&& s[i + 8] == '.'
    &&& is_digit(s[i + 9])
    &&& is_digit(s[i + 10])
    &&& is_digit(s[i + 11])
}

/// Whether `s` is exactly one timecode `HH:MM:SS.mmm`.
pub open spec fn is_timecode(s: Seq<char>) -> bool {
    s.len() == 12 && timecode_at(s, 0)
}

/// The offset in milliseconds that a timecode denotes.
pub open spec fn timecode_ms(s: Seq<char>) -> nat
    recommends
        is_timecode(s),
{
    three_digits(s, 9) + two_digits(s, 6) * 1000 + two_digits(s, 3) * 60 * 1000 + two_digits(s, 0)
        * 60 * 60 * 1000
}

/// Whether the separator ` --> ` stands in `s` at position `i`.
pub open spec fn arrow_at(s: Seq<char>, i: int) -> bool {
    &&& 0 <= i
    &&& i + 5 <= s.len()
    &&& s[i] == ' '
    &&& s[i + 1] == '-'
    &&& s[i + 2] == '-'
    &&& s[i + 3] == '>'
    &&& s[i + 4] == ' '
}

/// Whether a timing `HH:MM:SS.mmm --> HH:MM:SS.mmm` stands in `s` at
/// position `i`.
pub open spec fn timing_at(s: Seq<char>, i: int) -> bool {
    timecode_at(s, i) && arrow_at(s, i + 12) && timecode_at(s, i + 17)
}

/// The position of the leftmost timing in `s` at or after `from`, if any.
pub open spec fn timing_from(s: Seq<char>, from: int) -> Option<int>
    decreases s.len() - from,
{
    if from < 0 || from + 29 > s.len() {
        None
    } else if timing_at(s, from) {
        Some(from)
    } else {
        timing_from(s, from + 1)
    }
}

/// The position of the leftmost timing in a line, if the line has one.
pub open spec fn timing_pos(line: Seq<char>) -> Option<int> {
    timing_from(line, 0)
}

/// The header line of a transcript.
pub open spec fn header() -> Seq<char> {
    seq!['W', 'E', 'B', 'V', 'T', 'T']
}

/// The captions that a sequence of lines yields, where `start` and `end`
/// are the timecodes of the last timing line seen before them.
///
/// A line that holds a timing sets the two timecodes. An empty line and
/// the header line yield nothing. Every other line is one caption, bound
/// to the two timecodes, its text trimmed.
pub open spec fn captions_of_lines(
    lines: Seq<Seq<char>>,
    start: Seq<char>,
    end: Seq<char>,
) -> Seq<CaptionView>
    decreases lines.len(),
{
    if lines.len() == 0 {
        Seq::empty()
    } else {
        let line = lines[0];
        let rest = lines.drop_first();
        match timing_pos(line) {
            Some(i) => captions_of_lines(
                rest,
                line.subrange(i, i + 12),
                line.subrange(i + 17, i + 29),
            ),
            None => if line.len() == 0 || line == header() {
                captions_of_lines(rest, start, end)
            } else {
                seq![CaptionView { start_time: start, end_time: end, text: trimmed(line) }]
                    + captions_of_lines(rest, start, end)
            },
        }
    }
}

/// The captions of a transcript.
pub open spec fn captions_of(text: Seq<char>) -> Seq<CaptionView> {
    captions_of_lines(lines_of(text), Seq::empty(), Seq::empty())
}

/// Whether a caption is as the parser makes them: its two timecodes are
/// timecodes, or both are empty where no timing came before it, and its
/// text is trimmed.
pub open spec fn is_parsed_caption(c: CaptionView) -> bool {
    &&& (is_timecode(c.start_time) && is_timecode(c.end_time)) || (c.start_time.len() == 0
        && c.end_time.len() == 0)
    &&& c.text.len() > 0 ==> !is_white_space(c.text[0]) && !is_white_space(c.text.last())
}

/// Every caption of a transcript is as the parser makes them.
pub proof fn lemma_captions_are_parsed(text: Seq<char>)
    ensures
        forall|k: int|
            0 <= k < captions_of(text).len() ==> is_parsed_caption(#[trigger] captions_of(text)[k]),
{
    lemma_lines_give_parsed_captions(lines_of(text), Seq::empty(), Seq::empty());
}

/// Lines that follow timecodes which are timecodes, or follow none, give
/// captions as the parser makes them.
pub proof fn lemma_lines_give_parsed_captions(
    lines: Seq<Seq<char>>,
    start: Seq<char>,
    end: Seq<char>,
)
    requires
        (is_timecode(start) && is_timecode(end)) || (start.len() == 0 && end.len() == 0),
    ensures
        forall|k: int|
            0 <= k < captions_of_lines(lines, start, end).len() ==> is_parsed_caption(
                #[trigger] captions_of_lines(lines, start, end)[k],
            ),
    decreases lines.len(),
{
    if lines.len() > 0 {
        let line = lines[0];
        let rest = lines.drop_first();
        match timing_pos(line) {
            Some(i) => {
                lemma_timing_pos_is_timing(line, 0);
                let s = line.subrange(i, i + 12);
                let e = line.subrange(i + 17, i + 29);
                assert(is_timecode(s));
                assert(is_timecode(e));
                lemma_lines_give_parsed_captions(rest, s, e);
                assert(captions_of_lines(lines, start, end) == captions_of_lines(rest, s, e));
            },
            None => {
                lemma_lines_give_parsed_captions(rest, start, end);
                if line.len() == 0 || line == header() {
                    assert(captions_of_lines(lines, start, end) == captions_of_lines(
                        rest,
                        start,
                        end,
                    ));
                } else {
                    lemma_trimmed_is_clean(line);
                    let first = CaptionView { start_time: start, end_time: end, text: trimmed(line) };
                    let tail = captions_of_lines(rest, start, end);
                    assert(captions_of_lines(lines, start, end) == seq![first] + tail);
                    assert(is_parsed_caption(first));
                    assert forall|k: int|
                        0 <= k < (seq![first] + tail).len() implies is_parsed_caption(
                        #[trigger] (seq![first] + tail)[k],
                    ) by {
                        if k > 0 {
                            assert((seq![first] + tail)[k] == tail[k - 1]);
                        }
                    }
                }
            },
        }
    }
}

/// Where a timing is found at or after `from`, a timing stands there.
pub proof fn lemma_timing_pos_is_timing(s: Seq<char>, from: int)
    requires
        timing_from(s, from) is Some,
    ensures
        from <= timing_from(s, from)->0,
        timing_at(s, timing_from(s, from)->0),
    decreases s.len() - from,
{
    if from < 0 || from + 29 > s.len() {
    } else if timing_at(s, from) {
    } else {
        lemma_timing_pos_is_timing(s, from + 1);
    }
}

/// Whether `c` is an ASCII decimal digit.
fn digit(c: char) -> (yes: bool)
    ensures
        yes == is_digit(c),
{
    '0' <= c && c <= '9'
}

/// The value of the ASCII decimal digit `c`.
fn digit_of(c: char) -> (n: u32)
    requires
        is_digit(c),
    ensures
        n == digit_value(c),
        n <= 9,
{
    (c as u32) - 0x30
}

/// Whether a timecode stands in `v` at position `i`.
fn has_timecode_at(v: &Vec<char>, i: usize) -> (yes: bool)
    ensures
        yes == timecode_at(v@, i as int),
{
    if v.len() < 12 || i > v.len() - 12 {
        return false;
    }
    digit(v[i]) && digit(v[i + 1]) && v[i + 2] == ':' && digit(v[i + 3]) && digit(v[i + 4]) && v[i
        + 5] == ':' && digit(v[i + 6]) && digit(v[i + 7]) && v[i + 8] == '.' && digit(v[i + 9])
        && digit(v[i + 10]) && digit(v[i + 11])
}

/// Whether a timing stands in `v` at position `i`.
fn has_timing_at(v: &Vec<char>, i: usize) -> (yes: bool)
    ensures
        yes == timing_at(v@, i as int),
{
    if v.len() < 29 || i > v.len() - 29 {
        return false;
    }
    has_timecode_at(v, i) && v[i + 12] == ' ' && v[i + 13] == '-' && v[i + 14] == '-' && v[i + 15]
        == '>' && v[i + 16] == ' ' && has_timecode_at(v, i + 17)
}

/// Whether a line is a timing and nothing else.
pub open spec fn is_timing_line(line: Seq<char>) -> bool {
    line.len() == 29 && timing_at(line, 0)
}

/// Whether `line` is a timing and nothing else.
pub fn timing_line(line: &Vec<char>) -> (yes: bool)
    ensures
        yes == is_timing_line(line@),
{
    line.len() == 29 && has_timing_at(line, 0)
}

/// The position of the leftmost timing in a line.
pub fn find_timing(line: &Vec<char>) -> (pos: Option<usize>)
    ensures
        match pos {
            Some(i) => timing_pos(line@) == Some(i as int) && timing_at(line@, i as int),
            None => timing_pos(line@) is None,
        },
{
    if line.len() < 29 {
        return None;
    }
    let last: usize = line.len() - 29;
    let mut i: usize = 0;
    while i <= last
        invariant
            last == line.len() - 29,
            i <= last + 1,
            timing_pos(line@) == timing_from(line@, i as int),
        decreases last + 1 - i,
    {
        if has_timing_at(line, i) {
            return Some(i);
        }
        i += 1;
    }
    None
}

impl Caption {
    /// A caption of the given timecodes and text.
    pub fn new(start_time: String, end_time: String, text: String) -> (caption: Caption)
        ensures
            caption.start_time == start_time,
            caption.end_time == end_time,
            caption.text == text,
    {
        Caption { start_time, end_time, text }
    }

    /// Whether the caption's start time is a timecode `HH:MM:SS.mmm`.
    pub fn has_start_time(&self) -> (yes: bool)
        ensures
            yes == is_timecode(self.start_time@),
    {
        let v = to_chars(self.start_time.as_str());
        v.len() == 12 && has_timecode_at(&v, 0)
    }

    /// The caption's start time as an offset in milliseconds.
    pub fn parse_start_time(&self) -> (ms: u32)
        requires
            is_timecode(self.start_time@),
        ensures
            ms == timecode_ms(self.start_time@),
    {
        let v = to_chars(self.start_time.as_str());
        let hour: u32 = digit_of(v[0]) * 10 + digit_of(v[1]);
        let minute: u32 = digit_of(v[3]) * 10 + digit_of(v[4]);
        let sec: u32 = digit_of(v[6]) * 10 + digit_of(v[7]);
        let millisec: u32 = digit_of(v[9]) * 100 + digit_of(v[10]) * 10 + digit_of(v[11]);
        millisec + sec * 1000 + minute * 60 * 1000 + hour * 60 * 60 * 1000
    }

    /// The caption's start time in milliseconds, where it has one.
    pub fn start_time_ms(&self) -> (ms: Option<u32>)
        ensures
            ms is Some <==> is_timecode(self.start_time@),
            ms is Some ==> ms->0 == timecode_ms(self.start_time@),
    {
        if self.has_start_time() {
            Some(self.parse_start_time())
        } else {
            None
        }
    }

    /// A copy of the caption.
    pub fn duplicate(&self) -> (copy: Caption)
        ensures
            copy == *self,
    {
        Caption {
            start_time: self.start_time.clone(),
            end_time: self.end_time.clone(),
            text: self.text.clone(),
        }
    }
}

/// The captions of a transcript, in the order of their lines.
pub fn parse_webvtt(webvtt: &str) -> (captions: Vec<Caption>)
    ensures
        caption_views(captions@) == captions_of(webvtt@),
{
    let chars = to_chars(webvtt);
    let lines = split_lines(&chars);
    let head = to_chars("WEBVTT");
    proof {
        reveal_strlit("WEBVTT");
        assert(head@ =~= header());
    }
    let mut captions: Vec<Caption> = Vec::new();
    let mut current_start_time = String::new();
    let mut current_end_time = String::new();
    let mut n: usize = 0;
    proof {
        assert(line_views(lines@).skip(0) == line_views(lines@));
        assert(caption_views(captions@) + captions_of(webvtt@) =~= captions_of(webvtt@));
    }
    while n < lines.len()
        invariant
            n <= lines.len(),
            head@ == header(),
            line_views(lines@) == lines_of(webvtt@),
            captions_of(webvtt@) == caption_views(captions@) + captions_of_lines(
                line_views(lines@).skip(n as int),
                current_start_time@,
                current_end_time@,
            ),
        decreases lines.len() - n,
    {
        let line = &lines[n];
        let ghost todo = line_views(lines@).skip(n as int);
        let ghost before = caption_views(captions@);
        proof {
            assert(todo[0] == line@);
            assert(todo.drop_first() == line_views(lines@).skip(n + 1));
        }
        match find_timing(line) {
            Some(i) => {
                current_start_time = slice_to_string(line, i, i + 12);
                current_end_time = slice_to_string(line, i + 17, i + 29);
            },
            None => {
                if line.len() != 0 && !same_chars(line, &head) {
                    let (from, to) = trim_bounds(line);
                    let caption = Caption {
                        start_time: current_start_time.clone(),
                        end_time: current_end_time.clone(),
                        text: slice_to_string(line, from, to),
                    };
                    captions.push(caption);
                    proof {
                        assert(caption_views(captions@) =~= before + seq![caption@]);
                        assert(before + (seq![caption@] + captions_of_lines(
                            todo.drop_first(),
                            current_start_time@,
                            current_end_time@,
                        )) =~= before + seq![caption@] + captions_of_lines(
                            todo.drop_first(),
                            current_start_time@,
                            current_end_time@,
                        ));
                    }
                }
            },
        }
        n += 1;
    }
    proof {
        assert(line_views(lines@).skip(n as int).len() == 0);
        assert(caption_views(captions@) + Seq::<CaptionView>::empty() =~= caption_views(
            captions@,
        ));
    }
    captions
}

} // verus!
