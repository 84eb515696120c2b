//! Text primitives on which the rest of the library works: conversions
//! between strings and character vectors, line splitting and trimming.

use vstd::prelude::*;

verus! {

/// Appends one character to `s`.
///
/// Trusted: `String::push` of the standard library, which adds exactly the
/// given character at the end of the string.
#[verifier::external_body]
pub(crate) fn push_char(s: &mut String, c: char)
    ensures
        final(s)@ == old(s)@.push(c),
{
    s.push(c)
}

/// The views of a sequence of strings.
pub open spec fn texts(v: Seq<String>) -> Seq<Seq<char>> {
    Seq::new(v.len(), |i: int| v[i]@)
}

/// The views of a sequence of character vectors.
pub open spec fn line_views(v: Seq<Vec<char>>) -> Seq<Seq<char>> {
    Seq::new(v.len(), |i: int| v[i]@)
}

/// The characters of `s`, in order.
pub fn to_chars(s: &str) -> (out: Vec<char>)
    ensures
        out@ == s@,
{
    let mut out: Vec<char> = Vec::new();
    let iter = s.chars();
    for c in it: iter
        invariant
            out@ == it.seq().take(*it.index),
    {
        out.push(c);
    }
    out
}

/// The string made of the characters `v[from..to]`.
pub fn slice_to_string(v: &Vec<char>, from: usize, to: usize) -> (out: String)
    requires
        from <= to <= v.len(),
    ensures
        out@ == v@.subrange(from as int, to as int),
{
    let mut out = String::new();
    let mut i: usize = from;
    while i < to
        invariant
            from <= i <= to <= v.len(),
            out@ == v@.subrange(from as int, i as int),
        decreases to - i,
    {
        push_char(&mut out, v[i]);
        i += 1;
    }
    out
}

/// The string made of the characters of `v`, in order.
pub fn from_chars(v: &Vec<char>) -> (out: String)
    ensures
        out@ == v@,
{
    let out = slice_to_string(v, 0, v.len());
    assert(v@.subrange(0, v.len() as int) == v@);
    out
}

/// `a` followed by `b`.
pub fn glue(a: &str, b: &str) -> (out: String)
    ensures
        out@ == a@ + b@,
{
    let mut out = String::new();
    out.append(a);
    out.append(b);
    out
}

/// Whether two strings hold the same characters.
pub fn same_text(a: &str, b: &str) -> (same: bool)
    ensures
        same == (a@ == b@),
{
    let x = to_chars(a);
    let y = to_chars(b);
    same_chars(&x, &y)
}

/// Whether two character vectors hold the same characters.
pub fn same_chars(a: &Vec<char>, b: &Vec<char>) -> (same: bool)
    ensures
        same == (a@ == b@),
{
    if a.len() != b.len() {
        return false;
    }
    let mut i: usize = 0;
    while i < a.len()
        invariant
            i <= a.len(),
            a.len() == b.len(),
            a@.take(i as int) == b@.take(i as int),
        decreases a.len() - i,
    {
        if a[i] != b[i] {
            return false;
        }
        assert(a@.take(i + 1) == a@.take(i as int).push(a@[i as int]));
        assert(b@.take(i + 1) == b@.take(i as int).push(b@[i as int]));
        i += 1;
    }
    assert(a@.take(a.len() as int) == a@);
    assert(b@.take(b.len() as int) == b@);
    true
}

/// The characters that count as white space: those with the Unicode
/// property `White_Space`.
pub open spec fn is_white_space(c: char) -> bool {
    let n = c as u32;
    (0x09 <= n <= 0x0D) || n == 0x20 || n == 0x85 || n == 0xA0 || n == 0x1680 || (0x2000 <= n
        <= 0x200A) || n == 0x2028 || n == 0x2029 || n == 0x202F || n == 0x205F || n == 0x3000
}

/// Whether `c` is white space.
pub fn white_space(c: char) -> (yes: bool)
    ensures
        yes == is_white_space(c),
{
    let n: u32 = c as u32;
    (0x09 <= n && n <= 0x0D) || n == 0x20 || n == 0x85 || n == 0xA0 || n == 0x1680 || (0x2000 <= n
        && n <= 0x200A) || n == 0x2028 || n == 0x2029 || n == 0x202F || n == 0x205F || n
        == 0x3000
}

/// `s` without its leading white space.
pub open spec fn trim_front(s: Seq<char>) -> Seq<char>
    decreases s.len(),
{
    if s.len() > 0 && is_white_space(s[0]) {
        trim_front(s.drop_first())
    } else {
        s
    }
}

/// `s` without its trailing white space.
pub open spec fn trim_back(s: Seq<char>) -> Seq<char>
    decreases s.len(),
{
    if s.len() > 0 && is_white_space(s.last()) {
        trim_back(s.drop_last())
    } else {
        s
    }
}

/// `s` without leading and trailing white space.
pub open spec fn trimmed(s: Seq<char>) -> Seq<char> {
    trim_back(trim_front(s))
}

/// Skipping `k` leading white-space characters does not change what
/// `trim_front` gives.
pub proof fn lemma_trim_front_skip(s: Seq<char>, k: int)
    requires
        0 <= k <= s.len(),
        forall|j: int| 0 <= j < k ==> is_white_space(#[trigger] s[j]),
    ensures
        trim_front(s) == trim_front(s.skip(k)),
    decreases k,
{
    if k == 0 {
        assert(s.skip(0) == s);
    } else {
        assert(is_white_space(s[0]));
        let t = s.drop_first();
        assert forall|j: int| 0 <= j < k - 1 implies is_white_space(#[trigger] t[j]) by {
            assert(t[j] == s[j + 1]);
        }
        lemma_trim_front_skip(t, k - 1);
        assert(t.skip(k - 1) == s.skip(k));
    }
}

/// Dropping trailing white-space characters down to length `k` does not
/// change what `trim_back` gives.
pub proof fn lemma_trim_back_take(s: Seq<char>, k: int)
    requires
        0 <= k <= s.len(),
        forall|j: int| k <= j < s.len() ==> is_white_space(#[trigger] s[j]),
    ensures
        trim_back(s) == trim_back(s.take(k)),
    decreases s.len() - k,
{
    if k == s.len() {
        assert(s.take(k) == s);
    } else {
        assert(is_white_space(s.last()));
        let t = s.drop_last();
        lemma_trim_back_take(t, k);
        assert(t.take(k) == s.take(k));
    }
}

/// What is trimmed neither begins nor ends with white space.
pub proof fn lemma_trimmed_is_clean(s: Seq<char>)
    ensures
        trimmed(s).len() > 0 ==> !is_white_space(trimmed(s)[0]) && !is_white_space(
            trimmed(s).last(),
        ),
{
    lemma_trim_front_clean(s);
    lemma_trim_back_clean(trim_front(s));
}

/// What `trim_front` gives does not begin with white space.
pub proof fn lemma_trim_front_clean(s: Seq<char>)
    ensures
        trim_front(s).len() > 0 ==> !is_white_space(trim_front(s)[0]),
    decreases s.len(),
{
    if s.len() > 0 && is_white_space(s[0]) {
        lemma_trim_front_clean(s.drop_first());
    }
}

/// What `trim_back` gives is the beginning of its argument and does not
/// end with white space.
pub proof fn lemma_trim_back_clean(s: Seq<char>)
    ensures
        trim_back(s).len() <= s.len(),
        trim_back(s) == s.take(trim_back(s).len() as int),
        trim_back(s).len() > 0 ==> !is_white_space(trim_back(s).last()),
    decreases s.len(),
{
    if s.len() > 0 && is_white_space(s.last()) {
        let t = s.drop_last();
        lemma_trim_back_clean(t);
        assert(t.take(trim_back(t).len() as int) =~= s.take(trim_back(t).len() as int));
    } else {
        assert(s.take(s.len() as int) =~= s);
    }
}

/// The bounds `(from, to)` of `v` without its leading and trailing white
/// space.
pub fn trim_bounds(v: &Vec<char>) -> (bounds: (usize, usize))
    ensures
        bounds.0 <= bounds.1 <= v.len(),
        v@.subrange(bounds.0 as int, bounds.1 as int) == trimmed(v@),
{
    let mut from: usize = 0;
    while from < v.len() && white_space(v[from])
        invariant
            from <= v.len(),
            forall|j: int| 0 <= j < from ==> is_white_space(#[trigger] v@[j]),
        decreases v.len() - from,
    {
        from += 1;
    }
    let mut to: usize = v.len();
    while to > from && white_space(v[to - 1])
        invariant
            from <= to <= v.len(),
            forall|j: int| to <= j < v.len() ==> is_white_space(#[trigger] v@[j]),
        decreases to,
    {
        to -= 1;
    }
    proof {
        let s = v@;
        lemma_trim_front_skip(s, from as int);
        let f = s.skip(from as int);
        assert(trim_front(f) == f) by {
            if f.len() > 0 {
                assert(f[0] == s[from as int]);
            }
        }
        let k = to - from;
        assert forall|j: int| k <= j < f.len() implies is_white_space(#[trigger] f[j]) by {
            assert(f[j] == s[j + from]);
        }
        lemma_trim_back_take(f, k);
        let g = f.take(k);
        assert(trim_back(g) == g) by {
            if g.len() > 0 {
                assert(g.last() == s[to - 1]);
            }
        }
        assert(g == s.subrange(from as int, to as int));
    }
    (from, to)
}

/// The length of the first line of `s`: the number of characters before
/// its first line feed, or all of them where it has none.
pub open spec fn line_len(s: Seq<char>) -> nat
    decreases s.len(),
{
    if s.len() == 0 || s[0] == '\n' {
        0
    } else {
        1 + line_len(s.drop_first())
    }
}

/// `line` without one trailing carriage return.
pub open spec fn strip_cr(line: Seq<char>) -> Seq<char> {
    if line.len() > 0 && line.last() == '\r' {
        line.drop_last()
    } else {
        line
    }
}

/// The lines of `s`. A line ends at a line feed, or at a carriage return
/// directly followed by one; the terminator is not part of the line. The
/// last line needs no terminator, and a terminator at the very end opens
/// no further line.
pub open spec fn lines_of(s: Seq<char>) -> Seq<Seq<char>>
    decreases s.len(),
{
    if s.len() == 0 {
        Seq::empty()
    } else {
        let k = line_len(s) as int;
        if k >= s.len() {
            seq![s]
        } else {
            seq![strip_cr(s.take(k))] + lines_of(s.skip(k + 1))
        }
    }
}

/// `line_len` never exceeds the length.
pub proof fn lemma_line_len_bound(s: Seq<char>)
    ensures
        line_len(s) <= s.len(),
    decreases s.len(),
{
    if s.len() == 0 || s[0] == '\n' {
    } else {
        lemma_line_len_bound(s.drop_first());
    }
}

/// Where no line feed stands among the first `k` characters and one
/// stands at `k`, or `s` ends there, the first line has length `k`.
pub proof fn lemma_line_len_is(s: Seq<char>, k: int)
    requires
        0 <= k <= s.len(),
        forall|j: int| 0 <= j < k ==> #[trigger] s[j] != '\n',
        k == s.len() || s[k] == '\n',
    ensures
        line_len(s) == k,
    decreases k,
{
    if k == 0 {
    } else {
        let t = s.drop_first();
        assert forall|j: int| 0 <= j < k - 1 implies #[trigger] t[j] != '\n' by {
            assert(t[j] == s[j + 1]);
        }
        if k - 1 < t.len() {
            assert(t[k - 1] == s[k]);
        }
        lemma_line_len_is(t, k - 1);
    }
}

/// The lines of `v`, each as a vector of characters.
pub fn split_lines(v: &Vec<char>) -> (out: Vec<Vec<char>>)
    ensures
        line_views(out@) == lines_of(v@),
{
    let mut out: Vec<Vec<char>> = Vec::new();
    let mut start: usize = 0;
    proof {
        assert(v@.skip(0) == v@);
        assert(line_views(out@) + lines_of(v@) =~= lines_of(v@));
    }
    while start < v.len()
        invariant
            start <= v.len(),
            lines_of(v@) == line_views(out@) + lines_of(v@.skip(start as int)),
        decreases v.len() - start,
    {
        let mut end: usize = start;
        while end < v.len() && v[end] != '\n'
            invariant
                start <= end <= v.len(),
                forall|j: int| start <= j < end ==> #[trigger] v@[j] != '\n',
            decreases v.len() - end,
        {
            end += 1;
        }
        let ghost rest = v@.skip(start as int);
        let ghost before = line_views(out@);
        proof {
            assert forall|j: int| 0 <= j < end - start implies #[trigger] rest[j] != '\n' by {
                assert(rest[j] == v@[j + start]);
            }
            if end < v.len() {
                assert(rest[end - start] == v@[end as int]);
            }
            lemma_line_len_is(rest, end - start);
        }
        let mut line: Vec<char> = Vec::new();
        let stop: usize = if end < v.len() && end > start && v[end - 1] == '\r' {
            end - 1
        } else {
            end
        };
        let mut i: usize = start;
        while i < stop
            invariant
                start <= i <= stop <= v.len(),
                line@ == v@.subrange(start as int, i as int),
            decreases stop - i,
        {
            line.push(v[i]);
            i += 1;
        }
        proof {
            let k = end - start;
            assert(rest.take(k) == v@.subrange(start as int, end as int));
            if end < v.len() {
                if k > 0 {
                    assert(rest.take(k).last() == v@[end - 1]);
                }
                assert(strip_cr(rest.take(k)) == line@) by {
                    if end > start && v@[end - 1] == '\r' {
                        assert(rest.take(k).drop_last() == v@.subrange(
                            start as int,
                            end - 1,
                        ));
                    }
                }
                assert(rest.skip(k + 1) == v@.skip(end + 1));
                assert(lines_of(rest) == seq![line@] + lines_of(v@.skip(end + 1)));
            } else {
                assert(rest.take(k) == rest);
                assert(lines_of(rest) == seq![line@]);
                assert(v@.skip(v.len() as int).len() == 0);
                assert(lines_of(v@.skip(v.len() as int)) == Seq::<Seq<char>>::empty());
            }
        }
        out.push(line);
        let next: usize = if end < v.len() {
            end + 1
        } else {
            end
        };
        proof {
            assert(line_views(out@) == before + seq![line@]);
            assert(lines_of(v@) == line_views(out@) + lines_of(v@.skip(next as int)));
        }
        start = next;
    }
    proof {
        assert(v@.skip(start as int).len() == 0);
        assert(line_views(out@) + Seq::<Seq<char>>::empty() == line_views(out@));
    }
    out
}

/// Appends a copy of `s` to `v`.
pub fn push_text(v: &mut Vec<String>, s: &str)
    ensures
        texts(final(v)@) == texts(old(v)@).push(s@),
{
    let ghost before = texts(v@);
    let mut owned = String::new();
    owned.append(s);
    proof {
        assert(owned@ =~= s@);
    }
    v.push(owned);
    proof {
        assert(texts(v@) =~= before.push(s@));
    }
}

/// `s` without the occurrences of `pat`, found from left to right, none
/// overlapping another.
pub open spec fn without(s: Seq<char>, pat: Seq<char>) -> Seq<char>
    decreases s.len(),
{
    if pat.len() == 0 || s.len() < pat.len() {
        s
    } else if s.take(pat.len() as int) == pat {
        without(s.skip(pat.len() as int), pat)
    } else {
        seq![s[0]] + without(s.drop_first(), pat)
    }
}

/// Whether `pat` stands in `v` at position `i`.
fn stands_at(v: &Vec<char>, i: usize, pat: &Vec<char>) -> (yes: bool)
    requires
        i + pat.len() <= v.len(),
    ensures
        yes == (v@.skip(i as int).take(pat.len() as int) == pat@),
{
    let ghost window = v@.skip(i as int).take(pat.len() as int);
    let mut k: usize = 0;
    while k < pat.len()
        invariant
            k <= pat.len(),
            i + pat.len() <= v.len(),
            window == v@.skip(i as int).take(pat.len() as int),
            forall|j: int| 0 <= j < k ==> window[j] == pat@[j],
        decreases pat.len() - k,
    {
        if v[i + k] != pat[k] {
            assert(window[k as int] == v@[i + k]);
            return false;
        }
        assert(window[k as int] == v@[i + k]);
        k += 1;
    }
    assert(window =~= pat@);
    true
}

/// `v` without the occurrences of `pat`.
pub fn remove_all(v: &Vec<char>, pat: &Vec<char>) -> (out: Vec<char>)
    ensures
        out@ == without(v@, pat@),
{
    let mut out: Vec<char> = Vec::new();
    let mut i: usize = 0;
    proof {
        assert(v@.skip(0) =~= v@);
        assert(out@ + without(v@, pat@) =~= without(v@, pat@));
    }
    while i < v.len()
        invariant
            i <= v.len(),
            without(v@, pat@) == out@ + without(v@.skip(i as int), pat@),
        decreases v.len() - i,
    {
        let ghost rest = v@.skip(i as int);
        let ghost before = out@;
        if pat.len() > 0 && pat.len() <= v.len() - i && stands_at(v, i, pat) {
            proof {
                assert(rest.skip(pat.len() as int) =~= v@.skip(i + pat.len()));
            }
            i += pat.len();
        } else {
            out.push(v[i]);
            proof {
                if pat.len() == 0 || rest.len() < pat.len() {
                    assert(without(rest, pat@) == rest);
                    assert(rest.drop_first() =~= v@.skip(i + 1));
                    assert(without(v@.skip(i + 1), pat@) == v@.skip(i + 1));
                    assert(rest =~= seq![rest[0]] + v@.skip(i + 1));
                } else {
                    assert(rest.drop_first() =~= v@.skip(i + 1));
                }
                assert(out@ + without(v@.skip(i + 1), pat@) =~= before + (seq![rest[0]] + without(
                    v@.skip(i + 1),
                    pat@,
                )));
            }
            i += 1;
        }
    }
    proof {
        assert(v@.skip(v.len() as int).len() == 0);
        assert(out@ + without(v@.skip(v.len() as int), pat@) =~= out@);
    }
    out
}

} // verus!
