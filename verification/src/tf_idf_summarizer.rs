//! Extractive summarisation: one representative caption for each window
//! of three minutes, chosen by the informativeness of its terms.

use vstd::prelude::*;
use crate::text::{glue, same_text, texts};
use crate::tokenizer::Tokenizer;
use crate::webvtt::{
    caption_views, captions_of, is_timecode, parse_webvtt, timecode_ms, Caption, CaptionView,
};

verus! {

/// The length of one bucket in milliseconds.
pub const BUCKET_MS: u32 = 180000;

/// A caption with what the summariser reads of it: its start in
/// milliseconds and its significant terms.
pub struct Row {
    pub start_time: u32,
    pub tokens: Vec<String>,
    pub caption: Caption,
}

/// What a row holds, as plain values.
pub struct RowView {
    pub start_time: nat,
    pub tokens: Seq<Seq<char>>,
    pub caption: CaptionView,
}

impl View for Row {
    type V = RowView;

    open spec fn view(&self) -> RowView {
        RowView {
            start_time: self.start_time as nat,
            tokens: texts(self.tokens@),
            caption: self.caption@,
        }
    }
}

/// The views of a sequence of rows.
pub open spec fn row_views(v: Seq<Row>) -> Seq<RowView> {
    Seq::new(v.len(), |i: int| v[i]@)
}

/// The token lists of a sequence of rows: the document.
pub open spec fn documents(rows: Seq<RowView>) -> Seq<Seq<Seq<char>>> {
    Seq::new(rows.len(), |i: int| rows[i].tokens)
}

/// Whether a caption text is a known artifact of the transcription
/// engine, which writes these phrases over silence and key strokes.
pub open spec fn is_artifact(text: Seq<char>) -> bool {
    text == "ご視聴ありがとうございました"@ || text == "(ボタンを押す音)"@
}

/// Whether a caption takes part in the summary: it is no artifact and it
/// has a start time, by which it falls into a bucket.
pub open spec fn is_candidate(c: CaptionView) -> bool {
    !is_artifact(c.text) && is_timecode(c.start_time)
}

/// The captions that take part in the summary, in order.
pub open spec fn candidates(s: Seq<CaptionView>) -> Seq<CaptionView>
    decreases s.len(),
{
    if s.len() == 0 {
        Seq::empty()
    } else if is_candidate(s.last()) {
        candidates(s.drop_last()).push(s.last())
    } else {
        candidates(s.drop_last())
    }
}

/// Every caption that `candidates` keeps is a candidate of the input.
pub proof fn lemma_candidates_are_candidates(s: Seq<CaptionView>)
    ensures
        forall|k: int|
            0 <= k < candidates(s).len() ==> is_candidate(#[trigger] candidates(s)[k])
                && s.contains(candidates(s)[k]),
    decreases s.len(),
{
    if s.len() > 0 {
        lemma_candidates_are_candidates(s.drop_last());
        let r = candidates(s.drop_last());
        assert forall|k: int| 0 <= k < candidates(s).len() implies is_candidate(
            #[trigger] candidates(s)[k],
        ) && s.contains(candidates(s)[k]) by {
            if k < r.len() {
                let c = r[k];
                assert(s.drop_last().contains(c));
                let j = choose|j: int| 0 <= j < s.drop_last().len() && s.drop_last()[j] == c;
                assert(s[j] == c);
            } else {
                assert(candidates(s)[k] == s.last());
                assert(s[s.len() - 1] == s.last());
            }
        }
    }
}

/// Whether `text` is a known artifact of the transcription engine.
pub fn artifact(text: &str) -> (yes: bool)
    ensures
        yes == is_artifact(text@),
{
    same_text(text, "ご視聴ありがとうございました") || same_text(text, "(ボタンを押す音)")
}

/// The captions that take part in the summary.
pub fn select_captions(captions: &Vec<Caption>) -> (kept: Vec<Caption>)
    ensures
        caption_views(kept@) == candidates(caption_views(captions@)),
{
    let mut kept: Vec<Caption> = Vec::new();
    let mut i: usize = 0;
    proof {
        assert(caption_views(captions@).take(0) =~= Seq::<CaptionView>::empty());
        assert(caption_views(kept@) =~= Seq::<CaptionView>::empty());
    }
    while i < captions.len()
        invariant
            i <= captions.len(),
            caption_views(kept@) == candidates(caption_views(captions@).take(i as int)),
        decreases captions.len() - i,
    {
        let ghost before = caption_views(kept@);
        let ghost prefix = caption_views(captions@).take(i + 1);
        proof {
            assert(prefix.drop_last() =~= caption_views(captions@).take(i as int));
            assert(prefix.last() == captions@[i as int]@);
        }
        let caption = &captions[i];
        if !artifact(caption.text.as_str()) && caption.has_start_time() {
            let copy = caption.duplicate();
            kept.push(copy);
            proof {
                assert(caption_views(kept@) =~= before.push(captions@[i as int]@));
            }
        }
        i += 1;
    }
    proof {
        assert(caption_views(captions@).take(captions.len() as int) =~= caption_views(
            captions@,
        ));
    }
    kept
}

impl Row {
    /// The row of a caption and its terms.
    pub fn new(caption: Caption, tokens: Vec<String>) -> (row: Row)
        requires
            is_timecode(caption.start_time@),
        ensures
            row.caption == caption,
            row.tokens == tokens,
            row.start_time == timecode_ms(caption.start_time@),
    {
        let start_time = caption.parse_start_time();
        Row { start_time, tokens, caption }
    }
}

/// Whether `rows` are rows of the captions `kept`, one for each in order,
/// each with the start of its caption in milliseconds.
pub open spec fn rows_match(rows: Seq<RowView>, kept: Seq<CaptionView>) -> bool {
    &&& rows.len() == kept.len()
    &&& forall|k: int|
        0 <= k < rows.len() ==> (#[trigger] rows[k]).caption == kept[k] && rows[k].start_time
            == timecode_ms(kept[k].start_time)
}

/// The rows of the captions that take part in the summary, each with the
/// terms that the tokenizer finds in its text.
///
/// The tokenizer is asked once for each of those captions, in order, and
/// only for those; where it fails, its message is the error. Without
/// such a caption the result is the empty sequence of rows.
pub fn build_rows<T: Tokenizer>(tokenizer: &T, captions: &Vec<Caption>) -> (result: Result<
    Vec<Row>,
    String,
>)
    ensures
        match result {
            Ok(rows) => rows_match(row_views(rows@), candidates(caption_views(captions@))),
            Err(_) => candidates(caption_views(captions@)).len() > 0,
        },
{
    let kept = select_captions(captions);
    proof {
        lemma_candidates_are_candidates(caption_views(captions@));
    }
    let ghost wanted = candidates(caption_views(captions@));
    let mut rows: Vec<Row> = Vec::new();
    let mut i: usize = 0;
    assert(caption_views(kept@).len() == kept.len());
    while i < kept.len()
        invariant
            i <= kept.len(),
            caption_views(kept@) == wanted,
            wanted == candidates(caption_views(captions@)),
            wanted.len() == kept.len(),
            forall|k: int| 0 <= k < wanted.len() ==> is_candidate(#[trigger] wanted[k]),
            rows.len() == i,
            forall|k: int|
                0 <= k < i ==> (#[trigger] rows[k]).caption@ == wanted[k] && rows[k].start_time
                    == timecode_ms(wanted[k].start_time),
        decreases kept.len() - i,
    {
        assert(caption_views(kept@)[i as int] == kept@[i as int]@);
        assert(is_candidate(wanted[i as int]));
        let caption = kept[i].duplicate();
        match tokenizer.tokenize(caption.text.clone()) {
            Ok(tokens) => {
                rows.push(Row::new(caption, tokens));
            },
            Err(message) => {
                return Err(message);
            },
        }
        i += 1;
    }
    Ok(rows)
}

/// How often `term` stands in `tokens`.
pub open spec fn count_in(tokens: Seq<Seq<char>>, term: Seq<char>) -> nat
    decreases tokens.len(),
{
    if tokens.len() == 0 {
        0
    } else {
        count_in(tokens.drop_last(), term) + if tokens.last() == term {
            1nat
        } else {
            0nat
        }
    }
}

/// How often `term` stands in all captions together.
pub open spec fn occurrences(docs: Seq<Seq<Seq<char>>>, term: Seq<char>) -> nat
    decreases docs.len(),
{
    if docs.len() == 0 {
        0
    } else {
        occurrences(docs.drop_last(), term) + count_in(docs.last(), term)
    }
}

/// The number of captions in which `term` stands at least once.
pub open spec fn document_frequency(docs: Seq<Seq<Seq<char>>>, term: Seq<char>) -> nat
    decreases docs.len(),
{
    if docs.len() == 0 {
        0
    } else {
        document_frequency(docs.drop_last(), term) + if count_in(docs.last(), term) > 0 {
            1nat
        } else {
            0nat
        }
    }
}

/// All tokens of the document, caption after caption.
pub open spec fn all_tokens(docs: Seq<Seq<Seq<char>>>) -> Seq<Seq<char>>
    decreases docs.len(),
{
    if docs.len() == 0 {
        Seq::empty()
    } else {
        all_tokens(docs.drop_last()) + docs.last()
    }
}

/// The terms of `tokens`, each once, in the order of their first
/// occurrence.
pub open spec fn distinct(tokens: Seq<Seq<char>>) -> Seq<Seq<char>>
    decreases tokens.len(),
{
    if tokens.len() == 0 {
        Seq::empty()
    } else if distinct(tokens.drop_last()).contains(tokens.last()) {
        distinct(tokens.drop_last())
    } else {
        distinct(tokens.drop_last()).push(tokens.last())
    }
}

/// A term of the document with its counts.
pub struct TermStats {
    /// The term.
    pub term: String,
    /// How often the term stands in all captions together.
    pub occurrences: u128,
    /// The number of captions that hold the term.
    pub document_frequency: usize,
}

/// The terms of a table, in order.
pub open spec fn table_terms(table: Seq<TermStats>) -> Seq<Seq<char>> {
    Seq::new(table.len(), |i: int| table[i].term@)
}

/// Whether each entry of `table` holds the counts of its term in `docs`.
pub open spec fn counts_match(table: Seq<TermStats>, docs: Seq<Seq<Seq<char>>>) -> bool {
    forall|k: int|
        0 <= k < table.len() ==> (#[trigger] table[k]).occurrences == occurrences(
            docs,
            table[k].term@,
        ) && table[k].document_frequency == document_frequency(docs, table[k].term@)
}

/// How often `term` stands in `tokens`.
pub fn count_tokens(tokens: &Vec<String>, term: &String) -> (n: usize)
    ensures
        n == count_in(texts(tokens@), term@),
{
    let mut n: usize = 0;
    let mut i: usize = 0;
    proof {
        assert(texts(tokens@).take(0) =~= Seq::<Seq<char>>::empty());
    }
    while i < tokens.len()
        invariant
            i <= tokens.len(),
            n <= i,
            n == count_in(texts(tokens@).take(i as int), term@),
        decreases tokens.len() - i,
    {
        proof {
            let prefix = texts(tokens@).take(i + 1);
            assert(prefix.drop_last() =~= texts(tokens@).take(i as int));
            assert(prefix.last() == tokens@[i as int]@);
        }
        if tokens[i] == *term {
            n += 1;
        }
        i += 1;
    }
    proof {
        assert(texts(tokens@).take(tokens.len() as int) =~= texts(tokens@));
    }
    n
}

/// How often `term` stands in all rows together.
pub fn term_occurrences(rows: &Vec<Row>, term: &String) -> (n: u128)
    ensures
        n == occurrences(documents(row_views(rows@)), term@),
{
    let ghost docs = documents(row_views(rows@));
    let mut n: u128 = 0;
    let mut i: usize = 0;
    proof {
        assert(docs.take(0) =~= Seq::<Seq<Seq<char>>>::empty());
    }
    while i < rows.len()
        invariant
            i <= rows.len(),
            docs == documents(row_views(rows@)),
            n <= i * usize::MAX,
            n == occurrences(docs.take(i as int), term@),
        decreases rows.len() - i,
    {
        proof {
            let prefix = docs.take(i + 1);
            assert(prefix.drop_last() =~= docs.take(i as int));
            assert(prefix.last() == texts(rows@[i as int].tokens@));
            assert(i * usize::MAX + usize::MAX == (i + 1) * usize::MAX) by (nonlinear_arith);
            assert((i + 1) * usize::MAX <= usize::MAX * usize::MAX) by (nonlinear_arith)
                requires
                    i + 1 <= usize::MAX,
            ;
            assert(usize::MAX * usize::MAX < u128::MAX) by (nonlinear_arith)
                requires
                    usize::MAX <= 0xffff_ffff_ffff_ffff,
            ;
        }
        let c = count_tokens(&rows[i].tokens, term);
        n = n + c as u128;
        i += 1;
    }
    proof {
        assert(docs.take(rows.len() as int) =~= docs);
    }
    n
}

/// The number of rows that hold `term`.
pub fn term_document_frequency(rows: &Vec<Row>, term: &String) -> (n: usize)
    ensures
        n == document_frequency(documents(row_views(rows@)), term@),
{
    let ghost docs = documents(row_views(rows@));
    let mut n: usize = 0;
    let mut i: usize = 0;
    proof {
        assert(docs.take(0) =~= Seq::<Seq<Seq<char>>>::empty());
    }
    while i < rows.len()
        invariant
            i <= rows.len(),
            docs == documents(row_views(rows@)),
            n <= i,
            n == document_frequency(docs.take(i as int), term@),
        decreases rows.len() - i,
    {
        proof {
            let prefix = docs.take(i + 1);
            assert(prefix.drop_last() =~= docs.take(i as int));
            assert(prefix.last() == texts(rows@[i as int].tokens@));
        }
        if count_tokens(&rows[i].tokens, term) > 0 {
            n += 1;
        }
        i += 1;
    }
    proof {
        assert(docs.take(rows.len() as int) =~= docs);
    }
    n
}

/// The position of `term` in `table`, if it stands there.
pub fn find_term(table: &Vec<TermStats>, term: &String) -> (pos: Option<usize>)
    ensures
        match pos {
            Some(k) => k < table.len() && table[k as int].term@ == term@ && forall|j: int|
                0 <= j < k ==> (#[trigger] table[j]).term@ != term@,
            None => !table_terms(table@).contains(term@),
        },
{
    let mut k: usize = 0;
    while k < table.len()
        invariant
            k <= table.len(),
            forall|j: int| 0 <= j < k ==> (#[trigger] table[j]).term@ != term@,
        decreases table.len() - k,
    {
        if table[k].term == *term {
            return Some(k);
        }
        k += 1;
    }
    proof {
        if table_terms(table@).contains(term@) {
            let j = choose|j: int|
                0 <= j < table_terms(table@).len() && table_terms(table@)[j] == term@;
            assert(table[j].term@ == term@);
        }
    }
    None
}

/// The table of the document's terms: each term once, in the order of
/// its first occurrence, with its counts over the whole document.
pub fn term_table(rows: &Vec<Row>) -> (table: Vec<TermStats>)
    ensures
        table_terms(table@) == distinct(all_tokens(documents(row_views(rows@)))),
        counts_match(table@, documents(row_views(rows@))),
{
    let ghost docs = documents(row_views(rows@));
    let mut table: Vec<TermStats> = Vec::new();
    let mut i: usize = 0;
    proof {
        assert(docs.take(0) =~= Seq::<Seq<Seq<char>>>::empty());
        assert(table_terms(table@) =~= Seq::<Seq<char>>::empty());
    }
    while i < rows.len()
        invariant
            i <= rows.len(),
            docs == documents(row_views(rows@)),
            table_terms(table@) == distinct(all_tokens(docs.take(i as int))),
            counts_match(table@, docs),
        decreases rows.len() - i,
    {
        let tokens = &rows[i].tokens;
        let ghost seen = all_tokens(docs.take(i as int));
        let mut j: usize = 0;
        proof {
            assert(texts(tokens@).take(0) =~= Seq::<Seq<char>>::empty());
            assert(seen + Seq::<Seq<char>>::empty() =~= seen);
        }
        while j < tokens.len()
            invariant
                j <= tokens.len(),
                docs == documents(row_views(rows@)),
                table_terms(table@) == distinct(seen + texts(tokens@).take(j as int)),
                counts_match(table@, docs),
            decreases tokens.len() - j,
        {
            let ghost so_far = seen + texts(tokens@).take(j as int);
            let ghost next = seen + texts(tokens@).take(j + 1);
            let ghost before = table@;
            proof {
                assert(next.drop_last() =~= so_far);
                assert(next.last() == tokens@[j as int]@);
            }
            let token = &tokens[j];
            match find_term(&table, token) {
                Some(_) => {
                    proof {
                        let k = choose|k: int| 0 <= k < table.len() && table[k].term@ == token@;
                        assert(table_terms(table@)[k] == token@);
                    }
                },
                None => {
                    let entry = TermStats {
                        term: token.clone(),
                        occurrences: term_occurrences(rows, token),
                        document_frequency: term_document_frequency(rows, token),
                    };
                    table.push(entry);
                    proof {
                        assert(table_terms(table@) =~= table_terms(before).push(token@));
                        assert forall|k: int| 0 <= k < table.len() implies (
                        #[trigger] table[k]).occurrences == occurrences(docs, table[k].term@)
                            && table[k].document_frequency == document_frequency(
                            docs,
                            table[k].term@,
                        ) by {
                            if k < before.len() {
                                assert(table[k] == before[k]);
                            }
                        }
                    }
                },
            }
            j += 1;
        }
        proof {
            let prefix = docs.take(i + 1);
            assert(prefix.drop_last() =~= docs.take(i as int));
            assert(prefix.last() == texts(tokens@));
            assert(texts(tokens@).take(tokens.len() as int) =~= texts(tokens@));
        }
        i += 1;
    }
    proof {
        assert(docs.take(rows.len() as int) =~= docs);
    }
    table
}

/// The weight of `token`: the weight that stands beside its first entry in
/// `terms`, or zero where it has no entry or the entry has no weight.
pub open spec fn weight_of(terms: Seq<Seq<char>>, weights: Seq<u64>, token: Seq<char>) -> nat
    decreases terms.len(),
{
    if terms.len() == 0 || weights.len() == 0 {
        0
    } else if terms[0] == token {
        weights[0] as nat
    } else {
        weight_of(terms.drop_first(), weights.drop_first(), token)
    }
}

/// The score of a caption: the sum of the weights of its tokens.
pub open spec fn score_of(tokens: Seq<Seq<char>>, terms: Seq<Seq<char>>, weights: Seq<u64>) -> nat
    decreases tokens.len(),
{
    if tokens.len() == 0 {
        0
    } else {
        score_of(tokens.drop_last(), terms, weights) + weight_of(terms, weights, tokens.last())
    }
}

/// The scores of all rows.
pub open spec fn scores_of(rows: Seq<RowView>, terms: Seq<Seq<char>>, weights: Seq<u64>) -> Seq<
    nat,
> {
    Seq::new(rows.len(), |i: int| score_of(rows[i].tokens, terms, weights))
}

/// The bucket of a start time: the number of the window of three minutes
/// in which it falls.
pub open spec fn bucket_of(ms: nat) -> nat {
    ms / 180000
}

/// The buckets of all rows.
pub open spec fn buckets_of(rows: Seq<RowView>) -> Seq<nat> {
    Seq::new(rows.len(), |i: int| bucket_of(rows[i].start_time))
}

/// The numbers of `v` as natural numbers.
pub open spec fn naturals(v: Seq<u128>) -> Seq<nat> {
    Seq::new(v.len(), |i: int| v[i] as nat)
}

/// Whether row `w` wins its bucket among the first `upto` rows: no row of
/// the bucket scores higher, and none that scores as high comes earlier.
pub open spec fn is_winner(buckets: Seq<nat>, scores: Seq<nat>, upto: int, w: int) -> bool {
    &&& 0 <= w < upto
    &&& forall|j: int|
        0 <= j < upto && #[trigger] buckets[j] == buckets[w] ==> scores[j] < scores[w] || (
        scores[j] == scores[w] && w <= j)
}

/// Whether some row of `sel` lies in bucket `b`.
pub open spec fn covered(buckets: Seq<nat>, sel: Seq<usize>, b: nat) -> bool {
    exists|k: int| 0 <= k < sel.len() && buckets[#[trigger] sel[k] as int] == b
}

/// Whether `sel` is the selection among the first `upto` rows: the winner
/// of every bucket that holds a row, in ascending order of the buckets.
pub open spec fn is_selection(
    buckets: Seq<nat>,
    scores: Seq<nat>,
    upto: int,
    sel: Seq<usize>,
) -> bool {
    &&& forall|k: int|
        0 <= k < sel.len() ==> is_winner(buckets, scores, upto, #[trigger] sel[k] as int)
    &&& forall|k: int, l: int|
        0 <= k < l < sel.len() ==> buckets[#[trigger] sel[k] as int] < buckets[#[trigger] sel[l] as int]
    &&& forall|j: int| 0 <= j < upto ==> covered(buckets, sel, #[trigger] buckets[j])
}

/// Two ascending sequences that hold the same numbers are equal.
pub proof fn lemma_ascending_same_members(a: Seq<nat>, c: Seq<nat>)
    requires
        forall|k: int, l: int| 0 <= k < l < a.len() ==> a[k] < a[l],
        forall|k: int, l: int| 0 <= k < l < c.len() ==> c[k] < c[l],
        forall|x: nat| a.contains(x) <==> c.contains(x),
    ensures
        a == c,
    decreases a.len(),
{
    if a.len() == 0 {
        if c.len() > 0 {
            assert(c.contains(c[0]));
            assert(a.contains(c[0]));
        }
        assert(a =~= c);
    } else {
        assert(a.contains(a[0]));
        assert(c.contains(a[0]));
        let am = a.last();
        let cm = c.last();
        assert(a.contains(am));
        assert(c.contains(am));
        assert(c.contains(cm));
        assert(a.contains(cm));
        let l = choose|l: int| 0 <= l < c.len() && c[l] == am;
        let k = choose|k: int| 0 <= k < a.len() && a[k] == cm;
        assert(am <= cm) by {
            if l < c.len() - 1 {
                assert(c[l] < c[c.len() - 1]);
            }
        }
        assert(cm <= am) by {
            if k < a.len() - 1 {
                assert(a[k] < a[a.len() - 1]);
            }
        }
        let a1 = a.drop_last();
        let c1 = c.drop_last();
        assert forall|x: nat| a1.contains(x) <==> c1.contains(x) by {
            if a1.contains(x) {
                let i = choose|i: int| 0 <= i < a1.len() && a1[i] == x;
                assert(a[i] == x);
                assert(a[i] < a[a.len() - 1]);
                assert(a.contains(x));
                assert(c.contains(x));
                let j = choose|j: int| 0 <= j < c.len() && c[j] == x;
                assert(j < c.len() - 1);
                assert(c1[j] == x);
            }
            if c1.contains(x) {
                let i = choose|i: int| 0 <= i < c1.len() && c1[i] == x;
                assert(c[i] == x);
                assert(c[i] < c[c.len() - 1]);
                assert(c.contains(x));
                assert(a.contains(x));
                let j = choose|j: int| 0 <= j < a.len() && a[j] == x;
                assert(j < a.len() - 1);
                assert(a1[j] == x);
            }
        }
        assert forall|k: int, l: int| 0 <= k < l < a1.len() implies a1[k] < a1[l] by {
            assert(a[k] < a[l]);
        }
        assert forall|k: int, l: int| 0 <= k < l < c1.len() implies c1[k] < c1[l] by {
            assert(c[k] < c[l]);
        }
        lemma_ascending_same_members(a1, c1);
        assert(a =~= a1.push(am));
        assert(c =~= c1.push(cm));
    }
}

/// The selection is unique: which caption stands for a bucket, and in
/// which order the buckets come, depends on the buckets and scores of
/// the rows alone.
pub proof fn lemma_selection_unique(
    buckets: Seq<nat>,
    scores: Seq<nat>,
    x: Seq<usize>,
    y: Seq<usize>,
)
    requires
        buckets.len() == scores.len(),
        is_selection(buckets, scores, buckets.len() as int, x),
        is_selection(buckets, scores, buckets.len() as int, y),
    ensures
        x == y,
{
    let n = buckets.len() as int;
    let bx = Seq::new(x.len(), |k: int| buckets[x[k] as int]);
    let by = Seq::new(y.len(), |k: int| buckets[y[k] as int]);
    assert forall|k: int, l: int| 0 <= k < l < bx.len() implies bx[k] < bx[l] by {
        assert(buckets[x[k] as int] < buckets[x[l] as int]);
    }
    assert forall|k: int, l: int| 0 <= k < l < by.len() implies by[k] < by[l] by {
        assert(buckets[y[k] as int] < buckets[y[l] as int]);
    }
    assert forall|v: nat| bx.contains(v) <==> by.contains(v) by {
        if bx.contains(v) {
            let k = choose|k: int| 0 <= k < bx.len() && bx[k] == v;
            assert(is_winner(buckets, scores, n, x[k] as int));
            assert(covered(buckets, y, buckets[x[k] as int]));
            let l = choose|l: int| 0 <= l < y.len() && buckets[#[trigger] y[l] as int] == v;
            assert(by[l] == v);
        }
        if by.contains(v) {
            let k = choose|k: int| 0 <= k < by.len() && by[k] == v;
            assert(is_winner(buckets, scores, n, y[k] as int));
            assert(covered(buckets, x, buckets[y[k] as int]));
            let l = choose|l: int| 0 <= l < x.len() && buckets[#[trigger] x[l] as int] == v;
            assert(bx[l] == v);
        }
    }
    lemma_ascending_same_members(bx, by);
    assert(x.len() == y.len());
    assert forall|k: int| 0 <= k < x.len() implies x[k] == y[k] by {
        assert(bx[k] == by[k]);
        assert(is_winner(buckets, scores, n, x[k] as int));
        assert(is_winner(buckets, scores, n, y[k] as int));
        assert(buckets[y[k] as int] == buckets[x[k] as int]);
        assert(buckets[x[k] as int] == buckets[y[k] as int]);
    }
    assert(x =~= y);
}

/// The weight of `token` in a table whose entries are weighted by
/// `weights`, entry by entry.
pub fn term_weight(table: &Vec<TermStats>, weights: &Vec<u64>, token: &String) -> (w: u64)
    ensures
        w == weight_of(table_terms(table@), weights@, token@),
{
    let ghost terms = table_terms(table@);
    let mut k: usize = 0;
    proof {
        assert(terms.skip(0) =~= terms);
        assert(weights@.skip(0) =~= weights@);
    }
    while k < table.len() && k < weights.len()
        invariant
            k <= table.len(),
            k <= weights.len(),
            terms == table_terms(table@),
            weight_of(terms, weights@, token@) == weight_of(
                terms.skip(k as int),
                weights@.skip(k as int),
                token@,
            ),
        decreases table.len() - k,
    {
        proof {
            assert(terms.skip(k as int)[0] == table[k as int].term@);
            assert(weights@.skip(k as int)[0] == weights[k as int]);
            assert(terms.skip(k as int).drop_first() =~= terms.skip(k + 1));
            assert(weights@.skip(k as int).drop_first() =~= weights@.skip(k + 1));
        }
        if table[k].term == *token {
            return weights[k];
        }
        k += 1;
    }
    0
}

/// The score of a caption with the given tokens.
pub fn caption_score(tokens: &Vec<String>, table: &Vec<TermStats>, weights: &Vec<u64>) -> (score:
    u128)
    ensures
        score == score_of(texts(tokens@), table_terms(table@), weights@),
{
    let mut score: u128 = 0;
    let mut j: usize = 0;
    proof {
        assert(texts(tokens@).take(0) =~= Seq::<Seq<char>>::empty());
    }
    while j < tokens.len()
        invariant
            j <= tokens.len(),
            score <= j * u64::MAX,
            score == score_of(texts(tokens@).take(j as int), table_terms(table@), weights@),
        decreases tokens.len() - j,
    {
        proof {
            let prefix = texts(tokens@).take(j + 1);
            assert(prefix.drop_last() =~= texts(tokens@).take(j as int));
            assert(prefix.last() == tokens@[j as int]@);
            assert(j * u64::MAX + u64::MAX == (j + 1) * u64::MAX) by (nonlinear_arith);
            assert((j + 1) * u64::MAX <= u64::MAX * u64::MAX) by (nonlinear_arith)
                requires
                    j + 1 <= u64::MAX,
            ;
        }
        let w = term_weight(table, weights, &tokens[j]);
        score = score + w as u128;
        j += 1;
    }
    proof {
        assert(texts(tokens@).take(tokens.len() as int) =~= texts(tokens@));
    }
    score
}

/// The scores of all rows.
pub fn score_rows(rows: &Vec<Row>, table: &Vec<TermStats>, weights: &Vec<u64>) -> (scores: Vec<
    u128,
>)
    ensures
        scores.len() == rows.len(),
        naturals(scores@) == scores_of(row_views(rows@), table_terms(table@), weights@),
{
    let mut scores: Vec<u128> = Vec::new();
    let mut i: usize = 0;
    while i < rows.len()
        invariant
            i <= rows.len(),
            scores.len() == i,
            forall|k: int|
                0 <= k < i ==> #[trigger] scores[k] == score_of(
                    row_views(rows@)[k].tokens,
                    table_terms(table@),
                    weights@,
                ),
        decreases rows.len() - i,
    {
        let score = caption_score(&rows[i].tokens, table, weights);
        scores.push(score);
        i += 1;
    }
    proof {
        assert(naturals(scores@) =~= scores_of(
            row_views(rows@),
            table_terms(table@),
            weights@,
        ));
    }
    scores
}

/// The selection: for every bucket that holds a row, the first row of
/// the highest score in it; the buckets in ascending order.
pub fn select_winners(rows: &Vec<Row>, scores: &Vec<u128>) -> (sel: Vec<usize>)
    requires
        scores.len() == rows.len(),
    ensures
        is_selection(
            buckets_of(row_views(rows@)),
            naturals(scores@),
            rows.len() as int,
            sel@,
        ),
{
    let ghost b = buckets_of(row_views(rows@));
    let ghost s = naturals(scores@);
    let mut sel: Vec<usize> = Vec::new();
    let mut i: usize = 0;
    while i < rows.len()
        invariant
            i <= rows.len(),
            scores.len() == rows.len(),
            b == buckets_of(row_views(rows@)),
            s == naturals(scores@),
            is_selection(b, s, i as int, sel@),
        decreases rows.len() - i,
    {
        let bucket: u32 = rows[i].start_time / BUCKET_MS;
        assert(b[i as int] == bucket);
        let mut p: usize = 0;
        while p < sel.len() && rows[sel[p]].start_time / BUCKET_MS < bucket
            invariant
                p <= sel.len(),
                i < rows.len(),
                b == buckets_of(row_views(rows@)),
                is_selection(b, s, i as int, sel@),
                bucket == b[i as int],
                forall|k: int| 0 <= k < p ==> b[#[trigger] sel@[k] as int] < bucket,
            decreases sel.len() - p,
        {
            assert(b[sel@[p as int] as int] == rows[sel@[p as int] as int].start_time
                / BUCKET_MS);
            p += 1;
        }
        let ghost before = sel@;
        if p < sel.len() && rows[sel[p]].start_time / BUCKET_MS == bucket {
            let current: usize = sel[p];
            assert(b[current as int] == bucket);
            if scores[current] < scores[i] {
                sel.set(p, i);
                proof {
                    let after = sel@;
                    assert forall|k: int| 0 <= k < after.len() implies is_winner(
                        b,
                        s,
                        i + 1,
                        #[trigger] after[k] as int,
                    ) by {
                        if k == p {
                            assert(is_winner(b, s, i as int, before[p as int] as int));
                        } else {
                            assert(after[k] == before[k]);
                            assert(is_winner(b, s, i as int, before[k] as int));
                            if k < p {
                                assert(b[before[k] as int] < b[before[p as int] as int]);
                            } else {
                                assert(b[before[p as int] as int] < b[before[k] as int]);
                            }
                        }
                    }
                    assert forall|k: int, l: int| 0 <= k < l < after.len() implies b[
                    #[trigger] after[k] as int] < b[#[trigger] after[l] as int] by {
                        assert(b[before[k] as int] < b[before[l] as int]);
                    }
                    assert forall|j: int| 0 <= j < i + 1 implies covered(
                        b,
                        after,
                        #[trigger] b[j],
                    ) by {
                        if j == i {
                            assert(b[after[p as int] as int] == b[j]);
                        } else {
                            assert(covered(b, before, b[j]));
                            let k = choose|k: int|
                                0 <= k < before.len() && b[#[trigger] before[k] as int] == b[j];
                            assert(b[after[k] as int] == b[j]);
                        }
                    }
                }
            } else {
                proof {
                    assert forall|k: int| 0 <= k < before.len() implies is_winner(
                        b,
                        s,
                        i + 1,
                        #[trigger] before[k] as int,
                    ) by {
                        assert(is_winner(b, s, i as int, before[k] as int));
                        if k < p {
                            assert(b[before[k] as int] < b[before[p as int] as int]);
                        } else if k > p {
                            assert(b[before[p as int] as int] < b[before[k] as int]);
                        }
                    }
                    assert forall|j: int| 0 <= j < i + 1 implies covered(
                        b,
                        before,
                        #[trigger] b[j],
                    ) by {
                        if j == i {
                            assert(b[before[p as int] as int] == b[j]);
                        } else {
                            assert(covered(b, before, b[j]));
                        }
                    }
                }
            }
        } else {
            proof {
                if p < before.len() {
                    assert(b[before[p as int] as int] == rows[before[p as int] as int].start_time
                        / BUCKET_MS);
                    assert(b[before[p as int] as int] > bucket);
                }
                assert forall|k: int| p <= k < before.len() implies b[
                #[trigger] before[k] as int] > bucket by {
                    if k > p {
                        assert(b[before[p as int] as int] < b[before[k] as int]);
                    }
                }
                assert forall|j: int| 0 <= j < i implies #[trigger] b[j] != bucket by {
                    assert(covered(b, before, b[j]));
                    let k = choose|k: int|
                        0 <= k < before.len() && b[#[trigger] before[k] as int] == b[j];
                    if k < p {
                        assert(b[before[k] as int] < bucket);
                    } else {
                        assert(b[before[k] as int] > bucket);
                    }
                }
            }
            sel.insert(p, i);
            proof {
                let after = sel@;
                assert(after == before.insert(p as int, i));
                assert forall|k: int| 0 <= k < after.len() implies is_winner(
                    b,
                    s,
                    i + 1,
                    #[trigger] after[k] as int,
                ) by {
                    if k < p {
                        assert(after[k] == before[k]);
                        assert(is_winner(b, s, i as int, before[k] as int));
                        assert(b[before[k] as int] < bucket);
                    } else if k > p {
                        assert(after[k] == before[k - 1]);
                        assert(is_winner(b, s, i as int, before[k - 1] as int));
                        assert(b[before[k - 1] as int] > bucket);
                    } else {
                        assert(after[k] == i);
                    }
                }
                assert forall|k: int, l: int| 0 <= k < l < after.len() implies b[
                #[trigger] after[k] as int] < b[#[trigger] after[l] as int] by {
                    if l < p {
                        assert(b[before[k] as int] < b[before[l] as int]);
                    } else if l == p {
                        assert(after[k] == before[k]);
                        assert(b[before[k] as int] < bucket);
                    } else if k < p {
                        assert(after[k] == before[k]);
                        assert(after[l] == before[l - 1]);
                        if k < l - 1 {
                            assert(b[before[k] as int] < b[before[l - 1] as int]);
                        }
                    } else if k == p {
                        assert(after[l] == before[l - 1]);
                        assert(b[before[l - 1] as int] > bucket);
                    } else {
                        assert(after[k] == before[k - 1]);
                        assert(after[l] == before[l - 1]);
                        assert(b[before[k - 1] as int] < b[before[l - 1] as int]);
                    }
                }
                assert forall|j: int| 0 <= j < i + 1 implies covered(
                    b,
                    after,
                    #[trigger] b[j],
                ) by {
                    if j == i {
                        assert(b[after[p as int] as int] == b[j]);
                    } else {
                        assert(covered(b, before, b[j]));
                        let k = choose|k: int|
                            0 <= k < before.len() && b[#[trigger] before[k] as int] == b[j];
                        if k < p {
                            assert(after[k] == before[k]);
                            assert(b[after[k] as int] == b[j]);
                        } else {
                            assert(after[k + 1] == before[k]);
                            assert(b[after[k + 1] as int] == b[j]);
                        }
                    }
                }
            }
        }
        i += 1;
    }
    sel
}

/// The line that stands for a caption in the summary.
pub open spec fn summary_line(c: CaptionView) -> Seq<char> {
    seq!['['] + c.start_time + seq![']', ' '] + c.text
}

/// The lines of the summary that selects the rows `sel`.
pub open spec fn summary_lines(rows: Seq<RowView>, sel: Seq<usize>) -> Seq<Seq<char>> {
    Seq::new(sel.len(), |k: int| summary_line(rows[sel[k] as int].caption))
}

/// The lines, with a line feed between each two.
pub open spec fn join_lines(lines: Seq<Seq<char>>) -> Seq<char>
    decreases lines.len(),
{
    if lines.len() == 0 {
        Seq::empty()
    } else if lines.len() == 1 {
        lines[0]
    } else {
        join_lines(lines.drop_last()) + seq!['\n'] + lines.last()
    }
}

/// The selection among all rows.
pub open spec fn selection(buckets: Seq<nat>, scores: Seq<nat>) -> Seq<usize> {
    choose|sel: Seq<usize>| is_selection(buckets, scores, buckets.len() as int, sel)
}

/// The summary of the rows under the given weights of their terms.
pub open spec fn summary_of(rows: Seq<RowView>, terms: Seq<Seq<char>>, weights: Seq<u64>) -> Seq<
    char,
> {
    join_lines(
        summary_lines(rows, selection(buckets_of(rows), scores_of(rows, terms, weights))),
    )
}

/// The line that stands for a caption in the summary.
pub fn caption_line(caption: &Caption) -> (line: String)
    ensures
        line@ == summary_line(caption@),
{
    let opened = glue("[", caption.start_time.as_str());
    let closed = glue(opened.as_str(), "] ");
    let line = glue(closed.as_str(), caption.text.as_str());
    proof {
        reveal_strlit("[");
        reveal_strlit("] ");
        assert("["@ =~= seq!['[']);
        assert("] "@ =~= seq![']', ' ']);
    }
    line
}

/// The summary that selects the rows `sel`, one line for each.
pub fn render(rows: &Vec<Row>, sel: &Vec<usize>) -> (out: String)
    requires
        forall|k: int| 0 <= k < sel.len() ==> #[trigger] sel[k] < rows.len(),
    ensures
        out@ == join_lines(summary_lines(row_views(rows@), sel@)),
{
    let ghost lines = summary_lines(row_views(rows@), sel@);
    let mut out = String::new();
    let mut k: usize = 0;
    proof {
        assert(lines.take(0) =~= Seq::<Seq<char>>::empty());
    }
    while k < sel.len()
        invariant
            k <= sel.len(),
            lines == summary_lines(row_views(rows@), sel@),
            forall|k: int| 0 <= k < sel.len() ==> #[trigger] sel[k] < rows.len(),
            out@ == join_lines(lines.take(k as int)),
        decreases sel.len() - k,
    {
        let line = caption_line(&rows[sel[k]].caption);
        proof {
            let prefix = lines.take(k + 1);
            assert(prefix.drop_last() =~= lines.take(k as int));
            assert(prefix.last() == line@);
            reveal_strlit("\n");
            assert("\n"@ =~= seq!['\n']);
            if k == 0 {
                assert(prefix[0] == line@);
                assert(out@ + line@ =~= line@);
            }
        }
        if k > 0 {
            out.append("\n");
        }
        out.append(line.as_str());
        k += 1;
    }
    proof {
        assert(lines.take(sel.len() as int) =~= lines);
    }
    out
}

/// The summary of the rows, where `weights` holds the weight of each
/// term of `table`, entry by entry: of every bucket that holds a row the
/// first row of the highest score, the buckets ascending, one line each.
pub fn summarize_weighted(rows: &Vec<Row>, table: &Vec<TermStats>, weights: &Vec<u64>) -> (out:
    String)
    ensures
        out@ == summary_of(row_views(rows@), table_terms(table@), weights@),
{
    let scores = score_rows(rows, table, weights);
    let sel = select_winners(rows, &scores);
    proof {
        let b = buckets_of(row_views(rows@));
        let s = scores_of(row_views(rows@), table_terms(table@), weights@);
        assert(is_selection(b, s, b.len() as int, sel@));
        lemma_selection_unique(b, s, sel@, selection(b, s));
        assert forall|k: int| 0 <= k < sel.len() implies #[trigger] sel[k] < rows.len() by {
            assert(is_winner(b, s, b.len() as int, sel@[k] as int));
        }
    }
    render(rows, &sel)
}

/// The summary is a function of the rows, the terms and the weights:
/// runs over the same captions with the same terms and the same weights
/// give the same text, character for character, whatever else differs.
pub proof fn lemma_summary_deterministic(
    first: Seq<Row>,
    second: Seq<Row>,
    first_table: Seq<TermStats>,
    second_table: Seq<TermStats>,
    weights: Seq<u64>,
)
    requires
        row_views(first) == row_views(second),
        table_terms(first_table) == table_terms(second_table),
    ensures
        summary_of(row_views(first), table_terms(first_table), weights) == summary_of(
            row_views(second),
            table_terms(second_table),
            weights,
        ),
{
}

/// No artifact of the transcription engine reaches a summary: every line
/// of the summary of the rows built from `captions` is the line of a
/// caption that is no artifact, and no two lines stand for one bucket.
pub proof fn lemma_artifacts_never_summarized(
    captions: Seq<CaptionView>,
    rows: Seq<RowView>,
    terms: Seq<Seq<char>>,
    weights: Seq<u64>,
    sel: Seq<usize>,
)
    requires
        rows_match(rows, candidates(captions)),
        is_selection(
            buckets_of(rows),
            scores_of(rows, terms, weights),
            rows.len() as int,
            sel,
        ),
    ensures
        sel == selection(buckets_of(rows), scores_of(rows, terms, weights)),
        forall|k: int|
            0 <= k < sel.len() ==> sel[k] < rows.len() && !is_artifact(
                rows[sel[k] as int].caption.text,
            ) && captions.contains(rows[sel[k] as int].caption) && #[trigger] summary_lines(
                rows,
                sel,
            )[k] == summary_line(rows[sel[k] as int].caption),
        forall|k: int, l: int|
            0 <= k < l < sel.len() ==> bucket_of(rows[sel[k] as int].start_time) < bucket_of(
                rows[sel[l] as int].start_time,
            ),
{
    let b = buckets_of(rows);
    let s = scores_of(rows, terms, weights);
    lemma_selection_unique(b, s, sel, selection(b, s));
    lemma_candidates_are_candidates(captions);
    assert forall|k: int| 0 <= k < sel.len() implies sel[k] < rows.len() && !is_artifact(
        rows[sel[k] as int].caption.text,
    ) && captions.contains(rows[sel[k] as int].caption) && #[trigger] summary_lines(rows, sel)[k]
        == summary_line(rows[sel[k] as int].caption) by {
        assert(is_winner(b, s, rows.len() as int, sel[k] as int));
        let w = sel[k] as int;
        assert(rows[w].caption == candidates(captions)[w]);
        assert(is_candidate(candidates(captions)[w]));
    }
    assert forall|k: int, l: int| 0 <= k < l < sel.len() implies bucket_of(
        rows[sel[k] as int].start_time,
    ) < bucket_of(rows[sel[l] as int].start_time) by {
        assert(is_winner(b, s, rows.len() as int, sel[k] as int));
        assert(is_winner(b, s, rows.len() as int, sel[l] as int));
        assert(b[sel[k] as int] < b[sel[l] as int]);
    }
}

/// The extractive summarizer, with the tokenizer that finds the terms.
pub struct TFIDFSummarizer<T: Tokenizer> {
    pub tokenizer: T,
}

impl<T: Tokenizer> TFIDFSummarizer<T> {
    /// The summarizer that finds its terms with `tokenizer`.
    pub fn new(tokenizer: T) -> (summarizer: TFIDFSummarizer<T>)
        ensures
            summarizer.tokenizer == tokenizer,
    {
        TFIDFSummarizer { tokenizer }
    }

    /// The rows of a transcript: its captions that take part in the
    /// summary, each with the terms that the tokenizer finds in it. Where
    /// the tokenizer fails, its message is the error; a transcript
    /// without such a caption has no rows.
    pub fn rows(&self, webvtt: &str) -> (result: Result<Vec<Row>, String>)
        ensures
            match result {
                Ok(rows) => rows_match(row_views(rows@), candidates(captions_of(webvtt@))),
                Err(_) => candidates(captions_of(webvtt@)).len() > 0,
            },
    {
        let captions = parse_webvtt(webvtt);
        build_rows(&self.tokenizer, &captions)
    }
}

} // verus!
