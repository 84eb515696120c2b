use meetnote::tf_idf_summarizer::{
    artifact, build_rows, caption_line, caption_score, count_tokens, find_term, render,
    score_rows, select_captions, select_winners, summarize_weighted, term_document_frequency,
    term_occurrences, term_table, term_weight, Row, TFIDFSummarizer, TermStats,
};
use meetnote::tokenizer::{drop_single_characters, Tokenizer};
use meetnote::webvtt::{parse_webvtt, Caption};

struct Words;

impl Tokenizer for Words {
    fn tokenize(&self, src: String) -> Result<Vec<String>, String> {
        Ok(drop_single_characters(src.split_whitespace().map(|w| w.to_string()).collect()))
    }
}

struct Broken;

impl Tokenizer for Broken {
    fn tokenize(&self, _src: String) -> Result<Vec<String>, String> {
        Err("no dictionary".to_string())
    }
}

const SCALE: f64 = 4294967296.0;

fn weights(table: &Vec<TermStats>, documents: usize) -> Vec<u64> {
    let n = documents as f64;
    table
        .iter()
        .map(|t| {
            let tf = t.occurrences as f64 / n;
            let idf = (n / t.document_frequency as f64).ln();
            (tf * idf * SCALE) as u64
        })
        .collect()
}

fn summarize(webvtt: &str) -> String {
    let summarizer = TFIDFSummarizer::new(Words);
    let rows = summarizer.rows(webvtt).unwrap();
    let table = term_table(&rows);
    let weights = weights(&table, rows.len());
    summarize_weighted(&rows, &table, &weights)
}

fn caption(start: &str, text: &str) -> Caption {
    Caption::new(start.to_string(), "".to_string(), text.to_string())
}

fn row(start: &str, tokens: &[&str]) -> Row {
    Row::new(caption(start, &tokens.join(" ")), tokens.iter().map(|t| t.to_string()).collect())
}

fn strings(v: &[&str]) -> Vec<String> {
    v.iter().map(|s| s.to_string()).collect()
}

const EIGHT: &str = "WEBVTT

00:00:01.000 --> 00:00:02.000
meeting alpha

00:00:10.000 --> 00:00:12.000
meeting beta gamma

00:01:00.000 --> 00:01:02.000
meeting delta epsilon zeta

00:02:59.999 --> 00:03:02.000
meeting eta

00:03:00.000 --> 00:03:02.000
meeting theta

00:04:00.000 --> 00:04:02.000
meeting iota kappa lambda mu

00:05:00.000 --> 00:05:02.000
meeting nu xi

00:05:59.000 --> 00:06:02.000
meeting omicron
";

#[test]
fn the_repeated_term_does_not_decide() {
    assert_eq!(
        summarize(EIGHT),
        "[00:01:00.000] meeting delta epsilon zeta\n[00:04:00.000] meeting iota kappa lambda mu"
    );
}

#[test]
fn terms_are_counted_over_the_whole_document() {
    let rows = TFIDFSummarizer::new(Words).rows(EIGHT).unwrap();
    assert_eq!(rows.len(), 8);
    assert_eq!(rows[3].start_time, 179_999);
    assert_eq!(rows[4].start_time, 180_000);
    let table = term_table(&rows);
    assert_eq!(table.len(), 16);
    assert_eq!(table[0].term, "meeting");
    assert_eq!(table[0].occurrences, 8);
    assert_eq!(table[0].document_frequency, 8);
    assert_eq!(table[1].term, "alpha");
    assert_eq!(table[1].occurrences, 1);
    assert_eq!(table[1].document_frequency, 1);
    let w = weights(&table, rows.len());
    assert_eq!(w[0], 0);
    assert_eq!(w[1], 1116391676);
    assert_eq!(caption_score(&rows[2].tokens, &table, &w), 3 * 1116391676);
    assert_eq!(caption_score(&rows[0].tokens, &table, &w), 1116391676);
    let scores = score_rows(&rows, &table, &w);
    assert_eq!(scores[5], 4 * 1116391676);
    assert_eq!(select_winners(&rows, &scores), vec![2, 5]);
}

#[test]
fn a_term_that_repeats_inside_a_caption_counts_each_time() {
    let rows = vec![row("00:00:00.000", &["aa", "bb", "aa"]), row("00:00:01.000", &["bb", "cc"])];
    let aa = "aa".to_string();
    let bb = "bb".to_string();
    let zz = "zz".to_string();
    assert_eq!(count_tokens(&rows[0].tokens, &aa), 2);
    assert_eq!(term_occurrences(&rows, &aa), 2);
    assert_eq!(term_document_frequency(&rows, &aa), 1);
    assert_eq!(term_occurrences(&rows, &bb), 2);
    assert_eq!(term_document_frequency(&rows, &bb), 2);
    assert_eq!(term_occurrences(&rows, &zz), 0);
    assert_eq!(term_document_frequency(&rows, &zz), 0);
    let table = term_table(&rows);
    let terms: Vec<&str> = table.iter().map(|t| t.term.as_str()).collect();
    assert_eq!(terms, vec!["aa", "bb", "cc"]);
    assert_eq!(find_term(&table, &bb), Some(1));
    assert_eq!(find_term(&table, &zz), None);
    let w = weights(&table, 2);
    // aa: tf = 2/2, idf = ln 2; bb: idf = 0; cc: tf = 1/2, idf = ln 2
    assert_eq!(w, vec![2977044471, 0, 1488522235]);
    assert_eq!(term_weight(&table, &w, &aa), 2977044471);
    assert_eq!(term_weight(&table, &w, &zz), 0);
    assert_eq!(caption_score(&rows[0].tokens, &table, &w), 2 * 2977044471);
    assert_eq!(caption_score(&rows[1].tokens, &table, &w), 1488522235);
}

#[test]
fn a_term_without_a_weight_weighs_nothing() {
    let rows = vec![row("00:00:00.000", &["aa", "bb"])];
    let table = term_table(&rows);
    assert_eq!(caption_score(&rows[0].tokens, &table, &vec![7]), 7);
    assert_eq!(caption_score(&rows[0].tokens, &table, &vec![]), 0);
    assert_eq!(caption_score(&rows[0].tokens, &table, &vec![u64::MAX, u64::MAX]),
        2 * (u64::MAX as u128));
}

#[test]
fn artifacts_never_reach_the_summary() {
    let webvtt = "WEBVTT

00:00:01.000 --> 00:00:02.000
ご視聴ありがとうございました

00:03:01.000 --> 00:03:02.000
(ボタンを押す音)

00:06:01.000 --> 00:06:02.000
real words here

00:06:02.000 --> 00:06:03.000
ご視聴ありがとうございました
";
    assert_eq!(summarize(webvtt), "[00:06:01.000] real words here");
    assert!(artifact("ご視聴ありがとうございました"));
    assert!(artifact("(ボタンを押す音)"));
    assert!(!artifact("ご視聴ありがとうございました。"));
    assert!(!artifact(""));
}

#[test]
fn a_transcript_of_artifacts_has_an_empty_summary() {
    let webvtt = "WEBVTT\n\n00:00:01.000 --> 00:00:02.000\nご視聴ありがとうございました\n";
    assert_eq!(summarize(webvtt), "");
    assert_eq!(summarize(""), "");
    let rows = build_rows(&Broken, &parse_webvtt(webvtt)).unwrap();
    assert_eq!(rows.len(), 0);
}

#[test]
fn captions_without_a_time_or_with_an_artifact_are_set_aside() {
    let captions = vec![
        caption("", "before any timing"),
        caption("00:00:01.000", "kept"),
        caption("00:00:02.000", "(ボタンを押す音)"),
        caption("0:0:3", "no timecode"),
        caption("00:00:04.000", "kept too"),
    ];
    assert_eq!(
        select_captions(&captions),
        vec![caption("00:00:01.000", "kept"), caption("00:00:04.000", "kept too")]
    );
}

#[test]
fn ties_keep_the_first_caption() {
    let rows = vec![
        row("00:00:00.000", &[]),
        row("00:00:01.000", &["aa"]),
        row("00:00:02.000", &["bb"]),
        row("00:03:00.000", &[]),
        row("00:03:01.000", &[]),
    ];
    assert_eq!(select_winners(&rows, &vec![0, 5, 5, 0, 0]), vec![1, 3]);
    assert_eq!(select_winners(&rows, &vec![9, 5, 5, 0, 1]), vec![0, 4]);
    assert_eq!(select_winners(&vec![], &vec![]), Vec::<usize>::new());
}

#[test]
fn a_caption_without_terms_wins_only_among_its_like() {
    let webvtt = "WEBVTT

00:00:01.000 --> 00:00:02.000
a

00:00:02.000 --> 00:00:03.000
b

00:03:01.000 --> 00:03:02.000
c

00:03:02.000 --> 00:03:03.000
some words
";
    assert_eq!(summarize(webvtt), "[00:00:01.000] a\n[00:03:02.000] some words");
}

#[test]
fn buckets_come_out_in_ascending_order_whatever_the_order_of_the_captions() {
    let rows = vec![
        row("00:09:00.000", &["aa"]),
        row("00:00:00.000", &["bb"]),
        row("00:03:00.000", &["cc"]),
        row("00:09:30.000", &["dd"]),
        row("00:00:30.000", &["ee"]),
    ];
    assert_eq!(select_winners(&rows, &vec![1, 1, 1, 2, 2]), vec![4, 2, 3]);
    assert_eq!(
        render(&rows, &vec![4, 2, 3]),
        "[00:00:30.000] ee\n[00:03:00.000] cc\n[00:09:30.000] dd"
    );
    assert_eq!(render(&rows, &vec![]), "");
    assert_eq!(caption_line(&rows[0].caption), "[00:09:00.000] aa");
}

#[test]
fn the_same_transcript_gives_the_same_summary() {
    let first = summarize(EIGHT);
    let second = summarize(EIGHT);
    assert_eq!(first, second);
    assert_eq!(first.as_bytes(), second.as_bytes());
}

#[test]
fn a_failing_tokenizer_fails_the_rows() {
    let result = TFIDFSummarizer::new(Broken).rows(EIGHT);
    assert_eq!(result.err(), Some("no dictionary".to_string()));
    let none = build_rows(&Broken, &vec![caption("", "untimed")]);
    assert!(none.is_ok());
}

#[test]
fn single_characters_are_no_terms() {
    assert_eq!(
        drop_single_characters(strings(&["a", "bc", "", "漢", "漢字", "d", "ef"])),
        strings(&["bc", "", "漢字", "ef"])
    );
    assert_eq!(drop_single_characters(vec![]), Vec::<String>::new());
}

#[test]
fn an_english_transcript_is_summarized_by_its_richest_captions() {
    let webvtt = r#"
WEBVTT

00:00:00.000 --> 00:00:06.000
Hello~

00:00:07.000 --> 00:00:10.000
Hello.

00:00:11.000 --> 00:00:16.000
What programming languages are hot recently?

00:00:20.000 --> 00:00:25.000
I guess it would be Rust, right?

00:00:26.000 --> 00:00:29.000
What's so good about Rust?

00:00:26.000 --> 00:00:29.000
Well, its speed, of course. And it can handle memory efficiently.

00:00:30.000 --> 00:00:32.000
Ah.

00:00:33.000 --> 00:00:39.000
The speed is definitely good, and it's also nice that it supports Tauri.

00:03:03.000 --> 00:03:09.000
By the way, have you been going out for Yakiniku (Japanese BBQ) lately?

00:03:10.000 --> 00:03:15.000
Ah.

00:04:00.000 --> 00:04:06.000
What do you like when it comes to Yakiniku?

00:04:07.000 --> 00:04:14.000
I guess it's Kalbi, right？

00:04:15.000 --> 00:04:22.000
Kalbi is indeed delicious.

00:05:10.000 --> 00:05:16.000
I also like Tan-shio (salted tongue).
"#;
    assert_eq!(
        summarize(webvtt),
        "[00:00:33.000] The speed is definitely good, and it's also nice that it supports Tauri.\n[00:03:03.000] By the way, have you been going out for Yakiniku (Japanese BBQ) lately?"
    );
}
