use meetnote::webvtt::{find_timing, parse_webvtt, Caption};

fn caption(start: &str, end: &str, text: &str) -> Caption {
    Caption::new(start.to_string(), end.to_string(), text.to_string())
}

#[test]
fn parses_webvtt() {
    let input = "WEBVTT

00:00:00.000 --> 00:00:09.300
Caption text

00:00:09.300 --> 00:00:18.140
More caption text";

    let result = parse_webvtt(input);

    assert_eq!(
        result,
        vec![
            Caption {
                start_time: "00:00:00.000".to_string(),
                end_time: "00:00:09.300".to_string(),
                text: "Caption text".to_string()
            },
            Caption {
                start_time: "00:00:09.300".to_string(),
                end_time: "00:00:18.140".to_string(),
                text: "More caption text".to_string()
            }
        ]
    );
}

#[test]
fn parse_start_time_gives_milliseconds() {
    assert_eq!(caption("00:00:00.000", "", "a").parse_start_time(), 0);
    assert_eq!(caption("00:00:33.000", "", "a").parse_start_time(), 33_000);
    assert_eq!(caption("00:03:03.000", "", "a").parse_start_time(), 183_000);
    assert_eq!(caption("01:02:03.456", "", "a").parse_start_time(), 3_723_456);
    assert_eq!(caption("99:59:59.999", "", "a").parse_start_time(), 359_999_999);
}

#[test]
fn start_time_is_checked_before_it_is_parsed() {
    assert!(caption("00:00:09.300", "", "a").has_start_time());
    assert!(!caption("", "", "a").has_start_time());
    assert!(!caption("0:00:09.300", "", "a").has_start_time());
    assert!(!caption("00:00:09,300", "", "a").has_start_time());
    assert!(!caption("00:00:09.3000", "", "a").has_start_time());
    assert!(!caption("00:00:0a.300", "", "a").has_start_time());
    assert_eq!(caption("00:00:09.300", "", "a").start_time_ms(), Some(9_300));
    assert_eq!(caption("later", "", "a").start_time_ms(), None);
}

#[test]
fn several_text_lines_share_one_timing() {
    let result = parse_webvtt("WEBVTT\n\n00:00:01.000 --> 00:00:02.000\nfirst\nsecond\n");
    assert_eq!(
        result,
        vec![
            caption("00:00:01.000", "00:00:02.000", "first"),
            caption("00:00:01.000", "00:00:02.000", "second"),
        ]
    );
}

#[test]
fn text_before_the_first_timing_has_no_time() {
    let result = parse_webvtt("Kind: captions\n00:00:01.000 --> 00:00:02.000\nhello");
    assert_eq!(
        result,
        vec![caption("", "", "Kind: captions"), caption("00:00:01.000", "00:00:02.000", "hello")]
    );
}

#[test]
fn caption_text_is_trimmed() {
    let result = parse_webvtt("00:00:01.000 --> 00:00:02.000\n  \thello world \u{3000}\n");
    assert_eq!(result, vec![caption("00:00:01.000", "00:00:02.000", "hello world")]);
}

#[test]
fn a_line_of_white_space_is_an_empty_caption() {
    let result = parse_webvtt("00:00:01.000 --> 00:00:02.000\n   \n");
    assert_eq!(result, vec![caption("00:00:01.000", "00:00:02.000", "")]);
}

#[test]
fn carriage_returns_end_lines_too() {
    let result = parse_webvtt("WEBVTT\r\n\r\n00:00:01.000 --> 00:00:02.000\r\nhello\r\n");
    assert_eq!(result, vec![caption("00:00:01.000", "00:00:02.000", "hello")]);
}

#[test]
fn a_timing_may_stand_anywhere_in_its_line() {
    let result =
        parse_webvtt("cue 1: 00:00:01.000 --> 00:00:02.000 align:start\nhello");
    assert_eq!(result, vec![caption("00:00:01.000", "00:00:02.000", "hello")]);
}

#[test]
fn the_leftmost_timing_of_a_line_counts() {
    let line: Vec<char> =
        "x00:00:01.000 --> 00:00:02.000 00:00:03.000 --> 00:00:04.000".chars().collect();
    assert_eq!(find_timing(&line), Some(1));
    let none: Vec<char> = "00:00:01.000 -> 00:00:02.000".chars().collect();
    assert_eq!(find_timing(&none), None);
    let short: Vec<char> = "00:00:01.000 --> 00:00:02.00".chars().collect();
    assert_eq!(find_timing(&short), None);
}

#[test]
fn a_malformed_timing_is_caption_text() {
    let result = parse_webvtt("00:00:01.000 --> 00:00:02.000\n00:00:03,000 --> 00:00:04,000\n");
    assert_eq!(
        result,
        vec![caption("00:00:01.000", "00:00:02.000", "00:00:03,000 --> 00:00:04,000")]
    );
}

#[test]
fn the_header_is_no_caption_only_when_alone_on_its_line() {
    let result = parse_webvtt("WEBVTT\nWEBVTT \n");
    assert_eq!(result, vec![caption("", "", "WEBVTT")]);
    assert_eq!(parse_webvtt(""), vec![]);
}
