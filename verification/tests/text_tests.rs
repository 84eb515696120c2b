use meetnote::text::{
    from_chars, glue, push_text, remove_all, same_chars, same_text, slice_to_string,
    split_lines, to_chars, trim_bounds, white_space,
};

fn chars(s: &str) -> Vec<char> {
    s.chars().collect()
}

fn lines(s: &str) -> Vec<String> {
    split_lines(&chars(s)).iter().map(|l| l.iter().collect()).collect()
}

#[test]
fn strings_and_characters_convert_both_ways() {
    assert_eq!(to_chars("aé漢"), vec!['a', 'é', '漢']);
    assert_eq!(from_chars(&vec!['a', 'é', '漢']), "aé漢");
    assert_eq!(from_chars(&vec![]), "");
    assert_eq!(slice_to_string(&chars("hello"), 1, 3), "el");
    assert_eq!(glue("ab", "cd"), "abcd");
}

#[test]
fn equal_texts_are_told_from_unequal_ones() {
    assert!(same_text("abc", "abc"));
    assert!(!same_text("abc", "abd"));
    assert!(!same_text("abc", "ab"));
    assert!(same_chars(&chars(""), &chars("")));
    assert!(!same_chars(&chars("a"), &chars("b")));
}

#[test]
fn lines_split_as_the_standard_library_splits_them() {
    for text in [
        "",
        "\n",
        "a",
        "a\n",
        "a\nb",
        "a\n\nb\n",
        "a\r\nb\r\n",
        "a\rb\n",
        "a\r",
        "\r\n",
        "a\n\r",
        "\n\n",
        "x\r\r\ny",
    ] {
        let expected: Vec<String> = text.lines().map(|l| l.to_string()).collect();
        assert_eq!(lines(text), expected, "{:?}", text);
    }
}

#[test]
fn white_space_is_what_the_standard_library_calls_so() {
    let mut n: u32 = 0;
    while n <= 0x3100 {
        if let Some(c) = char::from_u32(n) {
            assert_eq!(white_space(c), c.is_whitespace(), "{:?}", c);
        }
        n += 1;
    }
}

#[test]
fn trimming_drops_white_space_at_both_ends() {
    for text in ["", "  ", "a", " a", "a ", " a b \t", "\u{3000}x\u{a0}", "\n"] {
        let v = chars(text);
        let (from, to) = trim_bounds(&v);
        let trimmed: String = v[from..to].iter().collect();
        assert_eq!(trimmed, text.trim(), "{:?}", text);
    }
}

#[test]
fn texts_are_appended() {
    let mut v: Vec<String> = Vec::new();
    push_text(&mut v, "a");
    push_text(&mut v, "bc");
    assert_eq!(v, vec!["a", "bc"]);
}

#[test]
fn occurrences_are_removed_from_left_to_right() {
    for (text, pat) in [
        ("a.vtt", ".vtt"),
        ("a.vtt/b.vtt", ".vtt"),
        ("aaa", "aa"),
        ("abc", ""),
        ("", "x"),
        (".vt", ".vtt"),
        ("..vtt.vttt", ".vtt"),
        ("ababab", "ab"),
    ] {
        let out: String = remove_all(&chars(text), &chars(pat)).iter().collect();
        let expected = if pat.is_empty() { text.to_string() } else { text.replace(pat, "") };
        assert_eq!(out, expected, "{:?} {:?}", text, pat);
    }
}
