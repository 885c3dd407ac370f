use siphon::text::{
    collapse, contains, ends_with, is_whitespace, join, lines, replace, same, split,
    split_whitespace, starts_with, to_ascii_lower, to_ascii_upper, trim,
};

const SAMPLES: [&str; 14] = [
    "",
    " ",
    "a",
    " a ",
    "\t a b\r\n",
    "one  two\u{a0}three",
    "a\nb\r\nc",
    "a\nb\r\nc\n",
    "\r\n",
    "x\r",
    "\u{3000}wide\u{2003}",
    "aaa",
    "@@a@@@@b",
    "\u{1f600} smile \u{85}",
];

#[test]
fn white_space_is_that_of_char() {
    for code in 0..=0x10ffffu32 {
        if let Some(c) = char::from_u32(code) {
            assert_eq!(is_whitespace(c), c.is_whitespace(), "{code:x}");
        }
    }
}

#[test]
fn trimming_matches_str_trim() {
    for s in SAMPLES {
        assert_eq!(trim(s), s.trim());
    }
    assert_eq!(trim("  a b  "), "a b");
}

#[test]
fn words_match_split_whitespace() {
    for s in SAMPLES {
        let expected: Vec<String> = s.split_whitespace().map(String::from).collect();
        assert_eq!(split_whitespace(s), expected);
    }
}

#[test]
fn lines_match_str_lines() {
    for s in SAMPLES {
        let expected: Vec<String> = s.lines().map(String::from).collect();
        assert_eq!(lines(s), expected);
    }
}

#[test]
fn splitting_matches_str_split() {
    for s in SAMPLES {
        for sep in ["@@", "a", "\n", "aa"] {
            let expected: Vec<String> = s.split(sep).map(String::from).collect();
            assert_eq!(split(s, sep), expected, "{s:?} {sep:?}");
        }
    }
}

#[test]
fn replacing_matches_str_replace() {
    for s in SAMPLES {
        for (from, to) in [("a", "bb"), ("aa", ""), ("%20", " "), ("\n", "-")] {
            assert_eq!(replace(s, from, to), s.replace(from, to));
        }
    }
    assert_eq!(replace("a%20b%20c", "%20", " "), "a b c");
}

#[test]
fn searching_matches_str() {
    for s in SAMPLES {
        for p in ["", "a", "b", "@@", "\n", "one"] {
            assert_eq!(contains(s, p), s.contains(p));
            assert_eq!(starts_with(s, p), s.starts_with(p));
            assert_eq!(ends_with(s, p), s.ends_with(p));
            assert_eq!(same(s, p), s == p);
        }
    }
}

#[test]
fn collapsing_leaves_single_blanks() {
    assert_eq!(collapse("  a \t b\n\nc "), "a b c");
    assert_eq!(collapse(" \n "), "");
    assert_eq!(join(&vec!["a".to_string(), "b".to_string()], ", "), "a, b");
    assert_eq!(join(&Vec::new(), ", "), "");
}

#[test]
fn ascii_case_changes_letters_only() {
    for code in 0..0x250u32 {
        let c = char::from_u32(code).unwrap();
        assert_eq!(to_ascii_lower(c), c.to_ascii_lowercase());
        assert_eq!(to_ascii_upper(c), c.to_ascii_uppercase());
    }
}
