use greentic_mcp_client::text::{
    ascii_lowercase, char_is_whitespace, chars_of, contains_chars, split_lines, str_eq, string_of,
    trimmed,
};

const SAMPLES: &[&str] = &[
    "",
    "a",
    "a\n",
    "a\n\n",
    "\n",
    "\n\n",
    "a\r\nb\r\n",
    "a\rb",
    "one\ntwo\r\nthree",
    "trailing\r",
    " \u{a0}x\u{2003} ",
    "\u{3000}\t\u{85}",
    "data: {\"x\":1}\n\nevent: m\n",
];

#[test]
fn split_lines_agrees_with_std_lines() {
    for s in SAMPLES {
        let got: Vec<String> = split_lines(&chars_of(s)).iter().map(|l| string_of(l)).collect();
        let want: Vec<String> = s.lines().map(|l| l.to_string()).collect();
        assert_eq!(got, want, "lines of {s:?}");
    }
}

#[test]
fn trimmed_agrees_with_std_trim() {
    for s in SAMPLES {
        assert_eq!(string_of(&trimmed(&chars_of(s))), s.trim(), "trim of {s:?}");
    }
}

#[test]
fn whitespace_agrees_with_std() {
    for u in 0u32..0x3100 {
        if let Some(c) = char::from_u32(u) {
            assert_eq!(char_is_whitespace(c), c.is_whitespace(), "char {u:#x}");
        }
    }
}

#[test]
fn ascii_lowercase_agrees_with_std() {
    for s in ["Text/Event-Stream", "ÀÉ abc XYZ", ""] {
        assert_eq!(string_of(&ascii_lowercase(&chars_of(s))), s.to_ascii_lowercase());
    }
}

#[test]
fn contains_chars_finds_runs() {
    let hay = chars_of("text/event-stream; charset=utf-8");
    assert!(contains_chars(&hay, &chars_of("text/event-stream")));
    assert!(contains_chars(&hay, &chars_of("")));
    assert!(!contains_chars(&hay, &chars_of("application/json")));
    assert!(!contains_chars(&chars_of("ab"), &chars_of("abc")));
}

#[test]
fn str_eq_compares_characters() {
    assert!(str_eq("héllo", "héllo"));
    assert!(!str_eq("héllo", "hello"));
    assert!(!str_eq("a", "ab"));
    assert!(str_eq("", ""));
}
