use markflow::text::{
    chars_of, ends_with, is_whitespace, push_decimal, push_hex_fixed, starts_with, trim,
    trim_end_matches_char,
};
use markflow::json::{push_json_string, push_json_string_array};

#[test]
fn trim_removes_ascii_white_space_at_both_ends() {
    assert_eq!(trim("  a b \t\n"), "a b");
    assert_eq!(trim(""), "");
    assert_eq!(trim(" \r\n\t "), "");
}

#[test]
fn trim_removes_unicode_white_space_like_str_trim() {
    let s = "\u{3000}\u{a0}x y\u{2028}\u{85}\u{205f}";
    assert_eq!(trim(s), s.trim());
    assert_eq!(trim(s), "x y");
    // U+200B is not white space
    assert_eq!(trim("\u{200b}x"), "\u{200b}x");
}

#[test]
fn whitespace_matches_char_is_whitespace_everywhere() {
    for code in 0u32..0x3100 {
        if let Some(c) = char::from_u32(code) {
            assert_eq!(is_whitespace(c), c.is_whitespace(), "code {:x}", code);
        }
    }
}

#[test]
fn trim_end_matches_char_drops_every_trailing_copy() {
    assert_eq!(trim_end_matches_char("https://a.b///", '/'), "https://a.b");
    assert_eq!(trim_end_matches_char("///", '/'), "");
    assert_eq!(trim_end_matches_char("a/b", '/'), "a/b");
}

#[test]
fn prefix_and_suffix_tests() {
    assert!(starts_with("https://x", "http"));
    assert!(!starts_with("htt", "http"));
    assert!(!starts_with("ftp://x", "http"));
    assert!(starts_with("anything", ""));
    assert!(ends_with("a/chat/completions", "/chat/completions"));
    assert!(!ends_with("a/chat/completion", "/chat/completions"));
    assert!(!ends_with("s", "/chat/completions"));
}

#[test]
fn chars_of_keeps_every_character() {
    assert_eq!(chars_of("aé中"), vec!['a', 'é', '中']);
}

#[test]
fn decimal_rendering() {
    let mut s = String::from("n=");
    push_decimal(&mut s, 0);
    assert_eq!(s, "n=0");
    let mut s = String::new();
    push_decimal(&mut s, 1712345678901);
    assert_eq!(s, "1712345678901");
    let mut s = String::new();
    push_decimal(&mut s, u64::MAX);
    assert_eq!(s, u64::MAX.to_string());
}

#[test]
fn hex_rendering_is_zero_padded_lowercase() {
    let mut s = String::new();
    push_hex_fixed(&mut s, 255, 16);
    assert_eq!(s, "00000000000000ff");
    let mut s = String::new();
    push_hex_fixed(&mut s, 0xdead_beef_0123_4567, 16);
    assert_eq!(s, format!("{:016x}", 0xdead_beef_0123_4567u64));
}

#[test]
fn json_string_escaping_matches_serde_json() {
    let samples = [
        "plain",
        "quote \" and backslash \\",
        "controls \u{8}\u{c}\n\r\t \u{1} \u{1f} \u{7f}",
        "unicode é 中 \u{2028}",
        "",
    ];
    for sample in samples {
        let mut s = String::new();
        push_json_string(&mut s, sample);
        assert_eq!(s, serde_json::to_string(sample).unwrap());
    }
    let mut s = String::new();
    push_json_string(&mut s, "a\"b\\c\n\u{1}");
    assert_eq!(s, "\"a\\\"b\\\\c\\n\\u0001\"");
}

#[test]
fn json_string_arrays() {
    let mut s = String::new();
    push_json_string_array(&mut s, &vec![]);
    assert_eq!(s, "[]");
    let mut s = String::new();
    push_json_string_array(&mut s, &vec!["a".to_string(), "b\"".to_string()]);
    assert_eq!(s, "[\"a\",\"b\\\"\"]");
}
