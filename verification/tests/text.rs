use tool_agent::text::{
    contains, ends_with, find_first, find_last, matches_at, str_eq, strip_leading,
};

#[test]
fn matches_at_checks_position_and_bounds() {
    assert!(matches_at(b"hello world", b"world", 6));
    assert!(!matches_at(b"hello world", b"world", 5));
    assert!(!matches_at(b"hello world", b"world", 7));
    assert!(!matches_at(b"hello", b"hello!", 0));
    assert!(matches_at(b"hello", b"", 5));
    assert!(!matches_at(b"hello", b"", 6));
}

#[test]
fn find_first_gives_the_leftmost_position() {
    assert_eq!(find_first(b"abcabcabc", b"bc"), Some(1));
    assert_eq!(find_first(b"abcabcabc", b"abc"), Some(0));
    assert_eq!(find_first(b"abcabcabc", b"cab"), Some(2));
    assert_eq!(find_first(b"abcabcabc", b"x"), None);
    assert_eq!(find_first(b"ab", b"abc"), None);
    assert_eq!(find_first(b"abc", b""), Some(0));
    assert_eq!(find_first(b"", b""), Some(0));
}

#[test]
fn find_last_gives_the_rightmost_position() {
    assert_eq!(find_last(b"abcabcabc", b"bc"), Some(7));
    assert_eq!(find_last(b"abcabcabc", b"abc"), Some(6));
    assert_eq!(find_last(b"abcabcabc", b"x"), None);
    assert_eq!(find_last(b"````", b"```"), Some(1));
    assert_eq!(find_last(b"abc", b""), Some(3));
}

#[test]
fn find_agrees_with_the_standard_library() {
    let hay = "one ``` two ```json three ``` four";
    for pat in ["```", "```json", "t", "four", "five", " "] {
        assert_eq!(find_first(hay.as_bytes(), pat.as_bytes()), hay.find(pat));
        assert_eq!(find_last(hay.as_bytes(), pat.as_bytes()), hay.rfind(pat));
        assert_eq!(contains(hay.as_bytes(), pat.as_bytes()), hay.contains(pat));
        assert_eq!(ends_with(hay.as_bytes(), pat.as_bytes()), hay.ends_with(pat));
    }
}

#[test]
fn ends_with_checks_the_suffix() {
    assert!(ends_with(b"task [[[[DONE]]]]", b"[[[[DONE]]]]"));
    assert!(!ends_with(b"task [[[[DONE]]]] more", b"[[[[DONE]]]]"));
    assert!(!ends_with(b"DONE]]]]", b"[[[[DONE]]]]"));
    assert!(ends_with(b"abc", b""));
}

#[test]
fn strip_leading_removes_every_repetition() {
    assert_eq!(strip_leading(b"data: {}", b"data: "), b"{}");
    assert_eq!(strip_leading(b"data: data: {}", b"data: "), b"{}");
    assert_eq!(strip_leading(b"{} data: ", b"data: "), b"{} data: ");
    assert_eq!(strip_leading(b"data:", b"data: "), b"data:");
    assert_eq!(strip_leading(b"data: ", b"data: "), b"");
    assert_eq!(strip_leading(b"abc", b""), b"abc");
    assert_eq!(strip_leading(b"aaab", b"a"), b"b");
}

#[test]
fn strip_leading_agrees_with_the_standard_library() {
    for text in ["data: x", "data: data: data: x", "x", "", "data: ", "dat"] {
        assert_eq!(
            strip_leading(text.as_bytes(), b"data: "),
            text.trim_start_matches("data: ").as_bytes()
        );
    }
}

#[test]
fn str_eq_compares_text() {
    assert!(str_eq("required", "required"));
    assert!(!str_eq("required", "require"));
    assert!(!str_eq("required", "requireD"));
    assert!(str_eq("", ""));
    assert!(str_eq("h\u{e9}llo", "h\u{e9}llo"));
    assert!(!str_eq("h\u{e9}llo", "hello"));
}
