use clippa_rs::text::{decimal_string, join_with_newlines, lines_of, non_empty, trim_chars};

fn strings(v: &[&str]) -> Vec<String> {
    v.iter().map(|s| s.to_string()).collect()
}

#[test]
fn lines_split_like_str_lines() {
    assert_eq!(lines_of("a\r\nb\n\nc"), strings(&["a", "b", "", "c"]));
    assert_eq!(lines_of("a\nb\n"), strings(&["a", "b"]));
    assert_eq!(lines_of("\n"), strings(&[""]));
    assert!(lines_of("").is_empty());
}

#[test]
fn lines_match_std_on_mixed_content() {
    let s = "x\r\r\ny\rz\n\r\n last \n";
    let expected: Vec<String> = s.lines().map(|l| l.to_string()).collect();
    assert_eq!(lines_of(s), expected);
}

#[test]
fn trim_chars_strips_unicode_whitespace() {
    let cs: Vec<char> = " \t\u{a0}https://a.com\u{3000}\n".chars().collect();
    let t: String = trim_chars(&cs).into_iter().collect();
    assert_eq!(t, "https://a.com");
    let empty: Vec<char> = "  \n ".chars().collect();
    assert!(trim_chars(&empty).is_empty());
}

#[test]
fn join_with_newlines_and_non_empty() {
    assert_eq!(join_with_newlines(&strings(&["a", "", "b"])), "a\n\nb\n");
    assert_eq!(non_empty(strings(&["a", "", "b", ""])), strings(&["a", "b"]));
}

#[test]
fn decimal_string_writes_digits() {
    assert_eq!(decimal_string(0), "0");
    assert_eq!(decimal_string(7), "7");
    assert_eq!(decimal_string(1234), "1234");
    assert_eq!(decimal_string(usize::MAX), usize::MAX.to_string());
}
