use zenith_gateway::text::{eq_ignore_ascii_case, first_line_of, first_two_words, push_decimal, same_text, starts_with};

#[test]
fn prefix_checks() {
    assert!(starts_with("/api/users", "/api"));
    assert!(starts_with("abc", ""));
    assert!(!starts_with("/ap", "/api"));
    assert!(starts_with("héllo", "hé"));
}

#[test]
fn ascii_case_folding() {
    assert!(eq_ignore_ascii_case("GeT", "gEt"));
    assert!(!eq_ignore_ascii_case("GET", "GETS"));
    assert!(!eq_ignore_ascii_case("É", "é"));
    assert!(eq_ignore_ascii_case("", ""));
}

#[test]
fn text_equality() {
    assert!(same_text("/health", "/health"));
    assert!(!same_text("/health", "/Health"));
}

#[test]
fn first_line_like_lines() {
    assert_eq!(first_line_of(""), None);
    assert_eq!(first_line_of("GET / HTTP/1.1\r\nHost: x\r\n"), Some("GET / HTTP/1.1"));
    assert_eq!(first_line_of("GET /\nrest"), Some("GET /"));
    assert_eq!(first_line_of("\nrest"), Some(""));
    assert_eq!(first_line_of("no newline\r"), Some("no newline\r"));
    for text in ["a\r\r\nb", "x", "\r\n", "é\n"] {
        assert_eq!(first_line_of(text), text.lines().next());
    }
}

#[test]
fn two_words_like_split_whitespace() {
    assert_eq!(
        first_two_words("  GET\t/index  HTTP/1.1"),
        Some(("GET".to_string(), "/index".to_string()))
    );
    assert_eq!(first_two_words("GET"), None);
    assert_eq!(first_two_words("   "), None);
    assert_eq!(first_two_words("a\u{3000}b"), Some(("a".to_string(), "b".to_string())));
}

#[test]
fn decimal_text() {
    let mut s = String::from("n=");
    push_decimal(&mut s, 0);
    assert_eq!(s, "n=0");
    let mut s = String::new();
    push_decimal(&mut s, 1234567890);
    assert_eq!(s, "1234567890");
}
