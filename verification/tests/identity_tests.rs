use ragchat::identity::{alpha_numeric, conversation_id, conversation_id_from_headers};
use ragchat::text::{eq_ignore_ascii_case, first_x_chars};

#[test]
fn conversation_id_normalizes_punctuation() {
    assert_eq!(conversation_id("user@42"), "user-42");
}

#[test]
fn conversation_id_keeps_alphanumerics() {
    assert_eq!(conversation_id("Alice99"), "Alice99");
}

#[test]
fn conversation_id_truncates_to_48() {
    let long: String = "a".repeat(60);
    let id = conversation_id(&long);
    assert_eq!(id.chars().count(), 48);
    assert!(id.chars().all(|c| c == 'a'));
}

#[test]
fn conversation_id_replaces_non_ascii() {
    assert_eq!(conversation_id("héllo wörld"), "h-llo-w-rld");
}

#[test]
fn alpha_numeric_replaces_each_symbol() {
    assert_eq!(alpha_numeric("a.b/c_d"), "a-b-c-d");
    assert_eq!(alpha_numeric(""), "");
}

#[test]
fn header_scan_is_case_insensitive() {
    let headers = vec![
        ("content-type".to_string(), "text/plain".to_string()),
        ("X-Conversation-Name".to_string(), "user@42".to_string()),
        ("x-conversation-name".to_string(), "other".to_string()),
    ];
    assert_eq!(conversation_id_from_headers(&headers), "user-42");
}

#[test]
fn header_scan_without_match_gives_empty_id() {
    let headers = vec![("content-type".to_string(), "text/plain".to_string())];
    assert_eq!(conversation_id_from_headers(&headers), "");
}

#[test]
fn first_x_chars_counts_code_points() {
    assert_eq!(first_x_chars("héllo", 2), "hé");
    assert_eq!(first_x_chars("hi", 10), "hi");
}

#[test]
fn ascii_case_insensitive_equality() {
    assert!(eq_ignore_ascii_case("AbC", "aBc"));
    assert!(!eq_ignore_ascii_case("abc", "abd"));
    assert!(!eq_ignore_ascii_case("abc", "ab"));
}
