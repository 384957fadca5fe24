use ramp::text::{contains, decimal_text, pop_char, push_char, push_str, truncate_chars};

#[test]
fn decimal_of_numbers() {
    assert_eq!(decimal_text(0), "0");
    assert_eq!(decimal_text(7), "7");
    assert_eq!(decimal_text(10), "10");
    assert_eq!(decimal_text(54200), "54200");
    assert_eq!(decimal_text(u64::MAX), "18446744073709551615");
}

#[test]
fn contains_finds_runs() {
    assert!(contains("hello ChatBot!", "ChatBot"));
    assert!(contains("ChatBot", "ChatBot"));
    assert!(!contains("Chat Bot", "ChatBot"));
    assert!(!contains("Chat", "ChatBot"));
    assert!(contains("anything", ""));
    assert!(contains("日本語テキスト", "テキ"));
}

#[test]
fn truncate_counts_characters() {
    assert_eq!(truncate_chars("Hello there world", 10), "Hello ther");
    assert_eq!(truncate_chars("short", 10), "short");
    assert_eq!(truncate_chars("日本語のテキストです。長い", 10), "日本語のテキストです");
}

#[test]
fn push_and_pop() {
    let mut s = String::from("ab");
    push_char(&mut s, 'c');
    assert_eq!(s, "abc");
    push_str(&mut s, "de");
    assert_eq!(s, "abcde");
    assert_eq!(pop_char(&mut s), Some('e'));
    assert_eq!(s, "abcd");
    let mut empty = String::new();
    assert_eq!(pop_char(&mut empty), None);
    assert_eq!(empty, "");
}
