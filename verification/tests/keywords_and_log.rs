use lib::lexical::keywords::Keywords;
use lib::lexical::token_type::TokenType;
use lib::throw::Error;

#[test]
fn every_reserved_word_is_found() {
    let k = Keywords::new();
    let table = [
        ("and", TokenType::And),
        ("async", TokenType::Async),
        ("await", TokenType::Await),
        ("else", TokenType::Else),
        ("enum", TokenType::Enum),
        ("false", TokenType::False),
        ("fn", TokenType::Fn),
        ("for", TokenType::For),
        ("if", TokenType::If),
        ("in", TokenType::In),
        ("let", TokenType::Let),
        ("match", TokenType::Match),
        ("null", TokenType::Null),
        ("or", TokenType::Or),
        ("return", TokenType::Return),
        ("struct", TokenType::Struct),
        ("true", TokenType::True),
        ("while", TokenType::While),
    ];
    for (word, kind) in table.iter() {
        assert_eq!(k.get(word), Some(kind));
    }
}

#[test]
fn other_words_are_not_reserved() {
    let k = Keywords::new();
    assert_eq!(k.get("foo"), None);
    assert_eq!(k.get("And"), None);
    assert_eq!(k.get(""), None);
    assert_eq!(k.get("iff"), None);
    assert_eq!(k.get("i"), None);
}

#[test]
fn no_reserved_word_is_the_end_marker() {
    let k = Keywords::default();
    for word in ["and", "while", "true", "null"].iter() {
        assert_ne!(k.get(word), Some(&TokenType::EndOfFile));
    }
}

#[test]
fn new_log_is_empty() {
    let e = Error::new();
    assert!(!e.has_error_occurred());
    assert!(e.get_errors().is_empty());
    let d = Error::default();
    assert!(!d.has_error_occurred());
    assert!(d.get_errors().is_empty());
}

#[test]
fn error_records_the_formatted_message() {
    let mut e = Error::new();
    e.error(3, "Something odd.");
    assert!(e.has_error_occurred());
    assert_eq!(e.get_errors().clone(), vec!["[Line 3] Error: Something odd.".to_string()]);
    e.error(0, "");
    e.error(12345678901, "big");
    assert_eq!(
        e.get_errors().clone(),
        vec![
            "[Line 3] Error: Something odd.".to_string(),
            "[Line 0] Error: ".to_string(),
            "[Line 12345678901] Error: big".to_string(),
        ]
    );
}

#[test]
fn clear_forgets_everything() {
    let mut e = Error::new();
    e.error(1, "a");
    e.error(2, "b");
    e.clear_errors();
    assert!(!e.has_error_occurred());
    assert!(e.get_errors().is_empty());
    e.error(4, "c");
    assert_eq!(e.get_errors().clone(), vec!["[Line 4] Error: c".to_string()]);
}

#[test]
fn printed_log() {
    let mut e = Error::new();
    assert_eq!(e.to_string(), "No errors reported.");
    e.error(1, "first");
    e.error(2, "second");
    assert_eq!(e.to_string(), "[Line 1] Error: first\n[Line 2] Error: second\n");
    e.clear_errors();
    assert_eq!(e.to_string(), "No errors reported.");
}
