use codecompass::intent::{classify_intent, is_error_query, is_path_query, is_symbol_query};
use codecompass::types::QueryIntent;

#[test]
fn test_symbol_intent() {
    assert_eq!(classify_intent("validate_token"), QueryIntent::Symbol);
    assert_eq!(classify_intent("AuthHandler"), QueryIntent::Symbol);
    assert_eq!(classify_intent("auth::jwt::validate"), QueryIntent::Symbol);
}

#[test]
fn test_path_intent() {
    assert_eq!(classify_intent("src/auth/handler.rs"), QueryIntent::Path);
    assert_eq!(classify_intent("handler.rs"), QueryIntent::Path);
}

#[test]
fn test_error_intent() {
    assert_eq!(classify_intent("\"connection refused\""), QueryIntent::Error);
    assert_eq!(classify_intent("error: cannot find module"), QueryIntent::Error);
}

#[test]
fn test_natural_language_intent() {
    assert_eq!(
        classify_intent("where is rate limiting implemented"),
        QueryIntent::NaturalLanguage
    );
    assert_eq!(
        classify_intent("how does authentication work"),
        QueryIntent::NaturalLanguage
    );
}

#[test]
fn two_word_kind_queries_are_symbols() {
    assert_eq!(classify_intent("fn validate"), QueryIntent::Symbol);
    assert_eq!(classify_intent("struct AuthHandler"), QueryIntent::Symbol);
}

#[test]
fn predicates_match_their_categories() {
    assert!(is_path_query("src/lib.rs"));
    assert!(!is_path_query("plain words"));
    assert!(is_error_query("thread 'main' panicked"));
    assert!(!is_error_query("quiet text"));
    assert!(is_symbol_query("snake_case"));
    assert!(!is_symbol_query("three plain words"));
}
