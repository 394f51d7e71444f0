use vstd::prelude::*;
use crate::strutil::{
    contains_char, contains_str, ends_with, is_ascii_upper, is_ident_char, lower_seq,
    seq_contains_char, seq_contains_seq, seq_ends_with, split_words, to_ascii_lower, trim_spaces,
    trimmed, words_of,
};
use crate::types::QueryIntent;

verus! {

// ---------------------------------------------------------------------------
// Query intent classification: path, error text, symbol, or natural language.
// ---------------------------------------------------------------------------

/// The query names a file: a separator, or a known source extension.
pub open spec fn path_query(s: Seq<char>) -> bool {
    ||| seq_contains_char(s, '/')
    ||| seq_contains_char(s, '\\')
    ||| seq_ends_with(s, ".rs"@)
    ||| seq_ends_with(s, ".ts"@)
    ||| seq_ends_with(s, ".tsx"@)
    ||| seq_ends_with(s, ".js"@)
    ||| seq_ends_with(s, ".jsx"@)
    ||| seq_ends_with(s, ".py"@)
    ||| seq_ends_with(s, ".go"@)
    ||| seq_ends_with(s, ".java"@)
    ||| seq_ends_with(s, ".c"@)
    ||| seq_ends_with(s, ".h"@)
    ||| seq_ends_with(s, ".cpp"@)
    ||| seq_ends_with(s, ".rb"@)
    ||| seq_ends_with(s, ".swift"@)
}

/// The query looks like quoted or diagnostic text.
pub open spec fn error_query(s: Seq<char>) -> bool {
    ||| seq_contains_char(s, '"')
    ||| seq_contains_char(s, '\'')
    ||| seq_contains_seq(s, "error:"@)
    ||| seq_contains_seq(s, "Error:"@)
    ||| seq_contains_seq(s, "panic:"@)
    ||| seq_contains_seq(s, "FATAL"@)
    ||| seq_contains_seq(s, "exception"@)
    ||| seq_contains_seq(s, "Exception"@)
    ||| seq_contains_seq(s, "traceback"@)
    ||| seq_contains_seq(s, "at line"@)
    ||| seq_contains_seq(s, "thread '"@)
}

/// A single word shaped like an identifier or qualified name.
pub open spec fn symbol_word(w: Seq<char>) -> bool {
    ||| (w.len() > 1 && exists|i: int| 1 <= i < w.len() && is_ascii_upper(#[trigger] w[i]))
    ||| seq_contains_char(w, '_')
    ||| seq_contains_seq(w, "::"@)
    ||| (seq_contains_char(w, '.') && !path_query(w))
    ||| ((forall|i: int| 0 <= i < w.len() ==> is_ident_char(#[trigger] w[i])) && w.len() > 2)
}

/// A word naming a declaration kind, lower-cased.
pub open spec fn kind_word(w: Seq<char>) -> bool {
    ||| lower_seq(w) == "fn"@
    ||| lower_seq(w) == "func"@
    ||| lower_seq(w) == "function"@
    ||| lower_seq(w) == "struct"@
    ||| lower_seq(w) == "class"@
    ||| lower_seq(w) == "enum"@
    ||| lower_seq(w) == "trait"@
    ||| lower_seq(w) == "interface"@
    ||| lower_seq(w) == "type"@
    ||| lower_seq(w) == "const"@
    ||| lower_seq(w) == "method"@
}

/// The query looks like a symbol lookup.
pub open spec fn symbol_query(s: Seq<char>) -> bool {
    ||| (words_of(s).len() == 1 && symbol_word(words_of(s)[0]))
    ||| (words_of(s).len() == 2 && kind_word(words_of(s)[0]))
}

/// The intent of a query, decided on its trimmed text in fixed order.
pub open spec fn intent_of(q: Seq<char>) -> QueryIntent {
    let s = trimmed(q);
    if path_query(s) {
        QueryIntent::Path
    } else if error_query(s) {
        QueryIntent::Error
    } else if symbol_query(s) {
        QueryIntent::Symbol
    } else {
        QueryIntent::NaturalLanguage
    }
}

fn is_path_query_str(s: &str) -> (r: bool)
    ensures
        r == path_query(s@),
{
    contains_char(s, '/') || contains_char(s, '\\') || ends_with(s, ".rs") || ends_with(s, ".ts")
        || ends_with(s, ".tsx") || ends_with(s, ".js") || ends_with(s, ".jsx") || ends_with(
        s,
        ".py",
    ) || ends_with(s, ".go") || ends_with(s, ".java") || ends_with(s, ".c") || ends_with(s, ".h")
        || ends_with(s, ".cpp") || ends_with(s, ".rb") || ends_with(s, ".swift")
}

/// Does the trimmed query name a file path?
pub fn is_path_query(query: &str) -> (r: bool)
    ensures
        r == path_query(query@),
{
    is_path_query_str(query)
}

/// Does the trimmed query look like quoted or diagnostic text?
pub fn is_error_query(query: &str) -> (r: bool)
    ensures
        r == error_query(query@),
{
    contains_char(query, '"') || contains_char(query, '\'') || contains_str(query, "error:")
        || contains_str(query, "Error:") || contains_str(query, "panic:") || contains_str(
        query,
        "FATAL",
    ) || contains_str(query, "exception") || contains_str(query, "Exception") || contains_str(
        query,
        "traceback",
    ) || contains_str(query, "at line") || contains_str(query, "thread '")
}

fn word_has_upper_after_first(w: &str) -> (r: bool)
    ensures
        r == (w@.len() > 1 && exists|i: int| 1 <= i < w@.len() && is_ascii_upper(#[trigger] w@[i])),
{
    let n = w.unicode_len();
    if n <= 1 {
        return false;
    }
    let mut i: usize = 1;
    while i < n
        invariant
            n == w@.len(),
            1 <= i <= n,
            forall|j: int| 1 <= j < i ==> !is_ascii_upper(#[trigger] w@[j]),
        decreases n - i,
    {
        let c = w.get_char(i);
        if 'A' <= c && c <= 'Z' {
            return true;
        }
        i = i + 1;
    }
    false
}

fn word_all_ident_chars(w: &str) -> (r: bool)
    ensures
        r == (forall|i: int| 0 <= i < w@.len() ==> is_ident_char(#[trigger] w@[i])),
{
    let n = w.unicode_len();
    let mut i: usize = 0;
    while i < n
        invariant
            n == w@.len(),
            0 <= i <= n,
            forall|j: int| 0 <= j < i ==> is_ident_char(#[trigger] w@[j]),
        decreases n - i,
    {
        let c = w.get_char(i);
        let ok = ('A' <= c && c <= 'Z') || ('a' <= c && c <= 'z') || ('0' <= c && c <= '9') || c
            == '_';
        if !ok {
            return false;
        }
        i = i + 1;
    }
    true
}

fn word_is_kind(w: &str) -> (r: bool)
    ensures
        r == kind_word(w@),
{
    let lower = to_ascii_lower(w);
    let l = lower.as_str();
    crate::strutil::str_eq(l, "fn") || crate::strutil::str_eq(l, "func") || crate::strutil::str_eq(
        l,
        "function",
    ) || crate::strutil::str_eq(l, "struct") || crate::strutil::str_eq(l, "class")
        || crate::strutil::str_eq(l, "enum") || crate::strutil::str_eq(l, "trait")
        || crate::strutil::str_eq(l, "interface") || crate::strutil::str_eq(l, "type")
        || crate::strutil::str_eq(l, "const") || crate::strutil::str_eq(l, "method")
}

/// Does the trimmed query look like a symbol lookup?
pub fn is_symbol_query(query: &str) -> (r: bool)
    ensures
        r == symbol_query(query@),
{
    let words = split_words(query);
    if words.len() == 1 {
        let w = words[0].as_str();
        assert(words@.map_values(|x: String| x@)[0] == words@[0]@);
        assert(w@ == words_of(query@)[0]);
        if word_has_upper_after_first(w) {
            return true;
        }
        if contains_char(w, '_') {
            return true;
        }
        if contains_str(w, "::") {
            return true;
        }
        if contains_char(w, '.') && !is_path_query_str(w) {
            return true;
        }
        if word_all_ident_chars(w) && w.unicode_len() > 2 {
            return true;
        }
        return false;
    }
    if words.len() == 2 {
        let w = words[0].as_str();
        assert(words@.map_values(|x: String| x@)[0] == words@[0]@);
        assert(w@ == words_of(query@)[0]);
        return word_is_kind(w);
    }
    false
}

/// Classify a search query into an intent category.
pub fn classify_intent(query: &str) -> (r: QueryIntent)
    ensures
        r == intent_of(query@),
{
    let t = trim_spaces(query);
    let s = t.as_str();
    assert(s@ == trimmed(query@));
    if is_path_query_str(s) {
        return QueryIntent::Path;
    }
    if is_error_query(s) {
        return QueryIntent::Error;
    }
    if is_symbol_query(s) {
        return QueryIntent::Symbol;
    }
    QueryIntent::NaturalLanguage
}

} // verus!
