use codecompass::json::JsonValue;
use codecompass::payload::enforce_payload_safety_limit;
use codecompass::ranking::{rerank, LocateResult, RankingReasons, SearchResult};
use codecompass::shared::{
    align_ranking_reasons_to_dedup, dedup_locate_results, dedup_search_results,
    deterministic_locate_suggested_actions, map_state_error, parse_compact, parse_detail_level,
    parse_ranking_explain_level, resolve_ranking_explain_level,
};
use codecompass::types::{DetailLevel, RankingExplainLevel, StateError};

fn search_result(result_id: &str) -> SearchResult {
    SearchResult {
        result_id: result_id.to_string(),
        symbol_id: Some("sym1".to_string()),
        symbol_stable_id: Some("stable1".to_string()),
        result_type: "symbol".to_string(),
        path: "src/lib.rs".to_string(),
        line_start: 10,
        line_end: 20,
        kind: Some("fn".to_string()),
        name: Some("foo".to_string()),
        qualified_name: Some("foo".to_string()),
        language: "rust".to_string(),
        signature: None,
        visibility: None,
        score: 1,
        snippet: None,
    }
}

#[test]
fn dedup_search_results_by_stable_id() {
    let base = search_result("r1");
    let mut second = base.duplicate();
    second.result_id = "r2".to_string();
    let third = SearchResult {
        result_id: "r3".to_string(),
        symbol_id: None,
        symbol_stable_id: None,
        result_type: "file".to_string(),
        path: "src/other.rs".to_string(),
        line_start: 1,
        line_end: 1,
        kind: None,
        name: None,
        qualified_name: None,
        language: "rust".to_string(),
        signature: None,
        visibility: None,
        score: 0,
        snippet: None,
    };

    let (deduped, kept_indices, suppressed) = dedup_search_results(vec![base, second, third]);
    assert_eq!(suppressed, 1);
    assert_eq!(deduped.len(), 2);
    assert_eq!(kept_indices, vec![0, 2]);
}

#[test]
fn dedup_locate_results_by_stable_id() {
    let a = LocateResult {
        symbol_id: "s1".to_string(),
        symbol_stable_id: "stable".to_string(),
        path: "src/lib.rs".to_string(),
        line_start: 10,
        line_end: 20,
        kind: "fn".to_string(),
        name: "foo".to_string(),
        qualified_name: "foo".to_string(),
        signature: None,
        language: "rust".to_string(),
        visibility: None,
        score: 1,
    };
    let mut b = a.duplicate();
    b.symbol_id = "s2".to_string();
    let (deduped, suppressed) = dedup_locate_results(vec![a, b]);
    assert_eq!(suppressed, 1);
    assert_eq!(deduped.len(), 1);
}

#[test]
fn dedup_is_idempotent_on_distinct_keys() {
    let mut a = search_result("r1");
    a.symbol_stable_id = Some("stable-a".to_string());
    let mut b = search_result("r2");
    b.symbol_stable_id = Some("stable-b".to_string());
    let (first, _, s1) = dedup_search_results(vec![a, b]);
    assert_eq!(s1, 0);
    let names: Vec<String> = first.iter().map(|r| r.result_id.clone()).collect();
    let (second, _, s2) = dedup_search_results(first);
    assert_eq!(s2, 0);
    let names2: Vec<String> = second.iter().map(|r| r.result_id.clone()).collect();
    assert_eq!(names, names2);
}

#[test]
fn safety_limit_truncates_results() {
    let results = vec![
        JsonValue::Str("x".repeat(80)),
        JsonValue::Str("y".repeat(80)),
        JsonValue::Str("z".repeat(80)),
    ];
    let (trimmed, truncated) = enforce_payload_safety_limit(results, 120);
    assert!(truncated);
    assert!(trimmed.len() < 3);
}

#[test]
fn safety_limit_keeps_everything_under_large_budget() {
    let results = vec![JsonValue::Str("a".to_string()), JsonValue::Str("b".to_string())];
    let (kept, truncated) = enforce_payload_safety_limit(results, 4096);
    assert!(!truncated);
    assert_eq!(kept.len(), 2);
}

#[test]
fn ranking_payload_basic_uses_compact_fields() {
    let reasons = vec![RankingReasons {
        result_index: 0,
        exact_match_boost: 5,
        qualified_name_boost: 2,
        path_affinity: 1,
        definition_boost: 1,
        kind_match: 0,
        bm25_score: 10,
        final_score: 19,
    }];

    let basic = codecompass::ranking::to_basic_ranking_reasons(&reasons);
    assert_eq!(basic.len(), 1);
    assert_eq!(basic[0].exact_match, 5);
    assert_eq!(basic[0].path_boost, 1);
    assert_eq!(basic[0].semantic_similarity, 10);
    assert_eq!(basic[0].final_score, 19);
}

#[test]
fn ranking_reasons_remain_aligned_after_dedup() {
    let mut r1 = search_result("r1");
    r1.symbol_stable_id = Some("stable1".to_string());
    r1.score = 2;
    let mut r2 = search_result("r2");
    r2.symbol_id = Some("sym2".to_string());
    r2.symbol_stable_id = Some("stable1".to_string());
    r2.name = Some("foo_dup".to_string());
    r2.qualified_name = Some("foo_dup".to_string());
    r2.score = 1;
    let mut r3 = search_result("r3");
    r3.symbol_id = Some("sym3".to_string());
    r3.symbol_stable_id = Some("stable3".to_string());
    r3.path = "src/main.rs".to_string();
    r3.line_start = 30;
    r3.line_end = 40;
    r3.name = Some("bar".to_string());
    r3.qualified_name = Some("bar".to_string());
    r3.score = 1;

    let reasons = vec![
        RankingReasons {
            result_index: 0,
            exact_match_boost: 5,
            qualified_name_boost: 1,
            path_affinity: 0,
            definition_boost: 1,
            kind_match: 0,
            bm25_score: 10,
            final_score: 17,
        },
        RankingReasons {
            result_index: 1,
            exact_match_boost: 0,
            qualified_name_boost: 1,
            path_affinity: 0,
            definition_boost: 1,
            kind_match: 0,
            bm25_score: 9,
            final_score: 11,
        },
        RankingReasons {
            result_index: 2,
            exact_match_boost: 0,
            qualified_name_boost: 0,
            path_affinity: 1,
            definition_boost: 1,
            kind_match: 0,
            bm25_score: 8,
            final_score: 10,
        },
    ];

    let (_deduped, kept_indices, suppressed) = dedup_search_results(vec![r1, r2, r3]);
    assert_eq!(suppressed, 1);
    let aligned = align_ranking_reasons_to_dedup(&reasons, &kept_indices);
    assert_eq!(aligned.len(), 2);
    assert_eq!(aligned[0].result_index, 0);
    assert_eq!(aligned[0].bm25_score, 10);
    assert_eq!(aligned[1].result_index, 1);
    assert_eq!(aligned[1].bm25_score, 8);
}

#[test]
fn deterministic_locate_actions_are_stable() {
    let actions = deterministic_locate_suggested_actions("validate_token", "main", 10);
    assert_eq!(actions.len(), 2);
    assert_eq!(actions[0].tool, "locate_symbol");
    assert_eq!(actions[0].name.as_deref(), Some("validate_token"));
    assert_eq!(actions[0].limit, Some(5));
    assert_eq!(actions[1].tool, "search_code");
    assert_eq!(actions[1].query.as_deref(), Some("validate_token"));
    assert_eq!(actions[1].limit, Some(5));
}

#[test]
fn rerank_sorts_by_score_then_result_id() {
    let mut a = search_result("zeta");
    a.symbol_stable_id = Some("sa".to_string());
    a.name = Some("other".to_string());
    a.qualified_name = None;
    a.path = "x".to_string();
    a.result_type = "file".to_string();
    a.score = 3;
    let mut b = search_result("alpha");
    b.symbol_stable_id = Some("sb".to_string());
    b.name = Some("other".to_string());
    b.qualified_name = None;
    b.path = "x".to_string();
    b.result_type = "file".to_string();
    b.score = 3;
    let mut rows = vec![a, b];
    rerank(&mut rows, "nomatch");
    assert_eq!(rows[0].result_id, "alpha");
    assert_eq!(rows[1].result_id, "zeta");
}

#[test]
fn rerank_applies_exact_match_boost() {
    let mut a = search_result("a");
    a.name = Some("target".to_string());
    a.qualified_name = None;
    a.path = "x".to_string();
    a.result_type = "file".to_string();
    a.score = 0;
    let mut rows = vec![a];
    rerank(&mut rows, "TARGET");
    assert_eq!(rows[0].score, 5);
}

#[test]
fn detail_and_compact_arguments_parse_with_defaults() {
    let args = JsonValue::Obj(vec![
        ("detail_level".to_string(), JsonValue::Str("context".to_string())),
        ("compact".to_string(), JsonValue::Bool(true)),
    ]);
    assert_eq!(parse_detail_level(&args), DetailLevel::Context);
    assert!(parse_compact(&args));
    let empty = JsonValue::Obj(vec![]);
    assert_eq!(parse_detail_level(&empty), DetailLevel::Signature);
    assert!(!parse_compact(&empty));
    let odd = JsonValue::Obj(vec![(
        "detail_level".to_string(),
        JsonValue::Str("verbose".to_string()),
    )]);
    assert_eq!(parse_detail_level(&odd), DetailLevel::Signature);
}

#[test]
fn explain_levels_parse_case_insensitively() {
    assert_eq!(parse_ranking_explain_level(" Full "), Some(RankingExplainLevel::Full));
    assert_eq!(parse_ranking_explain_level("basic"), Some(RankingExplainLevel::Basic));
    assert_eq!(parse_ranking_explain_level("off"), Some(RankingExplainLevel::Off));
    assert_eq!(parse_ranking_explain_level("loud"), None);
}

#[test]
fn state_errors_map_to_wire_codes() {
    let (code, message, data) = map_state_error(&StateError::SchemaMigrationRequired {
        current: 1,
        required: 2,
    });
    assert_eq!(code, "index_incompatible");
    assert!(message.contains("incompatible"));
    assert!(data.is_some());
    let (code2, _, data2) = map_state_error(&StateError::CorruptManifest("bad".to_string()));
    assert_eq!(code2, "index_incompatible");
    assert!(data2.is_some());
    let (code3, message3, _) = map_state_error(&StateError::Sqlite("locked".to_string()));
    assert_eq!(code3, "internal_error");
    assert!(message3.contains("locked"));
}

#[test]
fn explain_level_resolution_prefers_the_argument() {
    let explicit = JsonValue::Obj(vec![(
        "ranking_explain_level".to_string(),
        JsonValue::Str("basic".to_string()),
    )]);
    assert_eq!(
        resolve_ranking_explain_level(&explicit, "off", false),
        Ok(RankingExplainLevel::Basic)
    );
    let bad = JsonValue::Obj(vec![(
        "ranking_explain_level".to_string(),
        JsonValue::Str("loud".to_string()),
    )]);
    assert!(resolve_ranking_explain_level(&bad, "off", false).is_err());
    let empty = JsonValue::Obj(vec![]);
    assert_eq!(
        resolve_ranking_explain_level(&empty, "full", false),
        Ok(RankingExplainLevel::Full)
    );
    assert_eq!(
        resolve_ranking_explain_level(&empty, "off", true),
        Ok(RankingExplainLevel::Full)
    );
}
