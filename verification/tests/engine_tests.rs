use codecompass::engine::{
    classify_index_open_error, load_index_runtime, locate_symbol, search_code, SymbolIndex,
};
use codecompass::freshness::{
    apply_freshness_policy, check_freshness, is_ref_stale, parse_freshness_policy, PolicyAction,
};
use codecompass::types::{
    BranchState, FileRecord, FreshnessPolicy, FreshnessStatus, QueryIntent, SchemaStatus,
    SnippetRecord, StateError, SymbolKind, SymbolRecord,
};

fn symbol(name: &str, id: &str, path: &str) -> SymbolRecord {
    SymbolRecord {
        repo: "repo".to_string(),
        ref_name: "live".to_string(),
        commit: None,
        path: path.to_string(),
        symbol_id: id.to_string(),
        symbol_stable_id: format!("stable_{id}"),
        name: name.to_string(),
        qualified_name: format!("crate::{name}"),
        kind: SymbolKind::Function,
        language: "rust".to_string(),
        line_start: 1,
        line_end: 5,
        signature: None,
        parent_symbol_id: None,
        visibility: None,
        content: None,
    }
}

fn demo_index() -> SymbolIndex {
    let mut index = SymbolIndex::new();
    index.add_symbol(&symbol("validate_token", "s1", "src/auth.rs"));
    index.add_symbol(&symbol("validate_token_cache", "s2", "src/cache.rs"));
    index.add_symbol(&symbol("unrelated", "s3", "src/other.rs"));
    index.add_snippet(&SnippetRecord {
        repo: "repo".to_string(),
        ref_name: "live".to_string(),
        commit: None,
        path: "src/auth.rs".to_string(),
        language: "rust".to_string(),
        chunk_type: "function_body".to_string(),
        imports: None,
        line_start: 1,
        line_end: 5,
        content: "fn validate_token() { check(); }".to_string(),
    });
    index.add_file(&FileRecord {
        repo: "repo".to_string(),
        ref_name: "live".to_string(),
        commit: None,
        path: "src/auth.rs".to_string(),
        filename: "auth.rs".to_string(),
        language: "rust".to_string(),
        content_hash: "h".to_string(),
        size_bytes: 10,
        updated_at: "t".to_string(),
        content_head: "".to_string(),
    });
    index
}

#[test]
fn locate_ranks_exact_match_first() {
    let index = demo_index();
    let results = locate_symbol(&index, "validate_token", None, None, "live", 10);
    assert_eq!(results.len(), 2);
    assert_eq!(results[0].name, "validate_token");
    assert!(results[0].score >= results[1].score);
}

#[test]
fn locate_respects_limit_and_ref() {
    let index = demo_index();
    assert_eq!(locate_symbol(&index, "validate_token", None, None, "live", 1).len(), 1);
    assert_eq!(locate_symbol(&index, "validate_token", None, None, "main", 10).len(), 0);
    assert_eq!(locate_symbol(&index, "validate_token", None, None, "live", 0).len(), 0);
}

#[test]
fn locate_filters_by_kind() {
    let index = demo_index();
    let fns = locate_symbol(&index, "validate_token", Some("function"), None, "live", 10);
    assert_eq!(fns.len(), 2);
    let none = locate_symbol(&index, "validate_token", Some("struct"), None, "live", 10);
    assert_eq!(none.len(), 0);
}

#[test]
fn search_routes_by_intent() {
    let index = demo_index();
    let by_path = search_code(&index, "auth.rs", "live", None, 10);
    assert_eq!(by_path.query_intent, QueryIntent::Path);
    assert!(by_path.total_candidates > 0);

    let by_symbol = search_code(&index, "validate_token", "live", None, 10);
    assert_eq!(by_symbol.query_intent, QueryIntent::Symbol);
    assert!(!by_symbol.results.is_empty());
    assert!(by_symbol.results.len() <= 10);
}

#[test]
fn loader_classifies_open_failures() {
    let (s, reason) = classify_index_open_error(&StateError::NotFound);
    assert_eq!(s, SchemaStatus::NotIndexed);
    assert_eq!(reason, "No index found. Run `codecompass index`.");

    let (s2, reason2) = classify_index_open_error(&StateError::SchemaMigrationRequired {
        current: 1,
        required: 2,
    });
    assert_eq!(s2, SchemaStatus::ReindexRequired);
    assert_eq!(reason2, "Index schema is incompatible (current=1, required=2).");

    let (s3, reason3) =
        classify_index_open_error(&StateError::CorruptManifest("bad header".to_string()));
    assert_eq!(s3, SchemaStatus::CorruptManifest);
    assert_eq!(reason3, "Index appears corrupted: bad header");

    let runtime = load_index_runtime(Err(StateError::NotFound));
    assert_eq!(runtime.schema_status, SchemaStatus::NotIndexed);
    assert!(runtime.index.is_none());

    let opened = load_index_runtime(Ok(SymbolIndex::new()));
    assert_eq!(opened.schema_status, SchemaStatus::Compatible);
    assert!(opened.index.is_some());
}

fn branch_state(commit: &str) -> BranchState {
    BranchState {
        repo: "p".to_string(),
        ref_name: "main".to_string(),
        merge_base_commit: None,
        last_indexed_commit: commit.to_string(),
        overlay_dir: None,
        file_count: 1,
        created_at: "t".to_string(),
        last_accessed_at: "t".to_string(),
    }
}

#[test]
fn staleness_needs_matching_branch_and_diverged_head() {
    let bs = Some(branch_state("A"));
    assert!(is_ref_stale(&bs, Some("main"), Some("B"), "main"));
    assert!(!is_ref_stale(&bs, Some("main"), Some("A"), "main"));
    assert!(!is_ref_stale(&bs, Some("other"), Some("B"), "main"));
    assert!(!is_ref_stale(&bs, None, Some("B"), "main"));
    assert!(!is_ref_stale(&None, Some("main"), Some("B"), "main"));
}

#[test]
fn missing_oracle_reports_unknown_freshness() {
    let res = check_freshness(&None, None, None, "main");
    assert_eq!(res.status, FreshnessStatus::Unknown);
    let fresh = check_freshness(&Some(branch_state("A")), Some("main"), Some("A"), "main");
    assert_eq!(fresh.status, FreshnessStatus::Fresh);
}

#[test]
fn policies_map_reports_to_actions() {
    let stale = check_freshness(&Some(branch_state("A")), Some("main"), Some("B"), "main");
    assert_eq!(stale.status, FreshnessStatus::Stale);
    assert_eq!(
        apply_freshness_policy(FreshnessPolicy::Permissive, &stale),
        PolicyAction::Proceed
    );
    assert_eq!(
        apply_freshness_policy(FreshnessPolicy::Advisory, &stale),
        PolicyAction::ProceedWithStaleIndicatorAndSync
    );
    assert_eq!(
        apply_freshness_policy(FreshnessPolicy::Strict, &stale),
        PolicyAction::BlockWithError
    );
    assert_eq!(parse_freshness_policy("strict"), Some(FreshnessPolicy::Strict));
    assert_eq!(parse_freshness_policy("lax"), None);
}

#[test]
fn upsert_branch_state_is_idempotent_on_identical_inputs() {
    let mut db = codecompass::store::StateDb::new();
    let entry = branch_state("A");
    db.upsert_branch_state(&entry);
    let once = db.list_branch_states("p");
    db.upsert_branch_state(&entry);
    let twice = db.list_branch_states("p");
    assert_eq!(once.len(), twice.len());
    assert_eq!(once[0].last_indexed_commit, twice[0].last_indexed_commit);
    assert_eq!(once[0].created_at, twice[0].created_at);
}

#[test]
fn router_uses_default_without_a_hint() {
    let config = codecompass::router::WorkspaceConfig {
        enabled: false,
        allowed_roots: vec![],
        on_demand_indexing: false,
    };
    let r = match codecompass::router::resolve_workspace(None, &config, "/srv/work", true) {
        Ok(v) => v,
        Err(_) => panic!("default route should resolve"),
    };
    assert_eq!(r.workspace_path, "/srv/work");
    assert_eq!(r.project_id.len(), 16);
    assert!(!r.should_bootstrap);
}

#[test]
fn router_refuses_hints_when_multi_workspace_is_off() {
    let config = codecompass::router::WorkspaceConfig {
        enabled: false,
        allowed_roots: vec!["/srv".to_string()],
        on_demand_indexing: false,
    };
    let err = match codecompass::router::resolve_workspace(
        Some("/srv/other"),
        &config,
        "/srv/work",
        true,
    ) {
        Err(e) => e,
        Ok(_) => panic!("hint should be refused"),
    };
    assert_eq!(err.code(), "workspace_unsupported");
}

#[test]
fn router_refuses_paths_outside_allowed_roots() {
    let config = codecompass::router::WorkspaceConfig {
        enabled: true,
        allowed_roots: vec!["/srv".to_string()],
        on_demand_indexing: true,
    };
    let err = match codecompass::router::resolve_workspace(Some("/opt/x"), &config, "/srv/work", true)
    {
        Err(e) => e,
        Ok(_) => panic!("path outside the roots should be refused"),
    };
    assert_eq!(err.code(), "workspace_not_allowed");
    let ok = match codecompass::router::resolve_workspace(Some("/srv/x"), &config, "/srv/work", false)
    {
        Ok(v) => v,
        Err(_) => panic!("allowed path should route"),
    };
    assert_eq!(ok.workspace_path, "/srv/x");
    assert!(ok.should_bootstrap);
    assert!(ok.on_demand_indexing);
}

#[test]
fn project_ids_are_deterministic_and_distinct() {
    let a = codecompass::router::generate_project_id("/srv/one");
    let b = codecompass::router::generate_project_id("/srv/one");
    let c = codecompass::router::generate_project_id("/srv/two");
    assert_eq!(a, b);
    assert_ne!(a, c);
    assert_eq!(a.len(), 16);
}
