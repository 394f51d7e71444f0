use codecompass::dispatch::{handle_request, handle_tool_payload, IndexDirective, ServerEnv};
use codecompass::engine::SymbolIndex;
use codecompass::health::handle_health_check;
use codecompass::json::{to_json_string, JsonValue};
use codecompass::protocol::JsonRpcRequest;
use codecompass::store::StateDb;
use codecompass::types::{
    BranchState, FreshnessPolicy, IndexJob, PrewarmState, Project, SchemaStatus, SymbolKind,
    SymbolRecord,
};

fn base_env() -> ServerEnv {
    ServerEnv {
        db: Some(StateDb::new()),
        workspace_config: codecompass::router::WorkspaceConfig {
            enabled: false,
            allowed_roots: Vec::new(),
            on_demand_indexing: false,
        },
        index: None,
        schema_status: SchemaStatus::NotIndexed,
        compatibility_reason: Some("No index found. Run `codecompass index`.".to_string()),
        workspace: "/tmp/fake-workspace".to_string(),
        project_id: "test_project".to_string(),
        head_branch: None,
        head_commit: None,
        freshness_policy: FreshnessPolicy::Permissive,
        max_response_bytes: 65536,
        prewarm: PrewarmState::Complete,
        uptime_seconds: 1,
        version: "0.1.0".to_string(),
        sqlite_ok: true,
        sqlite_error: None,
        tantivy_ok: true,
        job_seed: 0x1234abcd5678ef90,
    }
}

fn fixture_symbol() -> SymbolRecord {
    SymbolRecord {
        repo: "test_project".to_string(),
        ref_name: "live".to_string(),
        commit: None,
        path: "src/auth.rs".to_string(),
        symbol_id: "sym_validate".to_string(),
        symbol_stable_id: "stable_validate".to_string(),
        name: "validate_token".to_string(),
        qualified_name: "auth::validate_token".to_string(),
        kind: SymbolKind::Function,
        language: "rust".to_string(),
        line_start: 42,
        line_end: 60,
        signature: Some("fn validate_token(header: &str) -> bool".to_string()),
        parent_symbol_id: None,
        visibility: Some("pub".to_string()),
        content: None,
    }
}

fn indexed_env() -> ServerEnv {
    let mut env = base_env();
    let mut index = SymbolIndex::new();
    index.add_symbol(&fixture_symbol());
    env.index = Some(index);
    env.schema_status = SchemaStatus::Compatible;
    env.compatibility_reason = None;
    env
}

fn project_row(env: &ServerEnv) -> Project {
    Project {
        project_id: env.project_id.clone(),
        repo_root: env.workspace.clone(),
        display_name: Some("test".to_string()),
        default_ref: "live".to_string(),
        vcs_mode: false,
        schema_version: 1,
        parser_version: 1,
        created_at: "2026-01-01T00:00:00Z".to_string(),
        updated_at: "2026-01-01T00:00:00Z".to_string(),
    }
}

fn args(pairs: Vec<(&str, JsonValue)>) -> JsonValue {
    JsonValue::Obj(
        pairs
            .into_iter()
            .map(|(k, v)| (k.to_string(), v))
            .collect(),
    )
}

fn payload_json(env: &ServerEnv, tool: &str, arguments: &JsonValue) -> serde_json::Value {
    let (payload, _) = handle_tool_payload(env, tool, arguments);
    serde_json::from_str(&to_json_string(&payload)).expect("payload should be valid JSON")
}

#[test]
fn fresh_workspace_locate_reports_index_incompatible() {
    let mut env = base_env();
    if let Some(db) = env.db.as_mut() {
        db.create_project(&project_row(&base_env()));
    }
    let a = args(vec![("name", JsonValue::Str("foo".to_string()))]);
    let v = payload_json(&env, "locate_symbol", &a);
    assert_eq!(v["error"]["code"], "index_incompatible");
    assert_eq!(v["metadata"]["index_status"], "not_indexed");
}

#[test]
fn fresh_unregistered_workspace_reports_project_not_found() {
    let env = base_env();
    let a = args(vec![("name", JsonValue::Str("foo".to_string()))]);
    let v = payload_json(&env, "locate_symbol", &a);
    assert_eq!(v["error"]["code"], "project_not_found");
}

#[test]
fn empty_name_reports_invalid_input() {
    let env = indexed_env();
    let a = args(vec![("name", JsonValue::Str("   ".to_string()))]);
    let v = payload_json(&env, "locate_symbol", &a);
    assert_eq!(v["error"]["code"], "invalid_input");
    assert!(v.get("metadata").is_some());
}

#[test]
fn empty_query_reports_invalid_input() {
    let env = indexed_env();
    let a = args(vec![]);
    let v = payload_json(&env, "search_code", &a);
    assert_eq!(v["error"]["code"], "invalid_input");
}

#[test]
fn locate_symbol_finds_fixture_symbol() {
    let env = indexed_env();
    let a = args(vec![("name", JsonValue::Str("validate_token".to_string()))]);
    let v = payload_json(&env, "locate_symbol", &a);
    assert!(v.get("error").is_none());
    let results = v["results"].as_array().expect("results array");
    assert!(!results.is_empty());
    let row = &results[0];
    assert_eq!(row["name"], "validate_token");
    assert_eq!(row["kind"], "function");
    assert_eq!(row["language"], "rust");
    assert!(row["path"].as_str().unwrap().ends_with("auth.rs"));
    assert!(row["line_start"].as_u64().unwrap() > 0);
    assert!(row["symbol_stable_id"].as_str().unwrap() != "");
    assert_eq!(v["metadata"]["ref"], "live");
}

#[test]
fn limit_zero_returns_no_results_but_metadata() {
    let env = indexed_env();
    let a = args(vec![
        ("name", JsonValue::Str("validate_token".to_string())),
        ("limit", JsonValue::UInt(0)),
    ]);
    let v = payload_json(&env, "locate_symbol", &a);
    assert!(v.get("error").is_none());
    assert_eq!(v["results"].as_array().unwrap().len(), 0);
    assert!(v.get("metadata").is_some());
}

#[test]
fn strict_policy_blocks_stale_index() {
    let mut env = indexed_env();
    env.freshness_policy = FreshnessPolicy::Strict;
    env.head_branch = Some("live".to_string());
    env.head_commit = Some("B".to_string());
    if let Some(db) = env.db.as_mut() {
        db.upsert_branch_state(&BranchState {
            repo: "test_project".to_string(),
            ref_name: "live".to_string(),
            merge_base_commit: None,
            last_indexed_commit: "A".to_string(),
            overlay_dir: None,
            file_count: 1,
            created_at: "2026-01-01T00:00:00Z".to_string(),
            last_accessed_at: "2026-01-01T00:00:00Z".to_string(),
        });
    }
    let a = args(vec![("query", JsonValue::Str("x".to_string()))]);
    let v = payload_json(&env, "search_code", &a);
    assert_eq!(v["error"]["code"], "index_stale");
    assert_eq!(v["error"]["data"]["last_indexed_commit"], "A");
    assert_eq!(v["error"]["data"]["current_head"], "B");
}

#[test]
fn search_respects_byte_budget() {
    let mut env = indexed_env();
    env.max_response_bytes = 120;
    if let Some(index) = env.index.as_mut() {
        for i in 0..3 {
            let mut s = fixture_symbol();
            s.symbol_id = format!("sym_{i}");
            s.symbol_stable_id = format!("stable_{i}");
            s.signature = Some("x".repeat(60));
            index.add_symbol(&s);
        }
    }
    let a = args(vec![("query", JsonValue::Str("validate_token".to_string()))]);
    let v = payload_json(&env, "search_code", &a);
    assert!(v.get("error").is_none());
    assert!(v["results"].as_array().unwrap().len() < 3);
    assert_eq!(v["safety_limit_applied"], true);
}

#[test]
fn second_index_invocation_reports_in_progress() {
    let mut env = indexed_env();
    if let Some(db) = env.db.as_mut() {
        db.create_project(&project_row(&base_env()));
    }
    let a = args(vec![]);
    let (payload, directive) = handle_tool_payload(&env, "index_repo", &a);
    let v: serde_json::Value = serde_json::from_str(&to_json_string(&payload)).unwrap();
    assert_eq!(v["status"], "running");
    let first_job_id = v["job_id"].as_str().unwrap().to_string();
    assert_eq!(first_job_id.len(), 16);
    let spawned = matches!(directive, IndexDirective::Spawn { .. });
    assert!(spawned);

    if let Some(db) = env.db.as_mut() {
        db.create_job(&IndexJob {
            job_id: first_job_id.clone(),
            project_id: "test_project".to_string(),
            ref_name: "live".to_string(),
            mode: "incremental".to_string(),
            head_commit: None,
            sync_id: None,
            status: "running".to_string(),
            changed_files: 0,
            duration_ms: None,
            error_message: None,
            retry_count: 0,
            progress_token: None,
            files_scanned: 0,
            files_indexed: 0,
            symbols_extracted: 0,
            created_at: "2026-01-01T00:00:00Z".to_string(),
            updated_at: "2026-01-01T00:00:00Z".to_string(),
        });
    }
    let v2 = payload_json(&env, "index_repo", &a);
    assert_eq!(v2["error"]["code"], "index_in_progress");

    let status = payload_json(&env, "index_status", &args(vec![]));
    assert_eq!(status["active_job"]["job_id"], first_job_id.as_str());
}

#[test]
fn unregistered_project_cannot_start_indexing() {
    let env = indexed_env();
    let v = payload_json(&env, "index_repo", &args(vec![]));
    assert_eq!(v["error"]["code"], "project_not_found");
}

#[test]
fn t065_tools_list_returns_all_five_tools() {
    let env = base_env();
    let request = JsonRpcRequest {
        id: Some(JsonValue::UInt(1)),
        method: "tools/list".to_string(),
        params: JsonValue::Obj(Vec::new()),
    };
    let (response, _) = handle_request(&env, request);
    assert!(response.error.is_none(), "expected success, got error");
    let result = response.result.expect("result should be present");
    let v: serde_json::Value = serde_json::from_str(&to_json_string(&result)).unwrap();
    let tools = v
        .get("tools")
        .expect("result should contain 'tools'")
        .as_array()
        .expect("'tools' should be an array");
    assert_eq!(tools.len(), 5, "expected 5 tools, got {}", tools.len());
    let tool_names: Vec<&str> = tools
        .iter()
        .map(|t| t.get("name").unwrap().as_str().unwrap())
        .collect();
    let expected_names = [
        "index_repo",
        "sync_repo",
        "search_code",
        "locate_symbol",
        "index_status",
    ];
    for name in &expected_names {
        assert!(
            tool_names.contains(name),
            "missing tool: {name}; found: {tool_names:?}"
        );
    }
    for tool in tools {
        assert!(tool.get("name").is_some(), "tool missing 'name': {tool:?}");
        assert!(
            tool.get("description").is_some(),
            "tool missing 'description': {tool:?}"
        );
        assert!(
            tool.get("inputSchema").is_some(),
            "tool missing 'inputSchema': {tool:?}"
        );
        let desc = tool.get("description").unwrap().as_str().unwrap();
        assert!(!desc.is_empty(), "tool description is empty: {tool:?}");
        assert!(
            tool.get("inputSchema").unwrap().is_object(),
            "inputSchema should be an object: {tool:?}"
        );
    }
}

#[test]
fn t066_locate_symbol_via_jsonrpc() {
    let env = indexed_env();
    let request = JsonRpcRequest {
        id: Some(JsonValue::UInt(1)),
        method: "tools/call".to_string(),
        params: args(vec![
            ("name", JsonValue::Str("locate_symbol".to_string())),
            (
                "arguments",
                args(vec![("name", JsonValue::Str("validate_token".to_string()))]),
            ),
        ]),
    };
    let (response, _) = handle_request(&env, request);
    assert!(response.error.is_none(), "expected success, got error");
    let result = response.result.expect("result should be present");
    let v: serde_json::Value = serde_json::from_str(&to_json_string(&result)).unwrap();
    let content = v
        .get("content")
        .expect("result should have 'content'")
        .as_array()
        .expect("'content' should be an array");
    assert!(!content.is_empty(), "content array should not be empty");
    let first = &content[0];
    assert_eq!(
        first.get("type").unwrap().as_str().unwrap(),
        "text",
        "content type should be 'text'"
    );
    let text = first.get("text").unwrap().as_str().unwrap();
    let payload: serde_json::Value =
        serde_json::from_str(text).expect("text payload should be valid JSON");
    let results = payload
        .get("results")
        .expect("payload should have 'results'")
        .as_array()
        .expect("'results' should be an array");
    assert!(
        !results.is_empty(),
        "results should contain at least one match for 'validate_token'"
    );
    let vt = results
        .iter()
        .find(|r| r.get("name").unwrap().as_str().unwrap() == "validate_token")
        .expect("results should contain a 'validate_token' entry");
    assert_eq!(vt.get("kind").unwrap().as_str().unwrap(), "function");
    assert_eq!(vt.get("language").unwrap().as_str().unwrap(), "rust");
    assert!(
        vt.get("path").unwrap().as_str().unwrap().contains("auth.rs"),
        "path should reference auth.rs"
    );
    assert!(vt.get("line_start").unwrap().as_u64().unwrap() > 0);
    assert!(vt.get("line_end").unwrap().as_u64().unwrap() > 0);
    assert!(
        !vt.get("symbol_id").unwrap().as_str().unwrap().is_empty(),
        "symbol_id should not be empty"
    );
    assert!(
        !vt.get("symbol_stable_id")
            .unwrap()
            .as_str()
            .unwrap()
            .is_empty(),
        "symbol_stable_id should not be empty"
    );
    let metadata = payload
        .get("metadata")
        .expect("payload should have 'metadata'");
    assert_eq!(
        metadata
            .get("codecompass_protocol_version")
            .unwrap()
            .as_str()
            .unwrap(),
        "1.0"
    );
    assert_eq!(
        metadata.get("ref").unwrap().as_str().unwrap(),
        "live",
        "ref should default to 'live'"
    );
}

#[test]
fn unknown_method_reports_method_not_found() {
    let env = base_env();
    let request = JsonRpcRequest {
        id: None,
        method: "no/such".to_string(),
        params: JsonValue::Obj(Vec::new()),
    };
    let (response, _) = handle_request(&env, request);
    let (code, _) = response.error.expect("should be an error");
    assert_eq!(code, -32601);
}

fn health_json(env: &ServerEnv) -> serde_json::Value {
    let payload = handle_health_check(env, "live");
    serde_json::from_str(&to_json_string(&payload)).unwrap()
}

#[test]
fn t231_health_reports_indexing_when_active_job_exists() {
    let mut env = indexed_env();
    if let Some(db) = env.db.as_mut() {
        db.create_project(&project_row(&base_env()));
        db.create_job(&IndexJob {
            job_id: "job-http-active".to_string(),
            project_id: "test_project".to_string(),
            ref_name: "live".to_string(),
            mode: "incremental".to_string(),
            head_commit: None,
            sync_id: None,
            status: "running".to_string(),
            changed_files: 0,
            duration_ms: None,
            error_message: None,
            retry_count: 0,
            progress_token: Some("index-job-job-http-active".to_string()),
            files_scanned: 50,
            files_indexed: 20,
            symbols_extracted: 100,
            created_at: "2026-02-24T00:00:00Z".to_string(),
            updated_at: "2026-02-24T00:00:00Z".to_string(),
        });
    }
    let health = health_json(&env);
    assert_eq!(
        health.get("status").and_then(serde_json::Value::as_str),
        Some("indexing"),
        "health status should surface active indexing jobs"
    );
    assert_eq!(health["active_job"]["job_id"], "job-http-active");
    assert_eq!(health["active_job"]["status"], "running");
}

#[test]
fn health_endpoint_returns_expected_fields() {
    let env = base_env();
    let health = health_json(&env);
    assert!(health.get("status").is_some());
    assert_eq!(
        health.get("status").and_then(serde_json::Value::as_str),
        Some("error"),
        "unindexed workspace should surface error status in health"
    );
    assert!(health.get("version").is_some());
    assert!(health.get("uptime_seconds").is_some());
    assert!(health.get("projects").is_some());
    assert!(health.get("startup_checks").is_some());
    assert!(health.get("workspace_warmset").is_some());
    assert!(health.get("interrupted_recovery_report").is_some());
    let checks = &health["startup_checks"]["index"];
    assert!(checks.get("status").is_some());
    assert!(checks.get("current_schema_version").is_some());
    assert!(checks.get("required_schema_version").is_some());
}

#[test]
fn health_reports_warming_during_prewarm_and_queries_still_succeed() {
    let mut env = indexed_env();
    env.prewarm = PrewarmState::InProgress;
    let health = health_json(&env);
    assert_eq!(health["status"], "warming");
    let a = args(vec![("name", JsonValue::Str("validate_token".to_string()))]);
    let v = payload_json(&env, "locate_symbol", &a);
    assert!(v.get("error").is_none(), "queries still succeed while warming");
}

#[test]
fn health_precedence_error_beats_indexing() {
    let mut env = indexed_env();
    env.schema_status = SchemaStatus::CorruptManifest;
    env.index = None;
    if let Some(db) = env.db.as_mut() {
        db.create_job(&IndexJob {
            job_id: "j".to_string(),
            project_id: "test_project".to_string(),
            ref_name: "live".to_string(),
            mode: "full".to_string(),
            head_commit: None,
            sync_id: None,
            status: "running".to_string(),
            changed_files: 0,
            duration_ms: None,
            error_message: None,
            retry_count: 0,
            progress_token: None,
            files_scanned: 0,
            files_indexed: 0,
            symbols_extracted: 0,
            created_at: "t".to_string(),
            updated_at: "t".to_string(),
        });
    }
    let health = health_json(&env);
    assert_eq!(health["status"], "error");
}

#[test]
fn resolve_tool_ref_falls_back_to_project_default_when_head_unavailable() {
    let resolved = codecompass::freshness::resolve_tool_ref(None, None, Some("main"));
    assert_eq!(resolved, "main");

    let explicit = codecompass::freshness::resolve_tool_ref(Some("feat/auth"), None, Some("main"));
    assert_eq!(explicit, "feat/auth");
}

#[test]
fn health_check_tool_answers_via_tools_call() {
    let env = indexed_env();
    let request = JsonRpcRequest {
        id: Some(JsonValue::UInt(2)),
        method: "tools/call".to_string(),
        params: args(vec![
            ("name", JsonValue::Str("health_check".to_string())),
            ("arguments", args(vec![])),
        ]),
    };
    let (response, _) = handle_request(&env, request);
    assert!(response.error.is_none());
    let result = response.result.expect("result should be present");
    let v: serde_json::Value = serde_json::from_str(&to_json_string(&result)).unwrap();
    let text = v["content"][0]["text"].as_str().unwrap();
    let payload: serde_json::Value = serde_json::from_str(text).unwrap();
    assert_eq!(payload["status"], "ready");
    assert!(payload.get("metadata").is_some());
}

#[test]
fn file_outline_lists_stored_symbols_of_the_path() {
    let mut env = indexed_env();
    let mut db = StateDb::new();
    let mut rec = fixture_symbol();
    rec.repo = "test_project".to_string();
    db.insert_symbol(&rec);
    env.db = Some(db);
    let request = JsonRpcRequest {
        id: Some(JsonValue::UInt(3)),
        method: "tools/call".to_string(),
        params: args(vec![
            ("name", JsonValue::Str("get_file_outline".to_string())),
            (
                "arguments",
                args(vec![("path", JsonValue::Str("src/auth.rs".to_string()))]),
            ),
        ]),
    };
    let (response, _) = handle_request(&env, request);
    let result = response.result.expect("result should be present");
    let v: serde_json::Value = serde_json::from_str(&to_json_string(&result)).unwrap();
    let payload: serde_json::Value =
        serde_json::from_str(v["content"][0]["text"].as_str().unwrap()).unwrap();
    assert_eq!(payload["total"], 1);
    assert_eq!(payload["symbols"][0]["name"], "validate_token");
    let blank = JsonRpcRequest {
        id: None,
        method: "tools/call".to_string(),
        params: args(vec![
            ("name", JsonValue::Str("get_file_outline".to_string())),
            ("arguments", args(vec![])),
        ]),
    };
    let (resp2, _) = handle_request(&env, blank);
    let r2 = resp2.result.unwrap();
    let v2: serde_json::Value = serde_json::from_str(&to_json_string(&r2)).unwrap();
    let p2: serde_json::Value =
        serde_json::from_str(v2["content"][0]["text"].as_str().unwrap()).unwrap();
    assert_eq!(p2["error"]["code"], "invalid_input");
}

#[test]
fn jsonrpc_tools_list_via_http() {
    let env = base_env();
    let request = JsonRpcRequest {
        id: Some(JsonValue::UInt(1)),
        method: "tools/list".to_string(),
        params: JsonValue::Obj(Vec::new()),
    };
    let (response, _) = handle_request(&env, request);
    let result = response.result.unwrap();
    let v: serde_json::Value = serde_json::from_str(&to_json_string(&result)).unwrap();
    let tool_array = v["tools"].as_array().unwrap();
    assert!(!tool_array.is_empty());
}

#[test]
fn search_suppresses_duplicate_stable_ids() {
    let mut env = indexed_env();
    if let Some(index) = env.index.as_mut() {
        // A second record carrying the same stable id: the pipeline keeps the
        // first finding and counts the other as suppressed.
        let mut dup = fixture_symbol();
        dup.symbol_id = "sym_validate_copy".to_string();
        index.add_symbol(&dup);
    }
    let a = args(vec![("query", JsonValue::Str("validate_token".to_string()))]);
    let v = payload_json(&env, "search_code", &a);
    assert!(v.get("error").is_none());
    assert_eq!(v["results"].as_array().unwrap().len(), 1);
    assert_eq!(v["suppressed_duplicates"], 1);
    assert_eq!(v["total_candidates"], 2);
}

#[test]
fn compact_search_omits_snippet_text() {
    let mut env = indexed_env();
    if let Some(index) = env.index.as_mut() {
        index.add_snippet(&codecompass::types::SnippetRecord {
            repo: "test_project".to_string(),
            ref_name: "live".to_string(),
            commit: None,
            path: "src/auth.rs".to_string(),
            language: "rust".to_string(),
            chunk_type: "function_body".to_string(),
            imports: None,
            line_start: 42,
            line_end: 60,
            content: "fetch the token header here".to_string(),
        });
    }
    let a = args(vec![("query", JsonValue::Str("fetch the token header".to_string()))]);
    let plain = payload_json(&env, "search_code", &a);
    assert_eq!(
        plain["results"][0]["snippet"],
        "fetch the token header here"
    );
    let b = args(vec![
        ("query", JsonValue::Str("fetch the token header".to_string())),
        ("compact", JsonValue::Bool(true)),
    ]);
    let compacted = payload_json(&env, "search_code", &b);
    assert!(compacted["results"][0].get("snippet").is_none());
    let c = args(vec![
        ("query", JsonValue::Str("fetch the token header".to_string())),
        ("detail_level", JsonValue::Str("context".to_string())),
        ("compact", JsonValue::Bool(true)),
    ]);
    let compact_context = payload_json(&env, "search_code", &c);
    assert!(compact_context["results"][0].get("snippet").is_none());
    assert!(compact_context["results"][0].get("body_preview").is_none());
    let d = args(vec![
        ("query", JsonValue::Str("fetch the token header".to_string())),
        ("detail_level", JsonValue::Str("location".to_string())),
    ]);
    let located = payload_json(&env, "search_code", &d);
    assert!(located["results"][0].get("signature").is_none());
    assert!(located["results"][0].get("snippet").is_none());
}

#[test]
fn unknown_ranking_explain_level_is_invalid_input() {
    let env = indexed_env();
    let a = args(vec![
        ("query", JsonValue::Str("validate_token".to_string())),
        ("ranking_explain_level", JsonValue::Str("verbose".to_string())),
    ]);
    let v = payload_json(&env, "search_code", &a);
    assert_eq!(v["error"]["code"], "invalid_input");
}

#[test]
fn unknown_freshness_policy_is_invalid_input() {
    let env = indexed_env();
    let a = args(vec![
        ("query", JsonValue::Str("validate_token".to_string())),
        ("freshness_policy", JsonValue::Str("eventually".to_string())),
    ]);
    let v = payload_json(&env, "search_code", &a);
    assert_eq!(v["error"]["code"], "invalid_input");
}

#[test]
fn per_request_strict_policy_blocks_stale_index() {
    let mut env = indexed_env();
    env.freshness_policy = FreshnessPolicy::Permissive;
    env.head_branch = Some("live".to_string());
    env.head_commit = Some("B".to_string());
    if let Some(db) = env.db.as_mut() {
        db.upsert_branch_state(&BranchState {
            repo: "test_project".to_string(),
            ref_name: "live".to_string(),
            merge_base_commit: None,
            last_indexed_commit: "A".to_string(),
            overlay_dir: None,
            file_count: 1,
            created_at: "2026-01-01T00:00:00Z".to_string(),
            last_accessed_at: "2026-01-01T00:00:00Z".to_string(),
        });
    }
    let a = args(vec![
        ("query", JsonValue::Str("x".to_string())),
        ("freshness_policy", JsonValue::Str("strict".to_string())),
    ]);
    let v = payload_json(&env, "search_code", &a);
    assert_eq!(v["error"]["code"], "index_stale");
    assert_eq!(v["error"]["data"]["last_indexed_commit"], "A");
    assert_eq!(v["error"]["data"]["current_head"], "B");
}

#[test]
fn basic_explain_level_reports_renumbered_reasons() {
    let env = indexed_env();
    let a = args(vec![
        ("query", JsonValue::Str("validate_token".to_string())),
        ("ranking_explain_level", JsonValue::Str("basic".to_string())),
    ]);
    let v = payload_json(&env, "search_code", &a);
    assert!(v.get("error").is_none());
    let reasons = v["ranking_reasons"].as_array().unwrap();
    assert_eq!(reasons.len(), 1);
    assert_eq!(reasons[0]["result_index"], 0);
    assert_eq!(reasons[0]["exact_match"], 5);
    assert!(reasons[0].get("bm25").is_none());
}

#[test]
fn index_in_progress_names_the_project() {
    let mut env = indexed_env();
    if let Some(db) = env.db.as_mut() {
        db.create_project(&project_row(&base_env()));
        db.create_job(&IndexJob {
            job_id: "aaaabbbbccccdddd".to_string(),
            project_id: "test_project".to_string(),
            ref_name: "live".to_string(),
            mode: "incremental".to_string(),
            head_commit: None,
            sync_id: None,
            status: "queued".to_string(),
            changed_files: 0,
            duration_ms: None,
            error_message: None,
            retry_count: 0,
            progress_token: None,
            files_scanned: 0,
            files_indexed: 0,
            symbols_extracted: 0,
            created_at: "2026-01-01T00:00:00Z".to_string(),
            updated_at: "2026-01-01T00:00:00Z".to_string(),
        });
    }
    let (payload, directive) = handle_tool_payload(&env, "sync_repo", &args(vec![]));
    let v: serde_json::Value = serde_json::from_str(&to_json_string(&payload)).unwrap();
    assert_eq!(v["error"]["code"], "index_in_progress");
    assert_eq!(v["error"]["data"]["project_id"], "test_project");
    assert!(matches!(directive, IndexDirective::NoAction));
}

#[test]
fn health_without_store_reports_error_and_fallback_row() {
    let mut env = indexed_env();
    env.db = None;
    env.sqlite_ok = false;
    env.sqlite_error = Some("no database connection".to_string());
    let v: serde_json::Value =
        serde_json::from_str(&to_json_string(&handle_health_check(&env, "live"))).unwrap();
    assert_eq!(v["status"], "error");
    let projects = v["projects"].as_array().unwrap();
    assert_eq!(projects.len(), 1);
    assert_eq!(projects[0]["project_id"], "test_project");
    assert_eq!(projects[0]["index_status"], "error");
    assert_eq!(v["sqlite_ok"], false);
}

#[test]
fn workspace_hint_is_refused_when_multi_workspace_is_off() {
    let env = indexed_env();
    let mut arguments: Vec<(String, JsonValue)> = Vec::new();
    arguments.push(("name".to_string(), JsonValue::Str("foo".to_string())));
    arguments.push((
        "workspace".to_string(),
        JsonValue::Str("/srv/other".to_string()),
    ));
    let params = JsonValue::Obj(vec![
        ("name".to_string(), JsonValue::Str("locate_symbol".to_string())),
        ("arguments".to_string(), JsonValue::Obj(arguments)),
    ]);
    let request = JsonRpcRequest {
        id: Some(JsonValue::UInt(9)),
        method: "tools/call".to_string(),
        params,
    };
    let (response, _) = handle_request(&env, request);
    let result = response.result.expect("tool refusals are tool text");
    let v: serde_json::Value = serde_json::from_str(&to_json_string(&result)).unwrap();
    let payload: serde_json::Value =
        serde_json::from_str(v["content"][0]["text"].as_str().unwrap()).unwrap();
    assert_eq!(payload["error"]["code"], "workspace_unsupported");
    assert_eq!(payload["error"]["data"]["workspace"], "/srv/other");
}

#[test]
fn on_demand_indexing_short_circuits_queries() {
    let mut env = base_env();
    env.workspace_config.on_demand_indexing = true;
    let params = JsonValue::Obj(vec![
        ("name".to_string(), JsonValue::Str("locate_symbol".to_string())),
        (
            "arguments".to_string(),
            JsonValue::Obj(vec![("name".to_string(), JsonValue::Str("foo".to_string()))]),
        ),
    ]);
    let request = JsonRpcRequest {
        id: Some(JsonValue::UInt(3)),
        method: "tools/call".to_string(),
        params,
    };
    let (response, directive) = handle_request(&env, request);
    let result = response.result.expect("short-circuit is tool text");
    let v: serde_json::Value = serde_json::from_str(&to_json_string(&result)).unwrap();
    let payload: serde_json::Value =
        serde_json::from_str(v["content"][0]["text"].as_str().unwrap()).unwrap();
    assert_eq!(payload["indexing_status"], "indexing");
    assert_eq!(payload["result_completeness"], "partial");
    assert_eq!(payload["results"].as_array().unwrap().len(), 0);
    assert!(matches!(directive, IndexDirective::Sync { .. }));
}

#[test]
fn unknown_method_reply_carries_request_id() {
    let env = base_env();
    let request = JsonRpcRequest {
        id: Some(JsonValue::UInt(41)),
        method: "tools/destroy".to_string(),
        params: JsonValue::Obj(Vec::new()),
    };
    let (response, _) = handle_request(&env, request);
    let err = response.error.clone().expect("unknown methods are JSON-RPC errors");
    assert_eq!(err.0, -32601);
    let v: serde_json::Value = serde_json::from_str(&to_json_string(&response.to_json())).unwrap();
    assert_eq!(v["id"], 41);
}

#[test]
fn full_explain_level_reports_every_component() {
    let mut env = indexed_env();
    if let Some(index) = env.index.as_mut() {
        let mut dup = fixture_symbol();
        dup.symbol_id = "sym_validate_twin".to_string();
        index.add_symbol(&dup);
    }
    let a = args(vec![
        ("query", JsonValue::Str("validate_token".to_string())),
        ("ranking_explain_level", JsonValue::Str("full".to_string())),
    ]);
    let v = payload_json(&env, "search_code", &a);
    assert!(v.get("error").is_none());
    let reasons = v["ranking_reasons"].as_array().unwrap();
    assert_eq!(reasons.len(), 1);
    assert_eq!(reasons[0]["result_index"], 0);
    assert_eq!(reasons[0]["exact_match"], 5);
    assert_eq!(reasons[0]["qualified_name"], 2);
    assert_eq!(reasons[0]["definition"], 1);
    assert_eq!(reasons[0]["kind_match"], 0);
    assert!(reasons[0].get("bm25").is_some());
    assert!(reasons[0].get("final").is_some());
}
