use codecompass::store::StateDb;
use codecompass::types::{BranchState, IndexJob, SymbolKind, SymbolRecord};

fn sample_entry() -> BranchState {
    BranchState {
        repo: "my-repo".to_string(),
        ref_name: "main".to_string(),
        merge_base_commit: Some("abc123".to_string()),
        last_indexed_commit: "def456".to_string(),
        overlay_dir: Some("/tmp/overlay".to_string()),
        file_count: 42,
        created_at: "2026-01-01T00:00:00Z".to_string(),
        last_accessed_at: "2026-01-01T00:00:00Z".to_string(),
    }
}

fn sample_symbol() -> SymbolRecord {
    SymbolRecord {
        repo: "my-repo".to_string(),
        ref_name: "main".to_string(),
        commit: Some("abc123".to_string()),
        path: "src/lib.rs".to_string(),
        symbol_id: "sym_001".to_string(),
        symbol_stable_id: "stable_001".to_string(),
        name: "my_function".to_string(),
        qualified_name: "crate::my_function".to_string(),
        kind: SymbolKind::Function,
        language: "rust".to_string(),
        line_start: 10,
        line_end: 25,
        signature: Some("fn my_function(x: i32) -> bool".to_string()),
        parent_symbol_id: None,
        visibility: Some("pub".to_string()),
        content: Some("fn my_function(x: i32) -> bool { x > 0 }".to_string()),
    }
}

#[test]
fn test_upsert_and_get() {
    let mut db = StateDb::new();
    let entry = sample_entry();
    db.upsert_branch_state(&entry);

    let result = db.get_branch_state("my-repo", "main");
    assert!(result.is_some());
    let got = result.unwrap();
    assert_eq!(got.repo, "my-repo");
    assert_eq!(got.ref_name, "main");
    assert_eq!(got.merge_base_commit, Some("abc123".to_string()));
    assert_eq!(got.last_indexed_commit, "def456");
    assert_eq!(got.overlay_dir, Some("/tmp/overlay".to_string()));
    assert_eq!(got.file_count, 42);
    assert_eq!(got.created_at, "2026-01-01T00:00:00Z");
    assert_eq!(got.last_accessed_at, "2026-01-01T00:00:00Z");
}

#[test]
fn test_get_returns_none_when_not_found() {
    let db = StateDb::new();
    let result = db.get_branch_state("no-repo", "main");
    assert!(result.is_none());
}

#[test]
fn test_upsert_updates_existing() {
    let mut db = StateDb::new();
    let entry = sample_entry();
    db.upsert_branch_state(&entry);

    let mut updated = entry.clone();
    updated.last_indexed_commit = "new_commit_789".to_string();
    updated.file_count = 100;
    updated.merge_base_commit = Some("new_base".to_string());
    updated.overlay_dir = None;
    updated.last_accessed_at = "2026-02-01T00:00:00Z".to_string();
    db.upsert_branch_state(&updated);

    let got = db.get_branch_state("my-repo", "main").unwrap();
    assert_eq!(got.last_indexed_commit, "new_commit_789");
    assert_eq!(got.file_count, 100);
    assert_eq!(got.merge_base_commit, Some("new_base".to_string()));
    assert!(got.overlay_dir.is_none());
    assert_eq!(got.last_accessed_at, "2026-02-01T00:00:00Z");

    let all = db.list_branch_states("my-repo");
    assert_eq!(all.len(), 1);
}

#[test]
fn test_delete() {
    let mut db = StateDb::new();
    let entry = sample_entry();
    db.upsert_branch_state(&entry);

    db.delete_branch_state("my-repo", "main");

    let result = db.get_branch_state("my-repo", "main");
    assert!(result.is_none());
}

#[test]
fn test_delete_nonexistent_is_ok() {
    let mut db = StateDb::new();
    db.delete_branch_state("no-repo", "main");
    assert!(db.get_branch_state("no-repo", "main").is_none());
}

#[test]
fn test_list_branch_states() {
    let mut db = StateDb::new();

    let entry1 = sample_entry();
    db.upsert_branch_state(&entry1);

    let mut entry2 = sample_entry();
    entry2.ref_name = "feature/xyz".to_string();
    entry2.last_indexed_commit = "commit_xyz".to_string();
    db.upsert_branch_state(&entry2);

    let mut entry3 = sample_entry();
    entry3.ref_name = "develop".to_string();
    entry3.last_indexed_commit = "commit_dev".to_string();
    db.upsert_branch_state(&entry3);

    let entries = db.list_branch_states("my-repo");
    assert_eq!(entries.len(), 3);

    let refs: Vec<&str> = entries.iter().map(|e| e.ref_name.as_str()).collect();
    assert!(refs.contains(&"main"));
    assert!(refs.contains(&"feature/xyz"));
    assert!(refs.contains(&"develop"));

    let other = db.list_branch_states("other-repo");
    assert!(other.is_empty());
}

#[test]
fn test_list_empty() {
    let db = StateDb::new();
    let entries = db.list_branch_states("no-repo");
    assert!(entries.is_empty());
}

#[test]
fn test_insert_and_find_symbol() {
    let mut db = StateDb::new();
    let sym = sample_symbol();

    db.insert_symbol(&sym);

    let found = db.find_symbols_by_location(
        "my-repo",
        "main",
        "src/lib.rs",
        sym.line_start,
        sym.line_end,
    );

    assert_eq!(found.len(), 1);
    assert_eq!(found[0].name, "my_function");
    assert_eq!(found[0].qualified_name, "crate::my_function");
    assert_eq!(found[0].kind, SymbolKind::Function);
    assert_eq!(found[0].language, "rust");
    assert_eq!(found[0].line_start, 10);
    assert_eq!(found[0].line_end, 25);
    assert_eq!(found[0].commit, Some("abc123".to_string()));
    assert_eq!(
        found[0].signature,
        Some("fn my_function(x: i32) -> bool".to_string())
    );
    assert_eq!(found[0].visibility, Some("pub".to_string()));
}

#[test]
fn test_find_symbols_by_location_overlapping_range() {
    let mut db = StateDb::new();
    let sym = sample_symbol();
    db.insert_symbol(&sym);

    let found = db.find_symbols_by_location("my-repo", "main", "src/lib.rs", 15, 20);
    assert_eq!(found.len(), 1);
    assert_eq!(found[0].name, "my_function");
}

#[test]
fn test_find_symbols_by_location_no_overlap() {
    let mut db = StateDb::new();
    let sym = sample_symbol();
    db.insert_symbol(&sym);

    let found = db.find_symbols_by_location("my-repo", "main", "src/lib.rs", 30, 40);
    assert!(found.is_empty());
}

#[test]
fn test_find_symbols_by_location_wrong_path() {
    let mut db = StateDb::new();
    let sym = sample_symbol();
    db.insert_symbol(&sym);

    let found = db.find_symbols_by_location(
        "my-repo",
        "main",
        "src/other.rs",
        sym.line_start,
        sym.line_end,
    );
    assert!(found.is_empty());
}

#[test]
fn test_insert_symbol_replace_on_conflict() {
    let mut db = StateDb::new();
    let sym = sample_symbol();
    db.insert_symbol(&sym);

    let mut sym2 = sym.clone();
    sym2.name = "renamed_function".to_string();
    db.insert_symbol(&sym2);

    let found = db.find_symbols_by_location(
        "my-repo",
        "main",
        "src/lib.rs",
        sym.line_start,
        sym.line_end,
    );
    assert_eq!(found.len(), 1);
    assert_eq!(found[0].name, "renamed_function");
}

#[test]
fn test_delete_symbols_for_file() {
    let mut db = StateDb::new();
    let sym = sample_symbol();
    db.insert_symbol(&sym);

    db.delete_symbols_for_file("my-repo", "main", "src/lib.rs");

    let count = db.symbol_count("my-repo", "main");
    assert_eq!(count, 0);
}

#[test]
fn test_delete_symbols_for_file_nonexistent_is_ok() {
    let mut db = StateDb::new();
    db.delete_symbols_for_file("no-repo", "main", "no-file.rs");
    assert_eq!(db.symbol_count("no-repo", "main"), 0);
}

#[test]
fn test_delete_symbols_only_affects_target_file() {
    let mut db = StateDb::new();

    let sym1 = sample_symbol();
    db.insert_symbol(&sym1);

    let mut sym2 = sample_symbol();
    sym2.path = "src/other.rs".to_string();
    sym2.symbol_id = "sym_002".to_string();
    sym2.symbol_stable_id = "stable_002".to_string();
    sym2.qualified_name = "crate::other_function".to_string();
    sym2.name = "other_function".to_string();
    db.insert_symbol(&sym2);

    assert_eq!(db.symbol_count("my-repo", "main"), 2);

    db.delete_symbols_for_file("my-repo", "main", "src/lib.rs");

    assert_eq!(db.symbol_count("my-repo", "main"), 1);
}

#[test]
fn test_symbol_count() {
    let mut db = StateDb::new();

    assert_eq!(db.symbol_count("my-repo", "main"), 0);

    let sym1 = sample_symbol();
    db.insert_symbol(&sym1);

    let mut sym2 = sample_symbol();
    sym2.path = "src/main.rs".to_string();
    sym2.symbol_id = "sym_002".to_string();
    sym2.symbol_stable_id = "stable_002".to_string();
    sym2.qualified_name = "crate::main".to_string();
    sym2.name = "main".to_string();
    sym2.kind = SymbolKind::Function;
    sym2.line_start = 1;
    sym2.line_end = 5;
    db.insert_symbol(&sym2);

    assert_eq!(db.symbol_count("my-repo", "main"), 2);
}

#[test]
fn test_symbol_count_scoped_to_repo_and_ref() {
    let mut db = StateDb::new();
    let sym = sample_symbol();
    db.insert_symbol(&sym);

    assert_eq!(db.symbol_count("other-repo", "main"), 0);
    assert_eq!(db.symbol_count("my-repo", "develop"), 0);
}

#[test]
fn test_symbol_with_no_optional_fields() {
    let mut db = StateDb::new();
    let sym = SymbolRecord {
        repo: "repo".to_string(),
        ref_name: "main".to_string(),
        commit: None,
        path: "file.rs".to_string(),
        symbol_id: "sym_min".to_string(),
        symbol_stable_id: "stable_min".to_string(),
        name: "bare_fn".to_string(),
        qualified_name: "bare_fn".to_string(),
        kind: SymbolKind::Function,
        language: "rust".to_string(),
        line_start: 1,
        line_end: 3,
        signature: None,
        parent_symbol_id: None,
        visibility: None,
        content: None,
    };

    db.insert_symbol(&sym);

    let found = db.find_symbols_by_location("repo", "main", "file.rs", 1, 3);
    assert_eq!(found.len(), 1);
    assert!(found[0].commit.is_none());
    assert!(found[0].signature.is_none());
    assert!(found[0].parent_symbol_id.is_none());
    assert!(found[0].visibility.is_none());
}

#[test]
fn test_multiple_symbols_same_file() {
    let mut db = StateDb::new();

    let sym1 = SymbolRecord {
        repo: "repo".to_string(),
        ref_name: "main".to_string(),
        commit: None,
        path: "src/lib.rs".to_string(),
        symbol_id: "sym_a".to_string(),
        symbol_stable_id: "stable_a".to_string(),
        name: "func_a".to_string(),
        qualified_name: "crate::func_a".to_string(),
        kind: SymbolKind::Function,
        language: "rust".to_string(),
        line_start: 1,
        line_end: 10,
        signature: None,
        parent_symbol_id: None,
        visibility: None,
        content: None,
    };

    let sym2 = SymbolRecord {
        repo: "repo".to_string(),
        ref_name: "main".to_string(),
        commit: None,
        path: "src/lib.rs".to_string(),
        symbol_id: "sym_b".to_string(),
        symbol_stable_id: "stable_b".to_string(),
        name: "func_b".to_string(),
        qualified_name: "crate::func_b".to_string(),
        kind: SymbolKind::Function,
        language: "rust".to_string(),
        line_start: 15,
        line_end: 25,
        signature: None,
        parent_symbol_id: None,
        visibility: None,
        content: None,
    };

    db.insert_symbol(&sym1);
    db.insert_symbol(&sym2);

    let found = db.find_symbols_by_location("repo", "main", "src/lib.rs", 1, 25);
    assert_eq!(found.len(), 2);

    let found = db.find_symbols_by_location("repo", "main", "src/lib.rs", 1, 10);
    assert_eq!(found.len(), 1);
    assert_eq!(found[0].name, "func_a");
}

fn running_job(job_id: &str, project_id: &str) -> IndexJob {
    IndexJob {
        job_id: job_id.to_string(),
        project_id: project_id.to_string(),
        ref_name: "live".to_string(),
        mode: "incremental".to_string(),
        head_commit: None,
        sync_id: None,
        status: "running".to_string(),
        changed_files: 0,
        duration_ms: None,
        error_message: None,
        retry_count: 0,
        progress_token: None,
        files_scanned: 0,
        files_indexed: 0,
        symbols_extracted: 0,
        created_at: "2026-01-01T00:00:00Z".to_string(),
        updated_at: "2026-01-01T00:00:00Z".to_string(),
    }
}

#[test]
fn mark_interrupted_jobs_moves_running_rows_once() {
    let mut db = StateDb::new();
    db.create_job(&running_job("job-a", "p1"));
    let mut done = running_job("job-b", "p1");
    done.status = "published".to_string();
    db.create_job(&done);

    let first = db.mark_interrupted_jobs();
    assert_eq!(first, 1);
    let interrupted = db.get_interrupted_jobs();
    assert_eq!(interrupted.len(), 1);
    assert_eq!(interrupted[0].job_id, "job-a");

    let second = db.mark_interrupted_jobs();
    assert_eq!(second, 0);
    assert_eq!(db.get_interrupted_jobs().len(), 1);
}

#[test]
fn get_recent_jobs_orders_by_updated_at_desc() {
    let mut db = StateDb::new();
    let mut a = running_job("job-a", "p1");
    a.status = "published".to_string();
    a.updated_at = "2026-01-01T00:00:00Z".to_string();
    let mut b = running_job("job-b", "p1");
    b.status = "published".to_string();
    b.updated_at = "2026-03-01T00:00:00Z".to_string();
    let mut c = running_job("job-c", "p1");
    c.status = "failed".to_string();
    c.updated_at = "2026-02-01T00:00:00Z".to_string();
    db.create_job(&a);
    db.create_job(&b);
    db.create_job(&c);

    let recent = db.get_recent_jobs("p1", 2);
    assert_eq!(recent.len(), 2);
    assert_eq!(recent[0].job_id, "job-b");
    assert_eq!(recent[1].job_id, "job-c");
}

#[test]
fn get_active_job_skips_terminal_rows() {
    let mut db = StateDb::new();
    let mut done = running_job("job-a", "p1");
    done.status = "published".to_string();
    db.create_job(&done);
    assert!(db.get_active_job("p1").is_none());

    db.create_job(&running_job("job-b", "p1"));
    let active = db.get_active_job("p1").unwrap();
    assert_eq!(active.job_id, "job-b");
}
