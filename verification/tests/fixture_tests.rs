use codecompass::fixture::{
    validate_token, AuthHandler, Config, Connection, Method, Request, Response, Role, User,
};
use codecompass::snippets::build_snippet_records;
use codecompass::types::{ExtractedSymbol, SymbolKind};

#[test]
fn roles_parse_and_rank() {
    assert_eq!(Role::from_str_name("ADMIN"), Some(Role::Admin));
    assert_eq!(Role::from_str_name("mod"), Some(Role::Moderator));
    assert_eq!(Role::from_str_name("nobody"), None);
    let u = User::new(7, "kai".to_string(), "kai@example.test".to_string());
    assert!(u.active);
    assert_eq!(u.created_at(), 0);
    assert!(u.has_role(&Role::Guest));
    assert!(u.has_role(&Role::User));
    assert!(!u.has_role(&Role::Admin));
}

#[test]
fn deactivate_clears_the_active_flag() {
    let mut u = User::new(1, "a".to_string(), "a@example.test".to_string());
    u.deactivate();
    assert!(!u.active);
}

#[test]
fn connection_refuses_empty_url_and_runs_queries() {
    assert!(Connection::new("").is_err());
    let conn = Connection::new("postgres://user@db/app").unwrap();
    assert!(conn.is_connected());
    let rows = conn.query("SELECT 1").unwrap();
    assert_eq!(rows, vec!["row from: SELECT 1".to_string()]);
    assert!(conn.query("   ").is_err());
    assert_eq!(conn.url_redacted(), "db/app");
}

#[test]
fn closed_connections_refuse_queries() {
    let mut conn = Connection::new("sqlite://x").unwrap();
    conn.close();
    assert!(!conn.is_connected());
    assert!(conn.query("SELECT 1").is_err());
}

#[test]
fn transactions_retry_conflicts_a_bounded_number_of_times() {
    let conn = Connection::new("db://x").unwrap();
    let ok: Result<u32, _> = conn.execute_in_transaction(|_c| Ok(5));
    assert_eq!(ok.unwrap(), 5);
    let err: Result<u32, _> = conn.execute_in_transaction(|_c| {
        Err(codecompass::fixture::DatabaseError::TransactionConflict)
    });
    assert!(err.is_err());
}

#[test]
fn bearer_tokens_validate_by_shape() {
    assert!(validate_token("Bearer abc", b"secret").is_ok());
    assert!(validate_token("Bearer ", b"secret").is_err());
    assert!(validate_token("Basic abc", b"secret").is_err());
    let claims = validate_token("Bearer xyz", b"secret").unwrap();
    assert_eq!(claims.sub, 3);
}

fn request(method: Method, path: &str, auth: Option<&str>) -> Request {
    let mut headers = Vec::new();
    if let Some(h) = auth {
        headers.push(("authorization".to_string(), h.to_string()));
    }
    Request {
        method,
        path: path.to_string(),
        headers,
        body: Some("{}".to_string()),
    }
}

fn handler() -> AuthHandler {
    AuthHandler::new(
        Config { jwt_secret: "test-signing-key".to_string() },
        Connection::new("db://main").unwrap(),
    )
}

#[test]
fn unauthorized_requests_get_401() {
    let h = handler();
    let r = h.handle_request(&request(Method::Get, "/api/health", None));
    assert_eq!(r.status, 401);
    let r2 = h.handle_request(&request(Method::Get, "/api/health", Some("Basic x")));
    assert_eq!(r2.status, 401);
}

#[test]
fn health_and_user_routes_answer() {
    let h = handler();
    let r = h.handle_request(&request(Method::Get, "/api/health", Some("Bearer tok")));
    assert_eq!(r.status, 200);
    assert_eq!(r.body, "healthy");
    let r2 = h.handle_request(&request(Method::Get, "/api/user", Some("Bearer tok")));
    assert_eq!(r2.status, 200);
    let r3 = h.handle_request(&request(Method::Post, "/api/user", Some("Bearer tok")));
    assert_eq!(r3.status, 200);
    let r4 = h.handle_request(&request(Method::Delete, "/api/user", Some("Bearer tok")));
    assert_eq!(r4.status, 404);
}

#[test]
fn response_constructors_fix_the_status() {
    assert_eq!(Response::ok("x".to_string()).status, 200);
    assert_eq!(Response::unauthorized("no".to_string()).status, 401);
    assert_eq!(Response::not_found().status, 404);
    assert_eq!(Response::internal_error("boom".to_string()).status, 500);
}

fn extracted(kind: SymbolKind, body: Option<&str>) -> ExtractedSymbol {
    ExtractedSymbol {
        name: "thing".to_string(),
        qualified_name: "scope::thing".to_string(),
        kind,
        language: "rust".to_string(),
        signature: None,
        line_start: 3,
        line_end: 9,
        visibility: None,
        parent_name: Some("scope".to_string()),
        body: body.map(|b| b.to_string()),
    }
}

#[test]
fn snippet_records_skip_constants_and_blank_bodies() {
    let symbols = vec![
        extracted(SymbolKind::Function, Some("fn thing() {}")),
        extracted(SymbolKind::Constant, Some("const X: u8 = 1;")),
        extracted(SymbolKind::Method, Some("   ")),
        extracted(SymbolKind::Struct, None),
        extracted(SymbolKind::Module, Some("mod scope {}")),
    ];
    let records = build_snippet_records(&symbols, "repo", "live", "src/lib.rs", Some("c1"));
    assert_eq!(records.len(), 2);
    assert_eq!(records[0].chunk_type, "function_body");
    assert_eq!(records[0].content, "fn thing() {}");
    assert_eq!(records[0].commit.as_deref(), Some("c1"));
    assert_eq!(records[1].chunk_type, "module_body");
}

#[test]
fn make_qualified_joins_parent_and_name() {
    assert_eq!(codecompass::make_qualified(Some("scope"), "thing"), "scope::thing");
    assert_eq!(codecompass::make_qualified(None, "thing"), "thing");
}

#[test]
fn unauthorized_requests_carry_the_auth_error_text() {
    let config = Config {
        jwt_secret: "test-signing-key".to_string(),
    };
    let db = Connection::new("sqlite://users").unwrap();
    let handler = AuthHandler::new(config, db);
    let no_header = Request {
        method: Method::Get,
        path: "/api/health".to_string(),
        headers: Vec::new(),
        body: None,
    };
    let r = handler.handle_request(&no_header);
    assert_eq!(r.status, 401);
    assert_eq!(r.body, "malformed token: missing Authorization header");
    let bad_token = Request {
        method: Method::Get,
        path: "/api/health".to_string(),
        headers: vec![("authorization".to_string(), "Basic abc".to_string())],
        body: None,
    };
    let r2 = handler.handle_request(&bad_token);
    assert_eq!(r2.status, 401);
    assert_eq!(r2.body, "malformed token: missing bearer token");
}
