use vstd::prelude::*;
use crate::strutil::{push_char, seq_starts_with, starts_with, str_eq};

verus! {

// ---------------------------------------------------------------------------
// A miniature authenticated service: the corpus the integration tests index.
// Its symbols sit at known places with known shapes, so queries against it
// have exact expected answers.
// ---------------------------------------------------------------------------

/// Unique identifier for a user in the system.
pub type UserId = u64;

/// Maximum number of retries for transient failures.
pub const MAX_RETRIES: u32 = 3;

/// User roles with ascending privilege levels.
#[derive(Clone, Copy, PartialEq, Eq, Structural, Debug)]
pub enum Role {
    Guest,
    User,
    Moderator,
    Admin,
}

/// The privilege rank a role carries.
pub open spec fn role_level(r: Role) -> int {
    match r {
        Role::Guest => 0,
        Role::User => 1,
        Role::Moderator => 2,
        Role::Admin => 3,
    }
}

impl Role {
    /// The display name of the role.
    pub fn label(&self) -> (r: &'static str)
        ensures
            match *self {
                Role::Guest => r@ == "guest"@,
                Role::User => r@ == "user"@,
                Role::Moderator => r@ == "moderator"@,
                Role::Admin => r@ == "admin"@,
            },
    {
        match self {
            Role::Guest => "guest",
            Role::User => "user",
            Role::Moderator => "moderator",
            Role::Admin => "admin",
        }
    }

    /// Parse a role from a string name; short and long admin forms both work.
    pub fn from_str_name(s: &str) -> (r: Option<Role>)
        ensures
            r == (if crate::strutil::lower_seq(s@) == "guest"@ {
                Option::Some(Role::Guest)
            } else if crate::strutil::lower_seq(s@) == "user"@ {
                Option::Some(Role::User)
            } else if crate::strutil::lower_seq(s@) == "moderator"@ || crate::strutil::lower_seq(
                s@,
            ) == "mod"@ {
                Option::Some(Role::Moderator)
            } else if crate::strutil::lower_seq(s@) == "admin"@ || crate::strutil::lower_seq(s@)
                == "administrator"@ {
                Option::Some(Role::Admin)
            } else {
                Option::None
            }),
    {
        let lower = crate::strutil::to_ascii_lower(s);
        let l = lower.as_str();
        if str_eq(l, "guest") {
            Option::Some(Role::Guest)
        } else if str_eq(l, "user") {
            Option::Some(Role::User)
        } else if str_eq(l, "moderator") || str_eq(l, "mod") {
            Option::Some(Role::Moderator)
        } else if str_eq(l, "admin") || str_eq(l, "administrator") {
            Option::Some(Role::Admin)
        } else {
            Option::None
        }
    }
}

/// Represents a user in the system.
#[derive(Clone, Debug)]
pub struct User {
    pub id: UserId,
    pub username: String,
    pub email: String,
    pub role: Role,
    pub active: bool,
    pub created_at: u64,
}

impl User {
    /// Create a new active user with the default `User` role.
    pub fn new(id: UserId, username: String, email: String) -> (r: User)
        ensures
            r.id == id,
            r.username == username,
            r.email == email,
            r.role == Role::User,
            r.active,
            r.created_at == 0,
    {
        User { id, username, email, role: Role::User, active: true, created_at: 0 }
    }

    /// Check whether the user has at least the given role.
    pub fn has_role(&self, minimum: &Role) -> (r: bool)
        ensures
            r == (role_level(self.role) >= role_level(*minimum)),
    {
        let mine: u32 = match self.role {
            Role::Guest => 0,
            Role::User => 1,
            Role::Moderator => 2,
            Role::Admin => 3,
        };
        let need: u32 = match minimum {
            Role::Guest => 0,
            Role::User => 1,
            Role::Moderator => 2,
            Role::Admin => 3,
        };
        mine >= need
    }

    /// Return the account creation timestamp.
    pub fn created_at(&self) -> (r: u64)
        ensures
            r == self.created_at,
    {
        self.created_at
    }

    /// Deactivate the user account.
    pub fn deactivate(&mut self)
        ensures
            final(self).active == false,
            final(self).id == old(self).id,
            final(self).username == old(self).username,
            final(self).email == old(self).email,
            final(self).role == old(self).role,
            final(self).created_at == old(self).created_at,
    {
        self.active = false;
    }
}

// ---------------------------------------------------------------------------
// Database connection and query execution.
// ---------------------------------------------------------------------------

/// Errors returned by database operations.
#[derive(Clone, Debug)]
pub enum DatabaseError {
    /// Failed to establish a connection to the database.
    ConnectionFailed(String),
    /// A query failed to execute.
    QueryFailed { query: String, reason: String },
    /// The connection pool is exhausted.
    PoolExhausted,
    /// A transaction conflict occurred (retryable).
    TransactionConflict,
}

impl DatabaseError {
    /// A human-readable description of the failure.
    pub fn message(&self) -> (r: String)
        ensures
            *self is ConnectionFailed ==> r@ == "connection failed: "@ + self->ConnectionFailed_0@,
            *self matches DatabaseError::QueryFailed { query, reason } ==> r@ == "query '"@
                + query@ + "' failed: "@ + reason@,
            *self is PoolExhausted ==> r@ == "connection pool exhausted"@,
            *self is TransactionConflict ==> r@ == "transaction conflict, retry"@,
    {
        match self {
            DatabaseError::ConnectionFailed(msg) => {
                let mut m = String::from_str("connection failed: ");
                m.append(msg.as_str());
                m
            },
            DatabaseError::QueryFailed { query, reason } => {
                let mut m = String::from_str("query '");
                m.append(query.as_str());
                m.append("' failed: ");
                m.append(reason.as_str());
                proof {
                    assert(m@ =~= "query '"@ + query@ + "' failed: "@ + reason@);
                }
                m
            },
            DatabaseError::PoolExhausted => String::from_str("connection pool exhausted"),
            DatabaseError::TransactionConflict => String::from_str("transaction conflict, retry"),
        }
    }
}

/// A database connection that can execute queries.
pub struct Connection {
    url: String,
    connected: bool,
    max_retries: u32,
}

impl Connection {
    /// Open a new connection to the database at the given URL; an empty URL
    /// is refused.
    pub fn new(url: &str) -> (r: Result<Connection, DatabaseError>)
        ensures
            url@.len() == 0 <==> r is Err,
            r matches Result::Ok(c) ==> c.url_spec() == url@ && c.connected(),
            r matches Result::Err(e) ==> e matches DatabaseError::ConnectionFailed(m) && m@
                == "empty URL"@,
    {
        if url.unicode_len() == 0 {
            return Result::Err(DatabaseError::ConnectionFailed(String::from_str("empty URL")));
        }
        Result::Ok(Connection { url: url.to_owned(), connected: true, max_retries: MAX_RETRIES })
    }

    /// The connection URL.
    pub closed spec fn url_spec(&self) -> Seq<char> {
        self.url@
    }

    /// Whether the connection is still alive.
    pub closed spec fn connected(&self) -> bool {
        self.connected
    }

    /// Check whether the connection is still alive.
    #[verifier::when_used_as_spec(connected)]
    pub fn is_connected(&self) -> (r: bool)
        ensures
            r == self.connected(),
    {
        self.connected
    }

    /// Execute a SQL query and return the result rows as strings.
    pub fn query(&self, sql: &str) -> (r: Result<Vec<String>, DatabaseError>)
        ensures
            !self.connected() ==> (r matches Result::Err(e) && e matches
                DatabaseError::ConnectionFailed(m) && m@ == "not connected"@),
            self.connected() && crate::strutil::trimmed(sql@).len() == 0 ==> (r matches
                Result::Err(e) && e matches DatabaseError::QueryFailed { query, reason } && query@
                == sql@ && reason@ == "empty query"@),
            self.connected() && crate::strutil::trimmed(sql@).len() > 0 ==> (
            r matches Result::Ok(rows) && rows@.len() == 1 && rows@[0]@ == "row from: "@ + sql@),
    {
        if !self.is_connected() {
            return Result::Err(
                DatabaseError::ConnectionFailed(String::from_str("not connected")),
            );
        }
        let t = crate::strutil::trim_spaces(sql);
        if t.as_str().unicode_len() == 0 {
            return Result::Err(
                DatabaseError::QueryFailed {
                    query: sql.to_owned(),
                    reason: String::from_str("empty query"),
                },
            );
        }
        let mut row = String::from_str("row from: ");
        row.append(sql);
        let mut rows: Vec<String> = Vec::new();
        rows.push(row);
        Result::Ok(rows)
    }

    /// Execute a query within a transaction, retrying on conflicts a bounded
    /// number of times.
    pub fn execute_in_transaction<F, T>(&self, operation: F) -> (r: Result<T, DatabaseError>)
        where F: Fn(&Connection) -> Result<T, DatabaseError>
        requires
            forall|c: &Connection| #[trigger] call_requires(operation, (c,)),
        ensures
            match r {
                Result::Ok(t) => call_ensures(operation, (self,), Result::Ok(t)),
                Result::Err(e) => call_ensures(operation, (self,), Result::Err(e)) || (
                e is TransactionConflict),
            },
    {
        let mut attempts: u32 = 0;
        loop
            invariant
                attempts <= self.max_retries,
                forall|c: &Connection| #[trigger] call_requires(operation, (c,)),
            decreases self.max_retries - attempts,
        {
            let out = operation(self);
            match out {
                Result::Ok(result) => {
                    return Result::Ok(result);
                },
                Result::Err(e) => {
                    let retryable = matches!(e, DatabaseError::TransactionConflict);
                    if retryable && attempts < self.max_retries {
                        attempts = attempts + 1;
                    } else {
                        return Result::Err(e);
                    }
                },
            }
        }
    }

    /// Close the connection.
    pub fn close(&mut self)
        ensures
            !final(self).connected(),
            final(self).url_spec() == old(self).url_spec(),
    {
        self.connected = false;
    }

    /// Return the connection URL with any credentials before `@` redacted.
    pub fn url_redacted(&self) -> (r: String)
        ensures
            !crate::strutil::seq_contains_char(self.url_spec(), '@') ==> r@ == self.url_spec(),
            crate::strutil::seq_contains_char(self.url_spec(), '@') ==> exists|p: int|
                0 <= p < self.url_spec().len() && #[trigger] self.url_spec()[p] == '@' && (forall|
                    j: int,
                |
                    p < j < self.url_spec().len() ==> self.url_spec()[j] != '@') && r@
                    == self.url_spec().subrange(p + 1, self.url_spec().len() as int),
    {
        let n = self.url.as_str().unicode_len();
        let mut last_at: Option<usize> = Option::None;
        let mut i: usize = 0;
        while i < n
            invariant
                n == self.url@.len(),
                0 <= i <= n,
                match last_at {
                    Option::Some(p) => p < i && self.url@[p as int] == '@' && (forall|j: int|
                        p < j < i ==> self.url@[j] != '@'),
                    Option::None => forall|j: int| 0 <= j < i ==> self.url@[j] != '@',
                },
            decreases n - i,
        {
            if self.url.as_str().get_char(i) == '@' {
                last_at = Option::Some(i);
            }
            i = i + 1;
        }
        match last_at {
            Option::Some(p) => {
                let mut out = String::new();
                let mut k: usize = p + 1;
                while k < n
                    invariant
                        n == self.url@.len(),
                        p < n,
                        p + 1 <= k <= n,
                        out@ == self.url@.subrange(p + 1, k as int),
                    decreases n - k,
                {
                    push_char(&mut out, self.url.as_str().get_char(k));
                    assert(self.url@.subrange(p + 1, k + 1) =~= self.url@.subrange(
                        p + 1,
                        k as int,
                    ).push(self.url@[k as int]));
                    k = k + 1;
                }
                proof {
                    assert(0 <= p < self.url@.len() && self.url@[p as int] == '@' && (forall|
                        j: int,
                    |
                        p < j < self.url@.len() ==> self.url@[j] != '@') && out@
                        == self.url@.subrange(p as int + 1, self.url@.len() as int));
                }
                out
            },
            Option::None => {
                assert(self.url@.subrange(0, n as int) =~= self.url@);
                assert(!crate::strutil::seq_contains_char(self.url@, '@'));
                self.url.clone()
            },
        }
    }
}

// ---------------------------------------------------------------------------
// Authentication.
// ---------------------------------------------------------------------------

/// The claims carried by a validated token.
pub struct Claims {
    pub sub: UserId,
}

/// Authentication failures.
#[derive(Clone, Debug)]
pub enum AuthError {
    MalformedToken(String),
}

impl AuthError {
    /// A human-readable description of the failure.
    pub fn message(&self) -> (r: String)
        ensures
            r@ == "malformed token: "@ + self->MalformedToken_0@,
    {
        match self {
            AuthError::MalformedToken(m) => {
                let mut s = String::from_str("malformed token: ");
                s.append(m.as_str());
                s
            },
        }
    }
}

/// Service configuration.
#[derive(Clone, Debug)]
pub struct Config {
    pub jwt_secret: String,
}

/// A bearer header is well-formed when the scheme prefix is present and a
/// non-empty token follows it.
pub open spec fn valid_bearer(header: Seq<char>) -> bool {
    seq_starts_with(header, "Bearer "@) && header.len() > 7
}

/// Validate an `Authorization` header: well-formed bearer tokens yield claims
/// whose subject is the token's length.
pub fn validate_token(header: &str, _secret: &[u8]) -> (r: Result<Claims, AuthError>)
    ensures
        r is Ok <==> valid_bearer(header@),
        r matches Result::Ok(c) ==> c.sub == header@.len() - 7,
        r matches Result::Err(e) ==> e->MalformedToken_0@ == "missing bearer token"@,
{
    let n = header.unicode_len();
    if starts_with(header, "Bearer ") && n > 7 {
        Result::Ok(Claims { sub: (n - 7) as u64 })
    } else {
        Result::Err(AuthError::MalformedToken(String::from_str("missing bearer token")))
    }
}

// ---------------------------------------------------------------------------
// HTTP request handling.
// ---------------------------------------------------------------------------

/// HTTP methods supported by the handler.
#[derive(Clone, Copy, PartialEq, Eq, Structural, Debug)]
pub enum Method {
    Get,
    Post,
    Put,
    Delete,
}

/// A simplified HTTP request.
pub struct Request {
    pub method: Method,
    pub path: String,
    pub headers: Vec<(String, String)>,
    pub body: Option<String>,
}

/// A simplified HTTP response.
pub struct Response {
    pub status: u16,
    pub body: String,
}

impl Response {
    pub fn ok(body: String) -> (r: Response)
        ensures
            r.status == 200,
            r.body == body,
    {
        Response { status: 200, body }
    }

    pub fn unauthorized(msg: String) -> (r: Response)
        ensures
            r.status == 401,
            r.body == msg,
    {
        Response { status: 401, body: msg }
    }

    pub fn not_found() -> (r: Response)
        ensures
            r.status == 404,
            r.body@ == "not found"@,
    {
        Response { status: 404, body: String::from_str("not found") }
    }

    pub fn internal_error(msg: String) -> (r: Response)
        ensures
            r.status == 500,
            r.body == msg,
    {
        Response { status: 500, body: msg }
    }
}

/// The value of the first header with the given name.
pub open spec fn header_lookup(headers: Seq<(String, String)>, name: Seq<char>) -> Option<String>
    decreases headers.len(),
{
    if headers.len() == 0 {
        Option::None
    } else if headers[0].0@ == name {
        Option::Some(headers[0].1)
    } else {
        header_lookup(headers.drop_first(), name)
    }
}

fn find_header<'a>(headers: &'a Vec<(String, String)>, name: &str) -> (r: Option<&'a String>)
    ensures
        match r {
            Option::Some(v) => header_lookup(headers@, name@) == Option::Some(*v),
            Option::None => header_lookup(headers@, name@) is None,
        },
{
    let n = headers.len();
    let mut i: usize = 0;
    assert(headers@.subrange(0, n as int) =~= headers@);
    while i < n
        invariant
            n == headers@.len(),
            0 <= i <= n,
            header_lookup(headers@, name@) == header_lookup(
                headers@.subrange(i as int, n as int),
                name@,
            ),
        decreases n - i,
    {
        assert(headers@.subrange(i as int, n as int)[0] == headers@[i as int]);
        if str_eq(headers[i].0.as_str(), name) {
            return Option::Some(&headers[i].1);
        }
        assert(headers@.subrange(i as int, n as int).drop_first() =~= headers@.subrange(
            i + 1,
            n as int,
        ));
        i = i + 1;
    }
    Option::None
}

/// Handles incoming requests with authentication and routing.
pub struct AuthHandler {
    pub config: Config,
    pub db: Connection,
}

/// The request carries a well-formed bearer token.
pub open spec fn authorized(req: Request) -> bool {
    match header_lookup(req.headers@, "authorization"@) {
        Option::Some(h) => valid_bearer(h@),
        Option::None => false,
    }
}

impl AuthHandler {
    /// Create a new handler with the given configuration and database.
    pub fn new(config: Config, db: Connection) -> (r: AuthHandler)
        ensures
            r.config == config,
            r.db == db,
    {
        AuthHandler { config, db }
    }

    /// Extract and validate the auth token from request headers.
    pub fn authenticate(&self, req: &Request) -> (r: Result<Claims, AuthError>)
        ensures
            r is Ok <==> authorized(*req),
            r matches Result::Err(e) ==> e->MalformedToken_0@ == (
            match header_lookup(req.headers@, "authorization"@) {
                Option::Some(_) => "missing bearer token"@,
                Option::None => "missing Authorization header"@,
            }),
    {
        match find_header(&req.headers, "authorization") {
            Option::Some(header) => validate_token(
                header.as_str(),
                self.config.jwt_secret.as_str().as_bytes(),
            ),
            Option::None => Result::Err(
                AuthError::MalformedToken(String::from_str("missing Authorization header")),
            ),
        }
    }

    /// Fetch a user by ID from the database.
    pub fn get_user(&self, user_id: UserId) -> (r: Response)
        ensures
            self.db.connected() ==> r.status == 200,
            !self.db.connected() ==> r.status == 500,
    {
        let mut sql = String::from_str("SELECT * FROM users WHERE id = ");
        sql.append(crate::strutil::u64_to_dec(user_id).as_str());
        proof {
            reveal_strlit("SELECT * FROM users WHERE id = ");
            assert(crate::strutil::trimmed(sql@).len() > 0) by {
                assert(sql@[0] == 'S');
                assert(!crate::strutil::is_space_char(sql@[0]));
                assert(sql@[sql@.len() - 1] == crate::strutil::dec_chars(user_id as nat).last());
                crate::fixture::lemma_dec_last_not_space(user_id as nat);
                assert(crate::strutil::trimmed(sql@) == sql@);
            }
        }
        match self.db.query(sql.as_str()) {
            Result::Ok(rows) => {
                if rows.len() > 0 {
                    let mut joined = String::new();
                    let mut i: usize = 0;
                    while i < rows.len()
                        invariant
                            0 <= i <= rows@.len(),
                        decreases rows@.len() - i,
                    {
                        if i > 0 {
                            joined.append(",");
                        }
                        joined.append(rows[i].as_str());
                        i = i + 1;
                    }
                    Response::ok(joined)
                } else {
                    Response::not_found()
                }
            },
            Result::Err(e) => {
                let mut msg = String::from_str("db error: ");
                msg.append(e.message().as_str());
                Response::internal_error(msg)
            },
        }
    }

    /// Create a new user from the request body.
    pub fn create_user(&self, req: &Request, _claims: &Claims) -> (r: Response)
        ensures
            r.status == 200,
    {
        match &req.body {
            Option::Some(body) => {
                if body.as_str().unicode_len() > 0 {
                    let mut msg = String::from_str("created: ");
                    msg.append(body.as_str());
                    Response::ok(msg)
                } else {
                    Response::ok(String::from_str("missing body"))
                }
            },
            Option::None => Response::ok(String::from_str("missing body")),
        }
    }

    /// Process an incoming request: validate the `Authorization` header,
    /// extract claims, and route to the appropriate internal handler.
    #[verifier::rlimit(100)]
    #[verifier::spinoff_prover]
    pub fn handle_request(&self, req: &Request) -> (r: Response)
        ensures
            !authorized(*req) ==> r.status == 401 && r.body@ == "malformed token: "@ + (
            match header_lookup(req.headers@, "authorization"@) {
                Option::Some(_) => "missing bearer token"@,
                Option::None => "missing Authorization header"@,
            }),
            authorized(*req) && req.method == Method::Get && req.path@ == "/api/health"@
                ==> r.status == 200,
            authorized(*req) && req.method == Method::Post && req.path@ == "/api/user"@
                ==> r.status == 200,
            authorized(*req) && req.method == Method::Get && req.path@ == "/api/user"@ ==> (
            self.db.connected() ==> r.status == 200) && (!self.db.connected() ==> r.status == 500),
            authorized(*req) && !(req.method == Method::Get && (req.path@ == "/api/user"@
                || req.path@ == "/api/health"@)) && !(req.method == Method::Post && req.path@
                == "/api/user"@) ==> r.status == 404 && r.body@ == "not found"@,
    {
        proof {
            reveal_strlit("/api/health");
            reveal_strlit("/api/user");
            assert("/api/user"@.len() == 9 && "/api/health"@.len() == 11);
            assert("/api/user"@ != "/api/health"@);
        }
        let claims = match self.authenticate(req) {
            Result::Ok(c) => c,
            Result::Err(e) => {
                return Response::unauthorized(e.message());
            },
        };
        let is_get = matches!(req.method, Method::Get);
        let is_post = matches!(req.method, Method::Post);
        if is_get && str_eq(req.path.as_str(), "/api/user") {
            self.get_user(claims.sub)
        } else if is_get && str_eq(req.path.as_str(), "/api/health") {
            Response::ok(String::from_str("healthy"))
        } else if is_post && str_eq(req.path.as_str(), "/api/user") {
            self.create_user(req, &claims)
        } else {
            Response::not_found()
        }
    }
}

/// The last decimal digit of a rendered number is never whitespace.
pub proof fn lemma_dec_last_not_space(n: nat)
    ensures
        !crate::strutil::is_space_char(crate::strutil::dec_chars(n).last()),
        crate::strutil::dec_chars(n).len() > 0,
    decreases n,
{
    if n < 10 {
    } else {
        lemma_dec_last_not_space(n / 10);
    }
}

} // verus!
