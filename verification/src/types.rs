use vstd::prelude::*;
use crate::strutil::str_eq;

verus! {

// ---------------------------------------------------------------------------
// Closed classifications.
// ---------------------------------------------------------------------------

/// The relational schema generation this build reads and writes.
pub const SCHEMA_VERSION: i64 = 1;

/// Whether the on-disk index can answer queries, as classified by the loader.
#[derive(Clone, Copy, PartialEq, Eq, Structural, Debug)]
pub enum SchemaStatus {
    Compatible,
    NotIndexed,
    ReindexRequired,
    CorruptManifest,
}

#[derive(Clone, Copy, PartialEq, Eq, Structural, Debug)]
pub enum FreshnessStatus {
    Fresh,
    Stale,
    Unknown,
}

/// What to do when the index lags the working tree.
#[derive(Clone, Copy, PartialEq, Eq, Structural, Debug)]
pub enum FreshnessPolicy {
    Permissive,
    Advisory,
    Strict,
}

#[derive(Clone, Copy, PartialEq, Eq, Structural, Debug)]
pub enum QueryIntent {
    Path,
    Error,
    Symbol,
    NaturalLanguage,
}

#[derive(Clone, Copy, PartialEq, Eq, Structural, Debug)]
pub enum SymbolKind {
    Function,
    Method,
    Class,
    Struct,
    Enum,
    Trait,
    Interface,
    Module,
    Constant,
    Variable,
    TypeAlias,
}

#[derive(Clone, Copy, PartialEq, Eq, Structural, Debug)]
pub enum RankingExplainLevel {
    Off,
    Basic,
    Full,
}

#[derive(Clone, Copy, PartialEq, Eq, Structural, Debug)]
pub enum DetailLevel {
    Location,
    Signature,
    Context,
}

/// Process-wide prewarm progress; transitions only advance.
#[derive(Clone, Copy, PartialEq, Eq, Structural, Debug)]
pub enum PrewarmState {
    Pending,
    InProgress,
    Complete,
    Failed,
    Skipped,
}

/// Store-layer failure taxonomy, as the adapters classify it.
#[derive(Clone, Debug)]
pub enum StateError {
    /// The index directory or its schema marker is missing.
    NotFound,
    SchemaMigrationRequired { current: i64, required: i64 },
    CorruptManifest(String),
    Tantivy(String),
    Sqlite(String),
    Io(String),
}

// ---------------------------------------------------------------------------
// String forms of the classifications.
// ---------------------------------------------------------------------------

pub open spec fn schema_status_str(s: SchemaStatus) -> Seq<char> {
    match s {
        SchemaStatus::Compatible => "compatible"@,
        SchemaStatus::NotIndexed => "not_indexed"@,
        SchemaStatus::ReindexRequired => "reindex_required"@,
        SchemaStatus::CorruptManifest => "corrupt_manifest"@,
    }
}

pub open spec fn freshness_status_str(s: FreshnessStatus) -> Seq<char> {
    match s {
        FreshnessStatus::Fresh => "fresh"@,
        FreshnessStatus::Stale => "stale"@,
        FreshnessStatus::Unknown => "unknown"@,
    }
}

pub open spec fn prewarm_label(s: PrewarmState) -> Seq<char> {
    match s {
        PrewarmState::Pending => "pending"@,
        PrewarmState::InProgress => "in_progress"@,
        PrewarmState::Complete => "complete"@,
        PrewarmState::Failed => "failed"@,
        PrewarmState::Skipped => "skipped"@,
    }
}

pub open spec fn kind_str(k: SymbolKind) -> Seq<char> {
    match k {
        SymbolKind::Function => "function"@,
        SymbolKind::Method => "method"@,
        SymbolKind::Class => "class"@,
        SymbolKind::Struct => "struct"@,
        SymbolKind::Enum => "enum"@,
        SymbolKind::Trait => "trait"@,
        SymbolKind::Interface => "interface"@,
        SymbolKind::Module => "module"@,
        SymbolKind::Constant => "constant"@,
        SymbolKind::Variable => "variable"@,
        SymbolKind::TypeAlias => "type_alias"@,
    }
}

impl SchemaStatus {
    pub fn as_str(&self) -> (r: &'static str)
        ensures
            r@ == schema_status_str(*self),
    {
        match self {
            SchemaStatus::Compatible => "compatible",
            SchemaStatus::NotIndexed => "not_indexed",
            SchemaStatus::ReindexRequired => "reindex_required",
            SchemaStatus::CorruptManifest => "corrupt_manifest",
        }
    }
}

impl FreshnessStatus {
    pub fn as_str(&self) -> (r: &'static str)
        ensures
            r@ == freshness_status_str(*self),
    {
        match self {
            FreshnessStatus::Fresh => "fresh",
            FreshnessStatus::Stale => "stale",
            FreshnessStatus::Unknown => "unknown",
        }
    }
}

impl PrewarmState {
    /// The label health payloads use for the prewarm state.
    pub fn label(&self) -> (r: &'static str)
        ensures
            r@ == prewarm_label(*self),
    {
        match self {
            PrewarmState::Pending => "pending",
            PrewarmState::InProgress => "in_progress",
            PrewarmState::Complete => "complete",
            PrewarmState::Failed => "failed",
            PrewarmState::Skipped => "skipped",
        }
    }
}

impl SymbolKind {
    pub fn as_str(&self) -> (r: &'static str)
        ensures
            r@ == kind_str(*self),
    {
        match self {
            SymbolKind::Function => "function",
            SymbolKind::Method => "method",
            SymbolKind::Class => "class",
            SymbolKind::Struct => "struct",
            SymbolKind::Enum => "enum",
            SymbolKind::Trait => "trait",
            SymbolKind::Interface => "interface",
            SymbolKind::Module => "module",
            SymbolKind::Constant => "constant",
            SymbolKind::Variable => "variable",
            SymbolKind::TypeAlias => "type_alias",
        }
    }
}

/// The kind denoted by a string, if it names one.
pub open spec fn parse_kind_spec(s: Seq<char>) -> Option<SymbolKind> {
    if s == "function"@ {
        Option::Some(SymbolKind::Function)
    } else if s == "method"@ {
        Option::Some(SymbolKind::Method)
    } else if s == "class"@ {
        Option::Some(SymbolKind::Class)
    } else if s == "struct"@ {
        Option::Some(SymbolKind::Struct)
    } else if s == "enum"@ {
        Option::Some(SymbolKind::Enum)
    } else if s == "trait"@ {
        Option::Some(SymbolKind::Trait)
    } else if s == "interface"@ {
        Option::Some(SymbolKind::Interface)
    } else if s == "module"@ {
        Option::Some(SymbolKind::Module)
    } else if s == "constant"@ {
        Option::Some(SymbolKind::Constant)
    } else if s == "variable"@ {
        Option::Some(SymbolKind::Variable)
    } else if s == "type_alias"@ {
        Option::Some(SymbolKind::TypeAlias)
    } else {
        Option::None
    }
}

pub fn parse_kind(s: &str) -> (r: Option<SymbolKind>)
    ensures
        r == parse_kind_spec(s@),
{
    if str_eq(s, "function") {
        Option::Some(SymbolKind::Function)
    } else if str_eq(s, "method") {
        Option::Some(SymbolKind::Method)
    } else if str_eq(s, "class") {
        Option::Some(SymbolKind::Class)
    } else if str_eq(s, "struct") {
        Option::Some(SymbolKind::Struct)
    } else if str_eq(s, "enum") {
        Option::Some(SymbolKind::Enum)
    } else if str_eq(s, "trait") {
        Option::Some(SymbolKind::Trait)
    } else if str_eq(s, "interface") {
        Option::Some(SymbolKind::Interface)
    } else if str_eq(s, "module") {
        Option::Some(SymbolKind::Module)
    } else if str_eq(s, "constant") {
        Option::Some(SymbolKind::Constant)
    } else if str_eq(s, "variable") {
        Option::Some(SymbolKind::Variable)
    } else if str_eq(s, "type_alias") {
        Option::Some(SymbolKind::TypeAlias)
    } else {
        Option::None
    }
}

// ---------------------------------------------------------------------------
// Records.
// ---------------------------------------------------------------------------

/// Per-branch indexing progress, keyed by `(repo, ref_name)`.
#[derive(Clone, Debug)]
pub struct BranchState {
    pub repo: String,
    pub ref_name: String,
    pub merge_base_commit: Option<String>,
    pub last_indexed_commit: String,
    pub overlay_dir: Option<String>,
    pub file_count: i64,
    pub created_at: String,
    pub last_accessed_at: String,
}

/// One extracted symbol, keyed by `(repo, ref_name, path, symbol_id)`.
#[derive(Clone, Debug)]
pub struct SymbolRecord {
    pub repo: String,
    pub ref_name: String,
    pub commit: Option<String>,
    pub path: String,
    pub symbol_id: String,
    pub symbol_stable_id: String,
    pub name: String,
    pub qualified_name: String,
    pub kind: SymbolKind,
    pub language: String,
    pub line_start: u32,
    pub line_end: u32,
    pub signature: Option<String>,
    pub parent_symbol_id: Option<String>,
    pub visibility: Option<String>,
    pub content: Option<String>,
}

/// A code snippet taken from a symbol body.
#[derive(Clone, Debug)]
pub struct SnippetRecord {
    pub repo: String,
    pub ref_name: String,
    pub commit: Option<String>,
    pub path: String,
    pub language: String,
    pub chunk_type: String,
    pub imports: Option<String>,
    pub line_start: u32,
    pub line_end: u32,
    pub content: String,
}

/// A background indexing job row.
#[derive(Clone, Debug)]
pub struct IndexJob {
    pub job_id: String,
    pub project_id: String,
    pub ref_name: String,
    pub mode: String,
    pub head_commit: Option<String>,
    pub sync_id: Option<String>,
    pub status: String,
    pub changed_files: i64,
    pub duration_ms: Option<i64>,
    pub error_message: Option<String>,
    pub retry_count: i64,
    pub progress_token: Option<String>,
    pub files_scanned: i64,
    pub files_indexed: i64,
    pub symbols_extracted: i64,
    pub created_at: String,
    pub updated_at: String,
}

/// A registered workspace.
#[derive(Clone, Debug)]
pub struct Project {
    pub project_id: String,
    pub repo_root: String,
    pub display_name: Option<String>,
    pub default_ref: String,
    pub vcs_mode: bool,
    pub schema_version: i64,
    pub parser_version: i64,
    pub created_at: String,
    pub updated_at: String,
}

/// Per-file metadata driving incremental re-index decisions.
#[derive(Clone, Debug)]
pub struct FileRecord {
    pub repo: String,
    pub ref_name: String,
    pub commit: Option<String>,
    pub path: String,
    pub filename: String,
    pub language: String,
    pub content_hash: String,
    pub size_bytes: u64,
    pub updated_at: String,
    pub content_head: String,
}

/// A symbol as the tree-walk extractors hand it over: plain values only.
#[derive(Clone, Debug)]
pub struct ExtractedSymbol {
    pub name: String,
    pub qualified_name: String,
    pub kind: SymbolKind,
    pub language: String,
    pub signature: Option<String>,
    pub line_start: u32,
    pub line_end: u32,
    pub visibility: Option<String>,
    pub parent_name: Option<String>,
    pub body: Option<String>,
}

} // verus!
