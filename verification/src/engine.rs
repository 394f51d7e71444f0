use vstd::prelude::*;
use crate::intent::{intent_of, classify_intent};
use crate::ranking::{boost_of, boosted, rank_le, rerank, LocateResult, SearchResult};
use crate::store::{clone_opt_string, lemma_filter_empty, lemma_filter_step};
use crate::strutil::{
    contains_str, lower_seq, seq_contains_seq, seq_starts_with, starts_with, str_eq,
};
use crate::types::{
    kind_str, FileRecord, QueryIntent, SchemaStatus, SnippetRecord, StateError, SymbolRecord,
};

verus! {

// ---------------------------------------------------------------------------
// The in-memory text index: three shards of plain records.
// ---------------------------------------------------------------------------

/// The open index set a process answers queries from: the symbol, snippet and
/// file shards, published by the indexer.
pub struct SymbolIndex {
    pub symbols: Vec<SymbolRecord>,
    pub snippets: Vec<SnippetRecord>,
    pub files: Vec<FileRecord>,
}

impl SymbolIndex {
    pub fn new() -> (r: SymbolIndex)
        ensures
            r.symbols@.len() == 0,
            r.snippets@.len() == 0,
            r.files@.len() == 0,
    {
        SymbolIndex { symbols: Vec::new(), snippets: Vec::new(), files: Vec::new() }
    }

    pub fn add_symbol(&mut self, s: &SymbolRecord)
        ensures
            final(self).symbols@ == old(self).symbols@.push(*s),
            final(self).snippets == old(self).snippets,
            final(self).files == old(self).files,
    {
        self.symbols.push(s.duplicate());
    }

    pub fn add_snippet(&mut self, s: &SnippetRecord)
        ensures
            final(self).snippets@ == old(self).snippets@.push(*s),
            final(self).symbols == old(self).symbols,
            final(self).files == old(self).files,
    {
        self.snippets.push(SnippetRecord {
            repo: s.repo.clone(),
            ref_name: s.ref_name.clone(),
            commit: clone_opt_string(&s.commit),
            path: s.path.clone(),
            language: s.language.clone(),
            chunk_type: s.chunk_type.clone(),
            imports: clone_opt_string(&s.imports),
            line_start: s.line_start,
            line_end: s.line_end,
            content: s.content.clone(),
        });
    }

    pub fn add_file(&mut self, f: &FileRecord)
        ensures
            final(self).files@ == old(self).files@.push(*f),
            final(self).symbols == old(self).symbols,
            final(self).snippets == old(self).snippets,
    {
        self.files.push(f.duplicate());
    }
}

// ---------------------------------------------------------------------------
// Index runtime loading: classify why an index cannot answer queries.
// ---------------------------------------------------------------------------

/// The loaded runtime: the open index when compatible, and the classification
/// with its human-readable reason otherwise.
pub struct IndexRuntime {
    pub index: Option<SymbolIndex>,
    pub schema_status: SchemaStatus,
    pub compatibility_reason: Option<String>,
}

/// The schema status an open failure maps to.
pub open spec fn classified_status(err: StateError) -> SchemaStatus {
    match err {
        StateError::NotFound => SchemaStatus::NotIndexed,
        StateError::SchemaMigrationRequired { .. } => SchemaStatus::ReindexRequired,
        StateError::CorruptManifest(_) => SchemaStatus::CorruptManifest,
        _ => SchemaStatus::CorruptManifest,
    }
}

/// The human-readable reason an open failure is reported with.
pub open spec fn classified_reason(err: StateError) -> Seq<char> {
    match err {
        StateError::NotFound => "No index found. Run `codecompass index`."@,
        StateError::SchemaMigrationRequired { current, required } =>
            "Index schema is incompatible (current="@ + crate::strutil::dec_chars_i64(
            current as int,
        ) + ", required="@ + crate::strutil::dec_chars_i64(required as int) + ")."@,
        StateError::CorruptManifest(details) => "Index appears corrupted: "@ + details@,
        StateError::Tantivy(details) => "Index open failed: "@ + details@,
        StateError::Sqlite(details) => "Index open failed: "@ + details@,
        StateError::Io(details) => "Index open failed: "@ + details@,
    }
}

/// Classify a failed index open into a schema status and a remediation line.
pub fn classify_index_open_error(err: &StateError) -> (r: (SchemaStatus, String))
    ensures
        r.0 == classified_status(*err),
        r.1@ == classified_reason(*err),
{
    match err {
        StateError::NotFound => (
            SchemaStatus::NotIndexed,
            String::from_str("No index found. Run `codecompass index`."),
        ),
        StateError::SchemaMigrationRequired { current, required } => {
            let mut m = String::from_str("Index schema is incompatible (current=");
            m.append(crate::strutil::i64_to_dec(*current).as_str());
            m.append(", required=");
            m.append(crate::strutil::i64_to_dec(*required).as_str());
            m.append(").");
            proof {
                assert(m@ =~= classified_reason(*err));
            }
            (SchemaStatus::ReindexRequired, m)
        },
        StateError::CorruptManifest(details) => {
            let mut m = String::from_str("Index appears corrupted: ");
            m.append(details.as_str());
            proof {
                assert(m@ =~= classified_reason(*err));
            }
            (SchemaStatus::CorruptManifest, m)
        },
        StateError::Tantivy(details) => {
            let mut m = String::from_str("Index open failed: ");
            m.append(details.as_str());
            proof {
                assert(m@ =~= classified_reason(*err));
            }
            (SchemaStatus::CorruptManifest, m)
        },
        StateError::Sqlite(details) => {
            let mut m = String::from_str("Index open failed: ");
            m.append(details.as_str());
            proof {
                assert(m@ =~= classified_reason(*err));
            }
            (SchemaStatus::CorruptManifest, m)
        },
        StateError::Io(details) => {
            let mut m = String::from_str("Index open failed: ");
            m.append(details.as_str());
            proof {
                assert(m@ =~= classified_reason(*err));
            }
            (SchemaStatus::CorruptManifest, m)
        },
    }
}

/// Turn an attempted index open into the runtime the dispatcher consults:
/// `Compatible` with the index in hand, or a classified failure without it.
pub fn load_index_runtime(open_result: Result<SymbolIndex, StateError>) -> (r: IndexRuntime)
    ensures
        match open_result {
            Result::Ok(_) => r.schema_status == SchemaStatus::Compatible && r.index is Some
                && r.compatibility_reason is None,
            Result::Err(e) => r.schema_status == classified_status(e) && r.index is None && (
            r.compatibility_reason matches Option::Some(s) && s@ == classified_reason(e)),
        },
{
    match open_result {
        Result::Ok(index) => IndexRuntime {
            index: Option::Some(index),
            schema_status: SchemaStatus::Compatible,
            compatibility_reason: Option::None,
        },
        Result::Err(err) => {
            let (status, reason) = classify_index_open_error(&err);
            IndexRuntime {
                index: Option::None,
                schema_status: status,
                compatibility_reason: Option::Some(reason),
            }
        },
    }
}

// ---------------------------------------------------------------------------
// Candidate rows.
// ---------------------------------------------------------------------------

/// The name-match strength standing in for the text score: exact 3, prefix 2,
/// substring 1, else no match.
pub open spec fn name_base(sym_name: Seq<char>, q: Seq<char>) -> int {
    if sym_name == q {
        3int
    } else if seq_starts_with(sym_name, q) {
        2int
    } else if seq_contains_seq(sym_name, q) {
        1int
    } else {
        0int
    }
}

fn name_base_exec(sym_name: &str, q: &str) -> (r: i64)
    ensures
        r as int == name_base(sym_name@, q@),
{
    if str_eq(sym_name, q) {
        3
    } else if starts_with(sym_name, q) {
        2
    } else if contains_str(sym_name, q) {
        1
    } else {
        0
    }
}

/// The view of an optional string argument.
pub open spec fn opt_view(o: Option<&str>) -> Option<Seq<char>> {
    match o {
        Option::Some(s) => Option::Some(s@),
        Option::None => Option::None,
    }
}

/// A symbol record passes the locate filters for `(ref, kind?, language?)`
/// and matches the queried name.
pub open spec fn locate_match(
    s: SymbolRecord,
    q: Seq<char>,
    kind: Option<Seq<char>>,
    language: Option<Seq<char>>,
    ref_name: Seq<char>,
) -> bool {
    &&& s.ref_name@ == ref_name
    &&& (kind is None || kind_str(s.kind) == kind->0)
    &&& (language is None || s.language@ == language->0)
    &&& name_base(s.name@, q) > 0
}

/// The symbol-shard filter as a predicate value, shared by every contract.
pub open spec fn locate_pred(
    q: Seq<char>,
    kind: Option<Seq<char>>,
    language: Option<Seq<char>>,
    ref_name: Seq<char>,
) -> spec_fn(SymbolRecord) -> bool {
    |s: SymbolRecord| locate_match(s, q, kind, language, ref_name)
}

/// The symbol records a locate query matches, in shard order.
pub open spec fn locate_matches_of(
    symbols: Seq<SymbolRecord>,
    q: Seq<char>,
    kind: Option<Seq<char>>,
    language: Option<Seq<char>>,
    ref_name: Seq<char>,
) -> Seq<SymbolRecord> {
    symbols.filter(locate_pred(q, kind, language, ref_name))
}

/// `r` is the candidate row the symbol shard emits for record `s`: the
/// record's own fields, typed `symbol`, scored by name-match strength.
pub open spec fn is_sym_row(r: SearchResult, s: SymbolRecord, q: Seq<char>) -> bool {
    &&& r.result_id == s.symbol_id
    &&& r.symbol_id == Option::Some(s.symbol_id)
    &&& r.symbol_stable_id == Option::Some(s.symbol_stable_id)
    &&& r.result_type@ == "symbol"@
    &&& r.path == s.path
    &&& r.line_start == s.line_start
    &&& r.line_end == s.line_end
    &&& r.kind matches Option::Some(k) && k@ == kind_str(s.kind)
    &&& r.name == Option::Some(s.name)
    &&& r.qualified_name == Option::Some(s.qualified_name)
    &&& r.language == s.language
    &&& r.signature == s.signature
    &&& r.visibility == s.visibility
    &&& r.score as int == name_base(s.name@, q)
    &&& r.snippet is None
}

fn sym_row(s: &SymbolRecord, q: &str) -> (r: SearchResult)
    requires
        name_base(s.name@, q@) > 0,
    ensures
        is_sym_row(r, *s, q@),
{
    SearchResult {
        result_id: s.symbol_id.clone(),
        symbol_id: Option::Some(s.symbol_id.clone()),
        symbol_stable_id: Option::Some(s.symbol_stable_id.clone()),
        result_type: String::from_str("symbol"),
        path: s.path.clone(),
        line_start: s.line_start,
        line_end: s.line_end,
        kind: Option::Some(s.kind.as_str().to_owned()),
        name: Option::Some(s.name.clone()),
        qualified_name: Option::Some(s.qualified_name.clone()),
        language: s.language.clone(),
        signature: clone_opt_string(&s.signature),
        visibility: clone_opt_string(&s.visibility),
        score: name_base_exec(s.name.as_str(), q),
        snippet: Option::None,
    }
}

/// Collect the symbol-shard candidates for a query, in shard order: one row
/// per record that passes `locate_match`.
pub fn collect_symbol_candidates(
    index: &SymbolIndex,
    q: &str,
    kind: Option<&str>,
    language: Option<&str>,
    ref_name: &str,
) -> (r: Vec<SearchResult>)
    ensures
        ({
            let matches = locate_matches_of(
                index.symbols@,
                q@,
                opt_view(kind),
                opt_view(language),
                ref_name@,
            );
            &&& r@.len() == matches.len()
            &&& forall|k: int| 0 <= k < r@.len() ==> is_sym_row(#[trigger] r@[k], matches[k], q@)
        }),
{
    let ghost kv: Option<Seq<char>> = opt_view(kind);
    let ghost lv: Option<Seq<char>> = opt_view(language);
    let ghost p = locate_pred(q@, kv, lv, ref_name@);
    let n = index.symbols.len();
    let mut out: Vec<SearchResult> = Vec::new();
    let mut i: usize = 0;
    proof {
        lemma_filter_empty(index.symbols@.subrange(0, 0), p);
    }
    while i < n
        invariant
            n == index.symbols@.len(),
            0 <= i <= n,
            kv == opt_view(kind),
            lv == opt_view(language),
            p == locate_pred(q@, kv, lv, ref_name@),
            out@.len() == index.symbols@.subrange(0, i as int).filter(p).len(),
            forall|k: int|
                0 <= k < out@.len() ==> is_sym_row(
                    #[trigger] out@[k],
                    index.symbols@.subrange(0, i as int).filter(p)[k],
                    q@,
                ),
        decreases n - i,
    {
        let s = &index.symbols[i];
        let ref_ok = str_eq(s.ref_name.as_str(), ref_name);
        let kind_ok: bool = match kind {
            Option::Some(k) => str_eq(s.kind.as_str(), k),
            Option::None => true,
        };
        let lang_ok: bool = match language {
            Option::Some(l) => str_eq(s.language.as_str(), l),
            Option::None => true,
        };
        let base = name_base_exec(s.name.as_str(), q);
        proof {
            let sseq = index.symbols@.subrange(0, i + 1);
            assert(sseq.drop_last() =~= index.symbols@.subrange(0, i as int));
            assert(sseq.last() == index.symbols@[i as int]);
            lemma_filter_step(sseq, p);
        }
        if ref_ok && kind_ok && lang_ok && base > 0 {
            assert(p(index.symbols@[i as int]));
            out.push(sym_row(s, q));
        } else {
            assert(!p(index.symbols@[i as int]));
        }
        i = i + 1;
    }
    assert(index.symbols@.subrange(0, n as int) =~= index.symbols@);
    out
}

/// `r` is the candidate row the file shard emits for `f`.
pub open spec fn is_file_row(r: SearchResult, f: FileRecord) -> bool {
    &&& r.result_id == f.path
    &&& r.symbol_id is None
    &&& r.symbol_stable_id is None
    &&& r.result_type@ == "file"@
    &&& r.path == f.path
    &&& r.line_start == 1
    &&& r.line_end == 1
    &&& r.kind is None
    &&& r.name == Option::Some(f.filename)
    &&& r.qualified_name is None
    &&& r.language == f.language
    &&& r.score == 1i64
    &&& r.snippet is None
}

/// A file matches a path-intent query when its path or name contains it.
pub open spec fn file_match(f: FileRecord, q: Seq<char>, ref_name: Seq<char>) -> bool {
    &&& f.ref_name@ == ref_name
    &&& (seq_contains_seq(f.path@, q) || seq_contains_seq(f.filename@, q))
}

/// The file-shard filter as a predicate value, shared by every contract.
pub open spec fn file_pred(q: Seq<char>, ref_name: Seq<char>) -> spec_fn(FileRecord) -> bool {
    |f: FileRecord| file_match(f, q, ref_name)
}

/// Collect the file-shard candidates for a query, in shard order.
pub fn collect_file_candidates(index: &SymbolIndex, q: &str, ref_name: &str) -> (r: Vec<
    SearchResult,
>)
    ensures
        ({
            let matches = index.files@.filter(file_pred(q@, ref_name@));
            &&& r@.len() == matches.len()
            &&& forall|k: int| 0 <= k < r@.len() ==> is_file_row(#[trigger] r@[k], matches[k])
        }),
{
    let ghost p = file_pred(q@, ref_name@);
    let n = index.files.len();
    let mut out: Vec<SearchResult> = Vec::new();
    let mut i: usize = 0;
    proof {
        lemma_filter_empty(index.files@.subrange(0, 0), p);
    }
    while i < n
        invariant
            n == index.files@.len(),
            0 <= i <= n,
            p == file_pred(q@, ref_name@),
            out@.len() == index.files@.subrange(0, i as int).filter(p).len(),
            forall|k: int|
                0 <= k < out@.len() ==> is_file_row(
                    #[trigger] out@[k],
                    index.files@.subrange(0, i as int).filter(p)[k],
                ),
        decreases n - i,
    {
        let f = &index.files[i];
        proof {
            let sseq = index.files@.subrange(0, i + 1);
            assert(sseq.drop_last() =~= index.files@.subrange(0, i as int));
            assert(sseq.last() == index.files@[i as int]);
            lemma_filter_step(sseq, p);
        }
        if str_eq(f.ref_name.as_str(), ref_name) && (contains_str(f.path.as_str(), q)
            || contains_str(f.filename.as_str(), q)) {
            assert(p(index.files@[i as int]));
            out.push(SearchResult {
                result_id: f.path.clone(),
                symbol_id: Option::None,
                symbol_stable_id: Option::None,
                result_type: String::from_str("file"),
                path: f.path.clone(),
                line_start: 1,
                line_end: 1,
                kind: Option::None,
                name: Option::Some(f.filename.clone()),
                qualified_name: Option::None,
                language: f.language.clone(),
                signature: Option::None,
                visibility: Option::None,
                score: 1,
                snippet: Option::None,
            });
        } else {
            assert(!p(index.files@[i as int]));
        }
        i = i + 1;
    }
    assert(index.files@.subrange(0, n as int) =~= index.files@);
    out
}

/// `r` is the candidate row the snippet shard emits for `s`.
pub open spec fn is_snippet_row(r: SearchResult, s: SnippetRecord) -> bool {
    &&& r.symbol_id is None
    &&& r.symbol_stable_id is None
    &&& r.result_type@ == "snippet"@
    &&& r.path == s.path
    &&& r.line_start == s.line_start
    &&& r.line_end == s.line_end
    &&& r.kind is None
    &&& r.name is None
    &&& r.qualified_name is None
    &&& r.language == s.language
    &&& r.score == 1i64
    &&& r.snippet == Option::Some(s.content)
}

/// A snippet matches a query when its body contains the query text.
pub open spec fn snippet_match(s: SnippetRecord, q: Seq<char>, ref_name: Seq<char>) -> bool {
    &&& s.ref_name@ == ref_name
    &&& seq_contains_seq(s.content@, q)
}

/// The snippet-shard filter as a predicate value, shared by every contract.
pub open spec fn snippet_pred(q: Seq<char>, ref_name: Seq<char>) -> spec_fn(SnippetRecord) -> bool {
    |s: SnippetRecord| snippet_match(s, q, ref_name)
}

/// Collect the snippet-shard candidates for a query, in shard order.
pub fn collect_snippet_candidates(index: &SymbolIndex, q: &str, ref_name: &str) -> (r: Vec<
    SearchResult,
>)
    ensures
        ({
            let matches = index.snippets@.filter(snippet_pred(q@, ref_name@));
            &&& r@.len() == matches.len()
            &&& forall|k: int| 0 <= k < r@.len() ==> is_snippet_row(#[trigger] r@[k], matches[k])
        }),
{
    let ghost p = snippet_pred(q@, ref_name@);
    let n = index.snippets.len();
    let mut out: Vec<SearchResult> = Vec::new();
    let mut i: usize = 0;
    proof {
        lemma_filter_empty(index.snippets@.subrange(0, 0), p);
    }
    while i < n
        invariant
            n == index.snippets@.len(),
            0 <= i <= n,
            p == snippet_pred(q@, ref_name@),
            out@.len() == index.snippets@.subrange(0, i as int).filter(p).len(),
            forall|k: int|
                0 <= k < out@.len() ==> is_snippet_row(
                    #[trigger] out@[k],
                    index.snippets@.subrange(0, i as int).filter(p)[k],
                ),
        decreases n - i,
    {
        let s = &index.snippets[i];
        proof {
            let sseq = index.snippets@.subrange(0, i + 1);
            assert(sseq.drop_last() =~= index.snippets@.subrange(0, i as int));
            assert(sseq.last() == index.snippets@[i as int]);
            lemma_filter_step(sseq, p);
        }
        if str_eq(s.ref_name.as_str(), ref_name) && contains_str(s.content.as_str(), q) {
            assert(p(index.snippets@[i as int]));
            let mut rid = s.path.clone();
            rid.append(":");
            rid.append(crate::strutil::u64_to_dec(s.line_start as u64).as_str());
            out.push(SearchResult {
                result_id: rid,
                symbol_id: Option::None,
                symbol_stable_id: Option::None,
                result_type: String::from_str("snippet"),
                path: s.path.clone(),
                line_start: s.line_start,
                line_end: s.line_end,
                kind: Option::None,
                name: Option::None,
                qualified_name: Option::None,
                language: s.language.clone(),
                signature: Option::None,
                visibility: Option::None,
                score: 1,
                snippet: Option::Some(s.content.clone()),
            });
        } else {
            assert(!p(index.snippets@[i as int]));
        }
        i = i + 1;
    }
    assert(index.snippets@.subrange(0, n as int) =~= index.snippets@);
    out
}

// ---------------------------------------------------------------------------
// Locate.
// ---------------------------------------------------------------------------

/// The full rank of a matching symbol: name-match strength plus the exact,
/// qualified-name, definition and path boosts, all against the lower-cased
/// query.
pub open spec fn locate_score(s: SymbolRecord, q: Seq<char>) -> int {
    let ql = lower_seq(q);
    name_base(s.name@, q) + (if lower_seq(s.name@) == ql {
        5int
    } else {
        0int
    }) + (if seq_contains_seq(lower_seq(s.qualified_name@), ql) {
        2int
    } else {
        0int
    }) + 1 + (if seq_contains_seq(lower_seq(s.path@), ql) {
        1int
    } else {
        0int
    })
}

/// `r` is the locate row reported for symbol record `s` under query `q`.
pub open spec fn locate_row_for(r: LocateResult, s: SymbolRecord, q: Seq<char>) -> bool {
    &&& r.symbol_id == s.symbol_id
    &&& r.symbol_stable_id == s.symbol_stable_id
    &&& r.path == s.path
    &&& r.line_start == s.line_start
    &&& r.line_end == s.line_end
    &&& r.kind@ == kind_str(s.kind)
    &&& r.name == s.name
    &&& r.qualified_name == s.qualified_name
    &&& r.signature == s.signature
    &&& r.language == s.language
    &&& r.visibility == s.visibility
    &&& r.score as int == locate_score(s, q)
}

/// The row reports one of the matching records' fields and full score.
pub open spec fn reported_from(matches: Seq<SymbolRecord>, row: LocateResult, q: Seq<char>) -> bool {
    exists|j: int| 0 <= j < matches.len() && locate_row_for(row, #[trigger] matches[j], q)
}

/// `r` carries the same finding as search row `c`.
pub open spec fn locate_of_search(r: LocateResult, c: SearchResult) -> bool {
    &&& Option::Some(r.symbol_id) == c.symbol_id
    &&& Option::Some(r.symbol_stable_id) == c.symbol_stable_id
    &&& r.path == c.path
    &&& r.line_start == c.line_start
    &&& r.line_end == c.line_end
    &&& Option::Some(r.kind) == c.kind
    &&& Option::Some(r.name) == c.name
    &&& Option::Some(r.qualified_name) == c.qualified_name
    &&& r.signature == c.signature
    &&& r.language == c.language
    &&& r.visibility == c.visibility
    &&& r.score == c.score
}

/// Find symbol definitions by name: filter the symbol shard, boost and rank
/// the hits, and return at most `limit` of them, best first.
#[verifier::rlimit(100)]
#[verifier::spinoff_prover]
pub fn locate_symbol(
    index: &SymbolIndex,
    name: &str,
    kind: Option<&str>,
    language: Option<&str>,
    ref_name: &str,
    limit: usize,
) -> (r: Vec<LocateResult>)
    ensures
        ({
            let matches = locate_matches_of(
                index.symbols@,
                name@,
                opt_view(kind),
                opt_view(language),
                ref_name@,
            );
            &&& r@.len() == (if limit <= matches.len() {
                limit as int
            } else {
                matches.len() as int
            })
            &&& (forall|k: int|
                0 <= k < r@.len() ==> reported_from(matches, #[trigger] r@[k], name@))
            &&& (forall|k: int|
                0 <= k < r@.len() - 1 ==> (#[trigger] r@[k]).score >= r@[k + 1].score)
        }),
{
    let ghost kv: Option<Seq<char>> = opt_view(kind);
    let ghost lv: Option<Seq<char>> = opt_view(language);
    let ghost matches = locate_matches_of(index.symbols@, name@, kv, lv, ref_name@);
    let mut candidates = collect_symbol_candidates(index, name, kind, language, ref_name);
    let ghost pre = candidates@;
    rerank(&mut candidates, name);
    let n = candidates.len();
    proof {
        pre.map_values(|c: SearchResult| boosted(c, lower_seq(name@))).to_multiset_ensures();
        candidates@.to_multiset_ensures();
        assert(candidates@.to_multiset().len() == candidates@.len());
        assert(pre.map_values(|c: SearchResult| boosted(c, lower_seq(name@))).to_multiset().len()
            == pre.len());
    }
    let take: usize = if limit <= n {
        limit
    } else {
        n
    };
    let mut out: Vec<LocateResult> = Vec::new();
    let mut i: usize = 0;
    while i < take
        invariant
            take <= n == candidates@.len(),
            n == matches.len(),
            n == pre.len(),
            0 <= i <= take,
            out@.len() == i,
            kv == opt_view(kind),
            lv == opt_view(language),
            matches == locate_matches_of(index.symbols@, name@, kv, lv, ref_name@),
            candidates@.to_multiset() == pre.map_values(
                |c: SearchResult| boosted(c, lower_seq(name@)),
            ).to_multiset(),
            forall|k: int| 0 <= k < pre.len() ==> is_sym_row(#[trigger] pre[k], matches[k], name@),
            forall|k: int|
                0 <= k < candidates@.len() - 1 ==> rank_le(
                    #[trigger] candidates@[k],
                    candidates@[k + 1],
                ),
            forall|k: int|
                0 <= k < out@.len() ==> locate_of_search(#[trigger] out@[k], candidates@[k]),
        decreases take - i,
    {
        let c = &candidates[i];
        let row = LocateResult {
            symbol_id: match &c.symbol_id {
                Option::Some(s) => s.clone(),
                Option::None => String::new(),
            },
            symbol_stable_id: match &c.symbol_stable_id {
                Option::Some(s) => s.clone(),
                Option::None => String::new(),
            },
            path: c.path.clone(),
            line_start: c.line_start,
            line_end: c.line_end,
            kind: match &c.kind {
                Option::Some(s) => s.clone(),
                Option::None => String::new(),
            },
            name: match &c.name {
                Option::Some(s) => s.clone(),
                Option::None => String::new(),
            },
            qualified_name: match &c.qualified_name {
                Option::Some(s) => s.clone(),
                Option::None => String::new(),
            },
            signature: clone_opt_string(&c.signature),
            language: c.language.clone(),
            visibility: clone_opt_string(&c.visibility),
            score: c.score,
        };
        proof {
            lemma_locate_source(pre, candidates@, i as int, name@);
            let j = choose|j: int|
                0 <= j < pre.len() && #[trigger] boosted(pre[j], lower_seq(name@))
                    == candidates@[i as int];
            assert(is_sym_row(pre[j], matches[j], name@));
            assert(candidates@[i as int].symbol_id == pre[j].symbol_id);
            assert(locate_of_search(row, candidates@[i as int]));
        }
        out.push(row);
        i = i + 1;
    }
    proof {
        lemma_locate_outputs(
            out@,
            candidates@,
            pre,
            matches,
            index.symbols@,
            name@,
            kv,
            lv,
            ref_name@,
        );
        assert forall|k: int| 0 <= k < out@.len() - 1 implies (#[trigger] out@[k]).score >= out@[k
            + 1].score by {
            assert(rank_le(candidates@[k], candidates@[k + 1]));
            assert(locate_of_search(out@[k], candidates@[k]));
            assert(locate_of_search(out@[k + 1], candidates@[k + 1]));
        }
    }
    out
}

/// Every surviving locate row reports some matching record, because each row
/// projects a sorted candidate, each candidate is a boosted shard row, and
/// each shard row reports a match.
proof fn lemma_locate_outputs(
    out: Seq<LocateResult>,
    sorted: Seq<SearchResult>,
    pre: Seq<SearchResult>,
    matches: Seq<SymbolRecord>,
    symbols: Seq<SymbolRecord>,
    q: Seq<char>,
    kv: Option<Seq<char>>,
    lv: Option<Seq<char>>,
    rf: Seq<char>,
)
    requires
        out.len() <= sorted.len(),
        matches == locate_matches_of(symbols, q, kv, lv, rf),
        pre.len() == matches.len(),
        forall|k: int| 0 <= k < out.len() ==> locate_of_search(#[trigger] out[k], sorted[k]),
        forall|k: int| 0 <= k < pre.len() ==> is_sym_row(#[trigger] pre[k], matches[k], q),
        sorted.to_multiset() == pre.map_values(
            |c: SearchResult| boosted(c, lower_seq(q)),
        ).to_multiset(),
    ensures
        forall|k: int| 0 <= k < out.len() ==> reported_from(matches, #[trigger] out[k], q),
{
    assert forall|k: int| 0 <= k < out.len() implies reported_from(
        matches,
        #[trigger] out[k],
        q,
    ) by {
        assert(locate_of_search(out[k], sorted[k]));
        lemma_locate_source(pre, sorted, k, q);
        let j = choose|j: int|
            0 <= j < pre.len() && #[trigger] boosted(pre[j], lower_seq(q)) == sorted[k];
        assert(is_sym_row(pre[j], matches[j], q));
        assert(locate_match(matches[j], q, kv, lv, rf)) by {
            symbols.lemma_filter_pred(locate_pred(q, kv, lv, rf), j);
        }
        lemma_row_projection(out[k], sorted[k], pre[j], matches[j], q);
        assert(locate_row_for(out[k], matches[j], q));
        assert(reported_from(matches, out[k], q));
    }
}

/// Compose the three correspondences: a locate row projected from a boosted
/// symbol-shard candidate reports the record's fields and full score.
proof fn lemma_row_projection(
    r: LocateResult,
    c: SearchResult,
    p: SearchResult,
    s: SymbolRecord,
    q: Seq<char>,
)
    requires
        locate_of_search(r, c),
        c == boosted(p, lower_seq(q)),
        is_sym_row(p, s, q),
        name_base(s.name@, q) > 0,
    ensures
        locate_row_for(r, s, q),
{
    assert(p.score as int == name_base(s.name@, q));
    assert(name_base(s.name@, q) <= 3);
    assert(boost_of(p, lower_seq(q)) <= 9);
    assert(boost_of(p, lower_seq(q)) >= 0);
    assert(c.score as int == p.score + boost_of(p, lower_seq(q)));
    assert(p.name->0 == s.name);
    assert(p.qualified_name->0 == s.qualified_name);
    assert(p.path == s.path);
    assert(r.score as int == locate_score(s, q));
}

proof fn lemma_locate_source(
    pre: Seq<SearchResult>,
    sorted: Seq<SearchResult>,
    i: int,
    q: Seq<char>,
)
    requires
        0 <= i < sorted.len(),
        sorted.to_multiset() == pre.map_values(
            |c: SearchResult| boosted(c, lower_seq(q)),
        ).to_multiset(),
    ensures
        exists|j: int|
            0 <= j < pre.len() && #[trigger] boosted(pre[j], lower_seq(q)) == sorted[i],
{
    let mapped = pre.map_values(|c: SearchResult| boosted(c, lower_seq(q)));
    sorted.to_multiset_ensures();
    assert(sorted.contains(sorted[i]));
    assert(sorted.to_multiset().count(sorted[i]) > 0);
    mapped.to_multiset_ensures();
    assert(mapped.to_multiset().count(sorted[i]) > 0);
    assert(mapped.contains(sorted[i]));
    let j = choose|j: int| 0 <= j < mapped.len() && mapped[j] == sorted[i];
    assert(mapped[j] == boosted(pre[j], lower_seq(q)));
}


// ---------------------------------------------------------------------------
// Search.
// ---------------------------------------------------------------------------

/// What the search pipeline hands back to the dispatcher.
pub struct SearchOutcome {
    pub results: Vec<SearchResult>,
    pub query_intent: QueryIntent,
    pub total_candidates: usize,
}

/// How many candidates each route yields.
pub open spec fn search_candidate_count(
    index: SymbolIndex,
    q: Seq<char>,
    language: Option<Seq<char>>,
    ref_name: Seq<char>,
) -> int {
    let it = intent_of(q);
    let syms = locate_matches_of(
        index.symbols@,
        trimmed_query(q),
        Option::None,
        language,
        ref_name,
    ).len();
    let files = index.files@.filter(file_pred(trimmed_query(q), ref_name)).len();
    let snips = index.snippets@.filter(snippet_pred(trimmed_query(q), ref_name)).len();
    if it is Path {
        (files + syms) as int
    } else {
        (snips + syms) as int
    }
}

/// The trimmed form of the query the shards are scanned with.
pub open spec fn trimmed_query(q: Seq<char>) -> Seq<char> {
    crate::strutil::trimmed(q)
}

/// `row` is the boosted symbol-shard candidate of some record that matches
/// the query.
pub open spec fn reported_sym_row(
    index: SymbolIndex,
    q: Seq<char>,
    language: Option<Seq<char>>,
    ref_name: Seq<char>,
    row: SearchResult,
) -> bool {
    exists|j: int, c: SearchResult|
        0 <= j < locate_matches_of(
            index.symbols@,
            trimmed_query(q),
            Option::None,
            language,
            ref_name,
        ).len() && #[trigger] is_sym_row(
            c,
            locate_matches_of(index.symbols@, trimmed_query(q), Option::None, language, ref_name)[j],
            trimmed_query(q),
        ) && row == boosted(c, lower_seq(q))
}

/// `row` is the boosted file-shard candidate of some matching file record.
pub open spec fn reported_file_row(
    index: SymbolIndex,
    q: Seq<char>,
    ref_name: Seq<char>,
    row: SearchResult,
) -> bool {
    exists|j: int, c: SearchResult|
        0 <= j < index.files@.filter(file_pred(trimmed_query(q), ref_name)).len()
            && #[trigger] is_file_row(
            c,
            index.files@.filter(file_pred(trimmed_query(q), ref_name))[j],
        ) && row == boosted(c, lower_seq(q))
}

/// `row` is the boosted snippet-shard candidate of some matching snippet.
pub open spec fn reported_snippet_row(
    index: SymbolIndex,
    q: Seq<char>,
    ref_name: Seq<char>,
    row: SearchResult,
) -> bool {
    exists|j: int, c: SearchResult|
        0 <= j < index.snippets@.filter(snippet_pred(trimmed_query(q), ref_name)).len()
            && #[trigger] is_snippet_row(
            c,
            index.snippets@.filter(snippet_pred(trimmed_query(q), ref_name))[j],
        ) && row == boosted(c, lower_seq(q))
}

/// Every returned search row is the boosted candidate of a record of one of
/// the shards the query's intent routes to.
pub open spec fn search_row_reported(
    index: SymbolIndex,
    q: Seq<char>,
    language: Option<Seq<char>>,
    ref_name: Seq<char>,
    row: SearchResult,
) -> bool {
    ||| reported_sym_row(index, q, language, ref_name, row)
    ||| (intent_of(q) is Path && reported_file_row(index, q, ref_name, row))
    ||| (!(intent_of(q) is Path) && reported_snippet_row(index, q, ref_name, row))
}

/// Search across symbols, snippets and files: classify the query's intent,
/// gather the routed shards' candidates, rerank them all, and keep the best
/// `limit`.
pub fn search_code(
    index: &SymbolIndex,
    query: &str,
    ref_name: &str,
    language: Option<&str>,
    limit: usize,
) -> (r: SearchOutcome)
    ensures
        r.query_intent == intent_of(query@),
        r.total_candidates as int == search_candidate_count(
            *index,
            query@,
            opt_view(language),
            ref_name@,
        ),
        r.results@.len() <= limit,
        r.results@.len() == (if limit <= r.total_candidates {
            limit as int
        } else {
            r.total_candidates as int
        }),
        forall|k: int|
            0 <= k < r.results@.len() - 1 ==> rank_le(
                #[trigger] r.results@[k],
                r.results@[k + 1],
            ),
        forall|k: int|
            0 <= k < r.results@.len() ==> search_row_reported(
                *index,
                query@,
                opt_view(language),
                ref_name@,
                #[trigger] r.results@[k],
            ),
{
    let intent = classify_intent(query);
    let t = crate::strutil::trim_spaces(query);
    let tq = t.as_str();
    let mut pool: Vec<SearchResult>;
    match intent {
        QueryIntent::Path => {
            pool = collect_file_candidates(index, tq, ref_name);
            let mut syms = collect_symbol_candidates(index, tq, Option::None, language, ref_name);
            pool.append(&mut syms);
        },
        QueryIntent::Symbol => {
            let mut snips = collect_snippet_candidates(index, tq, ref_name);
            pool = collect_symbol_candidates(index, tq, Option::None, language, ref_name);
            pool.append(&mut snips);
            proof {
                assert(pool@.len() == index.snippets@.filter(
                    snippet_pred(trimmed_query(query@), ref_name@),
                ).len() + locate_matches_of(
                    index.symbols@,
                    trimmed_query(query@),
                    Option::None,
                    opt_view(language),
                    ref_name@,
                ).len());
            }
        },
        _ => {
            pool = collect_snippet_candidates(index, tq, ref_name);
            let mut syms = collect_symbol_candidates(index, tq, Option::None, language, ref_name);
            pool.append(&mut syms);
        },
    }
    let total = pool.len();
    let ghost pre = pool@;
    rerank(&mut pool, query);
    let ghost sorted = pool@;
    let keep: usize = if limit <= total {
        limit
    } else {
        total
    };
    proof {
        pool@.to_multiset_ensures();
        assert(pool@.to_multiset().len() == pool@.len());
    }
    assert(pool@.len() == total);
    pool.truncate(keep);
    proof {
        assert forall|k: int| 0 <= k < pool@.len() - 1 implies rank_le(
            #[trigger] pool@[k],
            pool@[k + 1],
        ) by {
        }
        let tq = trimmed_query(query@);
        let lv = opt_view(language);
        let matches = locate_matches_of(index.symbols@, tq, Option::None, lv, ref_name@);
        let fm = index.files@.filter(file_pred(tq, ref_name@));
        let sm = index.snippets@.filter(snippet_pred(tq, ref_name@));
        assert forall|k: int| 0 <= k < pool@.len() implies search_row_reported(
            *index,
            query@,
            lv,
            ref_name@,
            #[trigger] pool@[k],
        ) by {
            assert(pool@[k] == sorted[k]);
            lemma_locate_source(pre, sorted, k, query@);
            let j = choose|j: int|
                0 <= j < pre.len() && #[trigger] boosted(pre[j], lower_seq(query@)) == sorted[k];
            if intent_of(query@) is Path {
                if j < fm.len() {
                    assert(is_file_row(pre[j], fm[j]));
                    assert(reported_file_row(*index, query@, ref_name@, pool@[k]));
                } else {
                    assert(is_sym_row(pre[j], matches[j - fm.len()], tq));
                    assert(reported_sym_row(*index, query@, lv, ref_name@, pool@[k]));
                }
            } else if intent_of(query@) is Symbol {
                if j < matches.len() {
                    assert(is_sym_row(pre[j], matches[j], tq));
                    assert(reported_sym_row(*index, query@, lv, ref_name@, pool@[k]));
                } else {
                    assert(is_snippet_row(pre[j], sm[j - matches.len()]));
                    assert(reported_snippet_row(*index, query@, ref_name@, pool@[k]));
                }
            } else {
                if j < sm.len() {
                    assert(is_snippet_row(pre[j], sm[j]));
                    assert(reported_snippet_row(*index, query@, ref_name@, pool@[k]));
                } else {
                    assert(is_sym_row(pre[j], matches[j - sm.len()], tq));
                    assert(reported_sym_row(*index, query@, lv, ref_name@, pool@[k]));
                }
            }
        }
    }
    SearchOutcome { results: pool, query_intent: intent, total_candidates: total }
}

} // verus!
