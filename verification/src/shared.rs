use vstd::prelude::*;
use crate::json::{jstr, JsonValue};
use crate::ranking::{LocateResult, RankingReasons, SearchResult};
use crate::store::clone_opt_string;
use crate::strutil::{str_eq, to_ascii_lower, trim_spaces, trimmed, lower_seq};
use crate::types::{DetailLevel, RankingExplainLevel, StateError};

verus! {

// ---------------------------------------------------------------------------
// Deduplication.
// ---------------------------------------------------------------------------

/// The stable id counts as a key only when present and non-empty.
pub open spec fn has_stable_key(r: SearchResult) -> bool {
    r.symbol_stable_id is Some && r.symbol_stable_id->0@.len() > 0
}

pub open spec fn name_or_empty(r: SearchResult) -> Seq<char> {
    opt_str_or_empty(r.name)
}

pub open spec fn opt_str_or_empty(o: Option<String>) -> Seq<char> {
    match o {
        Option::Some(n) => n@,
        Option::None => Seq::empty(),
    }
}

fn opt_str_or_empty_eq(x: &Option<String>, y: &Option<String>) -> (r: bool)
    ensures
        r == (opt_str_or_empty(*x) == opt_str_or_empty(*y)),
{
    match (x, y) {
        (Option::Some(a), Option::Some(b)) => str_eq(a.as_str(), b.as_str()),
        (Option::None, Option::None) => true,
        (Option::Some(a), Option::None) => {
            let e = a.as_str().unicode_len() == 0;
            proof {
                if a@.len() == 0 {
                    assert(a@ =~= Seq::<char>::empty());
                }
            }
            e
        },
        (Option::None, Option::Some(b)) => {
            let e = b.as_str().unicode_len() == 0;
            proof {
                if b@.len() == 0 {
                    assert(b@ =~= Seq::<char>::empty());
                }
            }
            e
        },
    }
}

/// Two search results denote the same finding: equal non-empty stable ids, or
/// equal `(result_type, path, line range, name)` tuples when neither has one.
pub open spec fn same_search_key(a: SearchResult, b: SearchResult) -> bool {
    if has_stable_key(a) && has_stable_key(b) {
        a.symbol_stable_id->0@ == b.symbol_stable_id->0@
    } else if !has_stable_key(a) && !has_stable_key(b) {
        a.result_type@ == b.result_type@ && a.path@ == b.path@ && a.line_start == b.line_start
            && a.line_end == b.line_end && name_or_empty(a) == name_or_empty(b)
    } else {
        false
    }
}

fn same_search_key_exec(a: &SearchResult, b: &SearchResult) -> (r: bool)
    ensures
        r == same_search_key(*a, *b),
{
    let a_stable: bool = match &a.symbol_stable_id {
        Option::Some(s) => s.as_str().unicode_len() > 0,
        Option::None => false,
    };
    let b_stable: bool = match &b.symbol_stable_id {
        Option::Some(s) => s.as_str().unicode_len() > 0,
        Option::None => false,
    };
    assert(a_stable == has_stable_key(*a));
    assert(b_stable == has_stable_key(*b));
    if a_stable && b_stable {
        match (&a.symbol_stable_id, &b.symbol_stable_id) {
            (Option::Some(x), Option::Some(y)) => str_eq(x.as_str(), y.as_str()),
            _ => {
                assert(false);
                false
            },
        }
    } else if !a_stable && !b_stable {
        let names_eq: bool = opt_str_or_empty_eq(&a.name, &b.name);
        str_eq(a.result_type.as_str(), b.result_type.as_str()) && str_eq(
            a.path.as_str(),
            b.path.as_str(),
        ) && a.line_start == b.line_start && a.line_end == b.line_end && names_eq
    } else {
        false
    }
}

/// Sharing a key is symmetric.
pub proof fn lemma_search_key_symmetric(a: SearchResult, b: SearchResult)
    ensures
        same_search_key(a, b) == same_search_key(b, a),
{
}

/// Position `i` survives dedup: no earlier result shares its key.
#[verifier::opaque]
pub open spec fn first_occurrence(s: Seq<SearchResult>, i: int) -> bool {
    forall|j: int| 0 <= j < i ==> !same_search_key(#[trigger] s[j], s[i])
}

/// Drop every result whose key was already seen; the first occurrence wins.
/// Returns the survivors, the original index of each survivor, and how many
/// rows were suppressed.
#[verifier::rlimit(100)]
pub fn dedup_search_results(results: Vec<SearchResult>) -> (r: (
    Vec<SearchResult>,
    Vec<usize>,
    usize,
))
    ensures
        r.0@.len() == r.1@.len(),
        r.2 == results@.len() - r.0@.len(),
        forall|k: int|
            0 <= k < r.1@.len() ==> 0 <= #[trigger] r.1@[k] < results@.len() && r.0@[k]
                == results@[r.1@[k] as int] && first_occurrence(results@, r.1@[k] as int),
        forall|k: int, l: int| #![trigger r.1@[k], r.1@[l]] 0 <= k < l < r.1@.len() ==> r.1@[k] < r.1@[l],
        forall|i: int|
            0 <= i < results@.len() && first_occurrence(results@, i) ==> exists|k: int|
                0 <= k < r.1@.len() && #[trigger] r.1@[k] == i,
{
    let n = results.len();
    let mut kept: Vec<SearchResult> = Vec::new();
    let mut kept_indices: Vec<usize> = Vec::new();
    let mut suppressed: usize = 0;
    let mut i: usize = 0;
    while i < n
        invariant
            n == results@.len(),
            0 <= i <= n,
            kept@.len() == kept_indices@.len(),
            kept@.len() + suppressed == i,
            forall|k: int|
                0 <= k < kept_indices@.len() ==> 0 <= #[trigger] kept_indices@[k] < i && kept@[k]
                    == results@[kept_indices@[k] as int] && first_occurrence(
                    results@,
                    kept_indices@[k] as int,
                ),
            forall|k: int, l: int|
                #![trigger kept_indices@[k], kept_indices@[l]]
                0 <= k < l < kept_indices@.len() ==> kept_indices@[k] < kept_indices@[l],
            forall|j: int|
                0 <= j < i && first_occurrence(results@, j) ==> exists|k: int|
                    0 <= k < kept_indices@.len() && #[trigger] kept_indices@[k] == j,
        decreases n - i,
    {
        let mut dup = false;
        let mut j: usize = 0;
        while j < i
            invariant
                n == results@.len(),
                0 <= j <= i < n,
                dup <==> exists|t: int|
                    0 <= t < j && same_search_key(#[trigger] results@[t], results@[i as int]),
            decreases i - j,
        {
            if same_search_key_exec(&results[j], &results[i]) {
                dup = true;
                assert(same_search_key(results@[j as int], results@[i as int]));
                j = i;
            } else {
                j = j + 1;
            }
        }
        if dup {
            suppressed = suppressed + 1;
            proof {
                reveal(first_occurrence);
                let t = choose|t: int|
                    0 <= t < i && same_search_key(#[trigger] results@[t], results@[i as int]);
                assert(same_search_key(results@[t], results@[i as int]));
                assert(!first_occurrence(results@, i as int));
            }
        } else {
            let ghost prev_ki = kept_indices@;
            kept.push(results[i].duplicate());
            kept_indices.push(i);
            proof {
                reveal(first_occurrence);
                assert(first_occurrence(results@, i as int));
                assert(kept_indices@[prev_ki.len() as int] == i);
                assert forall|j: int|
                    0 <= j < i + 1 && first_occurrence(results@, j) implies exists|k: int|
                    0 <= k < kept_indices@.len() && #[trigger] kept_indices@[k] == j by {
                    if j < i {
                        let k = choose|k: int| 0 <= k < prev_ki.len() && #[trigger] prev_ki[k] == j;
                        assert(kept_indices@[k] == j);
                    } else {
                        assert(kept_indices@[prev_ki.len() as int] == j);
                    }
                }
            }
        }
        i = i + 1;
    }
    proof {
        assert(forall|ii: int|
            0 <= ii < results@.len() && first_occurrence(results@, ii) ==> exists|k: int|
                0 <= k < kept_indices@.len() && #[trigger] kept_indices@[k] == ii);
    }
    (kept, kept_indices, suppressed)
}

/// The locate key: the stable id when non-empty, else path, lines and name.
pub open spec fn same_locate_key(a: LocateResult, b: LocateResult) -> bool {
    if a.symbol_stable_id@.len() > 0 && b.symbol_stable_id@.len() > 0 {
        a.symbol_stable_id@ == b.symbol_stable_id@
    } else if a.symbol_stable_id@.len() == 0 && b.symbol_stable_id@.len() == 0 {
        a.path@ == b.path@ && a.line_start == b.line_start && a.line_end == b.line_end && a.name@
            == b.name@
    } else {
        false
    }
}

fn same_locate_key_exec(a: &LocateResult, b: &LocateResult) -> (r: bool)
    ensures
        r == same_locate_key(*a, *b),
{
    let a_stable = a.symbol_stable_id.as_str().unicode_len() > 0;
    let b_stable = b.symbol_stable_id.as_str().unicode_len() > 0;
    if a_stable && b_stable {
        str_eq(a.symbol_stable_id.as_str(), b.symbol_stable_id.as_str())
    } else if !a_stable && !b_stable {
        str_eq(a.path.as_str(), b.path.as_str()) && a.line_start == b.line_start && a.line_end
            == b.line_end && str_eq(a.name.as_str(), b.name.as_str())
    } else {
        false
    }
}

#[verifier::opaque]
pub open spec fn first_locate_occurrence(s: Seq<LocateResult>, i: int) -> bool {
    forall|j: int| 0 <= j < i ==> !same_locate_key(#[trigger] s[j], s[i])
}

/// Drop locate results whose key was already seen; first occurrence wins.
#[verifier::rlimit(100)]
pub fn dedup_locate_results(results: Vec<LocateResult>) -> (r: (Vec<LocateResult>, usize))
    ensures
        r.1 == results@.len() - r.0@.len(),
        forall|k: int| 0 <= k < r.0@.len() ==> results@.contains(#[trigger] r.0@[k]),
        forall|k: int, l: int|
            #![trigger r.0@[k], r.0@[l]]
            0 <= k < l < r.0@.len() ==> !same_locate_key(r.0@[k], r.0@[l]),
        forall|i: int|
            0 <= i < results@.len() && first_locate_occurrence(results@, i) ==> exists|k: int|
                0 <= k < r.0@.len() && #[trigger] r.0@[k] == results@[i],
{
    let n = results.len();
    let mut kept: Vec<LocateResult> = Vec::new();
    let mut kept_indices: Vec<usize> = Vec::new();
    let mut i: usize = 0;
    while i < n
        invariant
            n == results@.len(),
            0 <= i <= n,
            kept@.len() == kept_indices@.len(),
            kept@.len() <= i,
            forall|k: int|
                0 <= k < kept_indices@.len() ==> 0 <= #[trigger] kept_indices@[k] < i && kept@[k]
                    == results@[kept_indices@[k] as int] && first_locate_occurrence(
                    results@,
                    kept_indices@[k] as int,
                ),
            forall|k: int, l: int|
                #![trigger kept_indices@[k], kept_indices@[l]]
                0 <= k < l < kept_indices@.len() ==> kept_indices@[k] < kept_indices@[l],
            forall|j: int|
                0 <= j < i && first_locate_occurrence(results@, j) ==> exists|k: int|
                    0 <= k < kept_indices@.len() && #[trigger] kept_indices@[k] == j,
        decreases n - i,
    {
        let mut dup = false;
        let mut j: usize = 0;
        while j < i
            invariant
                n == results@.len(),
                0 <= j <= i < n,
                dup <==> exists|t: int|
                    0 <= t < j && same_locate_key(#[trigger] results@[t], results@[i as int]),
            decreases i - j,
        {
            if same_locate_key_exec(&results[j], &results[i]) {
                dup = true;
                assert(same_locate_key(results@[j as int], results@[i as int]));
                j = i;
            } else {
                j = j + 1;
            }
        }
        if dup {
            proof {
                reveal(first_locate_occurrence);
                let t = choose|t: int|
                    0 <= t < i && same_locate_key(#[trigger] results@[t], results@[i as int]);
                assert(same_locate_key(results@[t], results@[i as int]));
                assert(!first_locate_occurrence(results@, i as int));
            }
        } else {
            let ghost prev_ki = kept_indices@;
            kept.push(results[i].duplicate());
            kept_indices.push(i);
            proof {
                reveal(first_locate_occurrence);
                assert(first_locate_occurrence(results@, i as int));
                assert(kept_indices@[prev_ki.len() as int] == i);
                assert forall|j2: int|
                    0 <= j2 < i + 1 && first_locate_occurrence(results@, j2) implies exists|k: int|
                    0 <= k < kept_indices@.len() && #[trigger] kept_indices@[k] == j2 by {
                    if j2 < i {
                        let k = choose|k: int|
                            0 <= k < prev_ki.len() && #[trigger] prev_ki[k] == j2;
                        assert(kept_indices@[k] == j2);
                    } else {
                        assert(kept_indices@[prev_ki.len() as int] == j2);
                    }
                }
            }
        }
        i = i + 1;
    }
    proof {
        assert forall|k: int| 0 <= k < kept@.len() implies results@.contains(
            #[trigger] kept@[k],
        ) by {
            assert(results@[kept_indices@[k] as int] == kept@[k]);
        }
        assert forall|k: int, l: int|
            #![trigger kept@[k], kept@[l]]
            0 <= k < l < kept@.len() implies !same_locate_key(kept@[k], kept@[l]) by {
            reveal(first_locate_occurrence);
            let a = kept_indices@[k] as int;
            let b = kept_indices@[l] as int;
            assert(a < b);
            assert(first_locate_occurrence(results@, b));
            assert(!same_locate_key(results@[a], results@[b]));
        }
        assert forall|ii: int|
            0 <= ii < results@.len() && first_locate_occurrence(results@, ii) implies exists|k: int|
            0 <= k < kept@.len() && #[trigger] kept@[k] == results@[ii] by {
            let k = choose|k: int|
                0 <= k < kept_indices@.len() && #[trigger] kept_indices@[k] == ii;
            assert(kept@[k] == results@[ii]);
        }
    }
    let suppressed = n - kept.len();
    (kept, suppressed)
}

// ---------------------------------------------------------------------------
// Ranking-reason alignment after dedup.
// ---------------------------------------------------------------------------

/// The reasons surviving dedup, renumbered by surviving position.
pub open spec fn aligned_reasons(rs: Seq<RankingReasons>, ks: Seq<usize>) -> Seq<RankingReasons>
    decreases ks.len(),
{
    if ks.len() == 0 {
        Seq::empty()
    } else {
        let rest = aligned_reasons(rs, ks.drop_last());
        if ks.last() < rs.len() {
            rest.push(
                RankingReasons { result_index: (ks.len() - 1) as usize, ..rs[ks.last() as int] },
            )
        } else {
            rest
        }
    }
}

/// Renumber surviving ranking reasons so `reasons[i].result_index == i` when
/// every kept index is in range.
pub fn align_ranking_reasons_to_dedup(reasons: &Vec<RankingReasons>, kept_indices: &Vec<usize>) -> (r:
    Vec<RankingReasons>)
    ensures
        r@ == aligned_reasons(reasons@, kept_indices@),
{
    let n = kept_indices.len();
    let mut out: Vec<RankingReasons> = Vec::new();
    let mut i: usize = 0;
    assert(aligned_reasons(reasons@, kept_indices@.subrange(0, 0)) =~= Seq::<
        RankingReasons,
    >::empty());
    while i < n
        invariant
            n == kept_indices@.len(),
            0 <= i <= n,
            out@ == aligned_reasons(reasons@, kept_indices@.subrange(0, i as int)),
        decreases n - i,
    {
        let old_index = kept_indices[i];
        if old_index < reasons.len() {
            let mut updated = reasons[old_index].duplicate();
            updated.result_index = i;
            out.push(updated);
        }
        proof {
            let ks = kept_indices@.subrange(0, i + 1);
            assert(ks.drop_last() =~= kept_indices@.subrange(0, i as int));
            assert(ks.last() == kept_indices@[i as int]);
            assert(ks.len() - 1 == i);
        }
        i = i + 1;
    }
    assert(kept_indices@.subrange(0, n as int) =~= kept_indices@);
    out
}

// ---------------------------------------------------------------------------
// Argument parsing.
// ---------------------------------------------------------------------------

/// The detail level named by the `detail_level` argument; `signature` is the
/// default and the fallback for unknown strings.
pub open spec fn detail_level_of(arguments: JsonValue) -> DetailLevel {
    match crate::json::spec_get(arguments, "detail_level"@) {
        Option::Some(v) => match v {
            JsonValue::Str(s) => if s@ == "location"@ {
                DetailLevel::Location
            } else if s@ == "context"@ {
                DetailLevel::Context
            } else {
                DetailLevel::Signature
            },
            _ => DetailLevel::Signature,
        },
        Option::None => DetailLevel::Signature,
    }
}

pub fn parse_detail_level(arguments: &JsonValue) -> (r: DetailLevel)
    ensures
        r == detail_level_of(*arguments),
{
    match arguments.get("detail_level") {
        Option::Some(v) => match v.as_str() {
            Option::Some(s) => {
                if str_eq(s.as_str(), "location") {
                    DetailLevel::Location
                } else if str_eq(s.as_str(), "context") {
                    DetailLevel::Context
                } else {
                    DetailLevel::Signature
                }
            },
            Option::None => DetailLevel::Signature,
        },
        Option::None => DetailLevel::Signature,
    }
}

pub open spec fn compact_of(arguments: JsonValue) -> bool {
    match crate::json::spec_get(arguments, "compact"@) {
        Option::Some(JsonValue::Bool(b)) => b,
        _ => false,
    }
}

pub fn parse_compact(arguments: &JsonValue) -> (r: bool)
    ensures
        r == compact_of(*arguments),
{
    match arguments.get("compact") {
        Option::Some(v) => match v.as_bool() {
            Option::Some(b) => b,
            Option::None => false,
        },
        Option::None => false,
    }
}

/// The explanation level a string names, after trimming and lower-casing.
pub open spec fn explain_level_of(raw: Seq<char>) -> Option<RankingExplainLevel> {
    let t = lower_seq(trimmed(raw));
    if t == "off"@ {
        Option::Some(RankingExplainLevel::Off)
    } else if t == "basic"@ {
        Option::Some(RankingExplainLevel::Basic)
    } else if t == "full"@ {
        Option::Some(RankingExplainLevel::Full)
    } else {
        Option::None
    }
}

pub fn parse_ranking_explain_level(raw: &str) -> (r: Option<RankingExplainLevel>)
    ensures
        r == explain_level_of(raw@),
{
    let t = trim_spaces(raw);
    let lower = to_ascii_lower(t.as_str());
    let l = lower.as_str();
    if str_eq(l, "off") {
        Option::Some(RankingExplainLevel::Off)
    } else if str_eq(l, "basic") {
        Option::Some(RankingExplainLevel::Basic)
    } else if str_eq(l, "full") {
        Option::Some(RankingExplainLevel::Full)
    } else {
        Option::None
    }
}

/// The level a request runs with: an explicit argument must name a level,
/// else the configured default applies, with the debug flag promoting a
/// missing or unknown default to `full`.
pub open spec fn resolved_explain_level(
    arguments: JsonValue,
    config_level: Seq<char>,
    debug_ranking_reasons: bool,
) -> Result<RankingExplainLevel, ()> {
    match crate::json::spec_get(arguments, "ranking_explain_level"@) {
        Option::Some(v) => if v is Str {
            match explain_level_of(v->Str_0@) {
                Option::Some(level) => Result::Ok(level),
                Option::None => Result::Err(()),
            }
        } else {
            fallback_explain_level(config_level, debug_ranking_reasons)
        },
        Option::None => fallback_explain_level(config_level, debug_ranking_reasons),
    }
}

pub open spec fn fallback_explain_level(
    config_level: Seq<char>,
    debug_ranking_reasons: bool,
) -> Result<RankingExplainLevel, ()> {
    let level = match explain_level_of(config_level) {
        Option::Some(l) => l,
        Option::None => RankingExplainLevel::Off,
    };
    if level is Off && debug_ranking_reasons {
        Result::Ok(RankingExplainLevel::Full)
    } else {
        Result::Ok(level)
    }
}

/// Resolve the explanation level for one request from its arguments and the
/// configured default; an explicit argument that names no level is an error.
pub fn resolve_ranking_explain_level(
    arguments: &JsonValue,
    config_level: &str,
    debug_ranking_reasons: bool,
) -> (r: Result<RankingExplainLevel, String>)
    ensures
        match resolved_explain_level(*arguments, config_level@, debug_ranking_reasons) {
            Result::Ok(level) => r matches Result::Ok(l) && l == level,
            Result::Err(_) => r is Err,
        },
{
    match arguments.get("ranking_explain_level") {
        Option::Some(v) => match v.as_str() {
            Option::Some(raw) => match parse_ranking_explain_level(raw.as_str()) {
                Option::Some(level) => Result::Ok(level),
                Option::None => Result::Err(
                    String::from_str(
                        "Parameter `ranking_explain_level` must be `off`, `basic`, or `full`.",
                    ),
                ),
            },
            Option::None => fallback_explain(config_level, debug_ranking_reasons),
        },
        Option::None => fallback_explain(config_level, debug_ranking_reasons),
    }
}

fn fallback_explain(config_level: &str, debug_ranking_reasons: bool) -> (r: Result<
    RankingExplainLevel,
    String,
>)
    ensures
        fallback_explain_level(config_level@, debug_ranking_reasons) matches Result::Ok(level)
            && r matches Result::Ok(l) && l == level,
{
    let level = match parse_ranking_explain_level(config_level) {
        Option::Some(l) => l,
        Option::None => RankingExplainLevel::Off,
    };
    if matches!(level, RankingExplainLevel::Off) && debug_ranking_reasons {
        Result::Ok(RankingExplainLevel::Full)
    } else {
        Result::Ok(level)
    }
}

// ---------------------------------------------------------------------------
// Store-error mapping.
// ---------------------------------------------------------------------------

/// The user-visible error code for a store-layer failure.
pub open spec fn state_error_code(err: StateError) -> Seq<char> {
    match err {
        StateError::SchemaMigrationRequired { .. } => "index_incompatible"@,
        StateError::CorruptManifest(_) => "index_incompatible"@,
        _ => "internal_error"@,
    }
}

/// The user-visible message for a store-layer failure.
pub open spec fn state_error_message(err: StateError) -> Seq<char> {
    match err {
        StateError::SchemaMigrationRequired { .. } =>
            "Index schema is incompatible. Run `codecompass index --force`."@,
        StateError::CorruptManifest(_) =>
            "Index metadata is corrupted. Run `codecompass index --force`."@,
        StateError::NotFound => "Tool execution failed: index data not found."@,
        StateError::Tantivy(d) => "Tool execution failed: "@ + d@,
        StateError::Sqlite(d) => "Tool execution failed: "@ + d@,
        StateError::Io(d) => "Tool execution failed: "@ + d@,
    }
}

/// Map a store error to its code, message and optional data payload, as the
/// dispatcher standardises them.
pub fn map_state_error(err: &StateError) -> (r: (&'static str, String, Option<JsonValue>))
    ensures
        r.0@ == state_error_code(*err),
        r.1@ == state_error_message(*err),
        match *err {
            StateError::SchemaMigrationRequired { current, required } => r.2 matches Option::Some(
                d,
            ) && d is Obj && d->Obj_0@.len() == 3 && d->Obj_0@[0].0@ == "current_schema_version"@
                && d->Obj_0@[0].1 == JsonValue::Int(current) && d->Obj_0@[1].0@
                == "required_schema_version"@ && d->Obj_0@[1].1 == JsonValue::Int(required)
                && d->Obj_0@[2].0@ == "remediation"@ && d->Obj_0@[2].1 is Str
                && d->Obj_0@[2].1->Str_0@ == "codecompass index --force"@,
            StateError::CorruptManifest(details) => r.2 matches Option::Some(d) && d is Obj
                && d->Obj_0@.len() == 2 && d->Obj_0@[0].0@ == "details"@ && d->Obj_0@[0].1
                == JsonValue::Str(details) && d->Obj_0@[1].0@ == "remediation"@ && d->Obj_0@[1].1
                is Str && d->Obj_0@[1].1->Str_0@ == "codecompass index --force"@,
            _ => r.2 is None,
        },
{
    match err {
        StateError::SchemaMigrationRequired { current, required } => {
            let mut data: Vec<(String, JsonValue)> = Vec::new();
            data.push((String::from_str("current_schema_version"), JsonValue::Int(*current)));
            data.push((String::from_str("required_schema_version"), JsonValue::Int(*required)));
            data.push((
                String::from_str("remediation"),
                jstr("codecompass index --force"),
            ));
            proof {
                reveal_strlit("current_schema_version");
                reveal_strlit("required_schema_version");
                reveal_strlit("remediation");
                assert(data@.len() == 3);
            }
            (
                "index_incompatible",
                String::from_str("Index schema is incompatible. Run `codecompass index --force`."),
                Option::Some(JsonValue::Obj(data)),
            )
        },
        StateError::CorruptManifest(details) => {
            let mut data: Vec<(String, JsonValue)> = Vec::new();
            data.push((String::from_str("details"), JsonValue::Str(details.clone())));
            data.push((
                String::from_str("remediation"),
                jstr("codecompass index --force"),
            ));
            proof {
                reveal_strlit("details");
                reveal_strlit("remediation");
                assert(data@.len() == 2);
            }
            (
                "index_incompatible",
                String::from_str("Index metadata is corrupted. Run `codecompass index --force`."),
                Option::Some(JsonValue::Obj(data)),
            )
        },
        StateError::NotFound => (
            "internal_error",
            String::from_str("Tool execution failed: index data not found."),
            Option::None,
        ),
        StateError::Tantivy(d) => {
            let mut m = String::from_str("Tool execution failed: ");
            m.append(d.as_str());
            proof {
                assert(m@ =~= state_error_message(*err));
            }
            ("internal_error", m, Option::None)
        },
        StateError::Sqlite(d) => {
            let mut m = String::from_str("Tool execution failed: ");
            m.append(d.as_str());
            proof {
                assert(m@ =~= state_error_message(*err));
            }
            ("internal_error", m, Option::None)
        },
        StateError::Io(d) => {
            let mut m = String::from_str("Tool execution failed: ");
            m.append(d.as_str());
            proof {
                assert(m@ =~= state_error_message(*err));
            }
            ("internal_error", m, Option::None)
        },
    }
}

// ---------------------------------------------------------------------------
// Deterministic suggested next actions.
// ---------------------------------------------------------------------------

/// A follow-up call the response recommends to the client.
pub struct SuggestedAction {
    pub tool: String,
    pub name: Option<String>,
    pub query: Option<String>,
    pub ref_name: Option<String>,
    pub limit: Option<u64>,
}

impl SuggestedAction {
    /// A field-for-field copy of the value.
    pub fn duplicate(&self) -> (r: SuggestedAction)
        ensures
            r == *self,
    {
        SuggestedAction {
            tool: self.tool.clone(),
            name: clone_opt_string(&self.name),
            query: clone_opt_string(&self.query),
            ref_name: clone_opt_string(&self.ref_name),
            limit: self.limit,
        }
    }
}

/// Keep the backend's suggestions when present; otherwise synthesise the
/// default `search_code` retry with half the limit plus one.
pub fn deterministic_suggested_actions(
    existing: &Vec<SuggestedAction>,
    query: &str,
    effective_ref: &str,
    limit: u64,
) -> (r: Vec<SuggestedAction>)
    ensures
        existing@.len() > 0 ==> r@ == existing@,
        existing@.len() == 0 ==> {
            &&& r@.len() == 1
            &&& r@[0].tool@ == "search_code"@
            &&& r@[0].name is None
            &&& r@[0].query matches Option::Some(q) && q@ == query@
            &&& r@[0].ref_name matches Option::Some(f) && f@ == effective_ref@
            &&& r@[0].limit == Option::Some(((if limit >= 1 { limit } else { 1u64 }) / 2 + 1) as u64)
        },
{
    if existing.len() > 0 {
        let n = existing.len();
        let mut out: Vec<SuggestedAction> = Vec::new();
        let mut i: usize = 0;
        while i < n
            invariant
                n == existing@.len(),
                0 <= i <= n,
                out@ == existing@.subrange(0, i as int),
            decreases n - i,
        {
            out.push(existing[i].duplicate());
            assert(existing@.subrange(0, i + 1) =~= existing@.subrange(0, i as int).push(
                existing@[i as int],
            ));
            i = i + 1;
        }
        assert(existing@.subrange(0, n as int) =~= existing@);
        return out;
    }
    let eff: u64 = if limit >= 1 {
        limit
    } else {
        1
    };
    let mut out: Vec<SuggestedAction> = Vec::new();
    out.push(SuggestedAction {
        tool: String::from_str("search_code"),
        name: Option::None,
        query: Option::Some(query.to_owned()),
        ref_name: Option::Some(effective_ref.to_owned()),
        limit: Option::Some(eff / 2 + 1),
    });
    out
}

/// The fixed pair of follow-ups for `locate_symbol`: the same lookup with half
/// the limit, then a `search_code` on the name with limit 5.
pub fn deterministic_locate_suggested_actions(name: &str, effective_ref: &str, limit: u64) -> (r:
    Vec<SuggestedAction>)
    ensures
        r@.len() == 2,
        r@[0].tool@ == "locate_symbol"@,
        r@[0].name matches Option::Some(m) && m@ == name@,
        r@[0].query is None,
        r@[0].ref_name matches Option::Some(f) && f@ == effective_ref@,
        r@[0].limit == Option::Some(if limit / 2 >= 1 { limit / 2 } else { 1u64 }),
        r@[1].tool@ == "search_code"@,
        r@[1].name is None,
        r@[1].query matches Option::Some(q) && q@ == name@,
        r@[1].ref_name matches Option::Some(f2) && f2@ == effective_ref@,
        r@[1].limit == Option::Some(5u64),
{
    let half: u64 = limit / 2;
    let first_limit: u64 = if half >= 1 {
        half
    } else {
        1
    };
    let mut out: Vec<SuggestedAction> = Vec::new();
    out.push(SuggestedAction {
        tool: String::from_str("locate_symbol"),
        name: Option::Some(name.to_owned()),
        query: Option::None,
        ref_name: Option::Some(effective_ref.to_owned()),
        limit: Option::Some(first_limit),
    });
    out.push(SuggestedAction {
        tool: String::from_str("search_code"),
        name: Option::None,
        query: Option::Some(name.to_owned()),
        ref_name: Option::Some(effective_ref.to_owned()),
        limit: Option::Some(5),
    });
    out
}

} // verus!
