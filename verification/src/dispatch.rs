use vstd::prelude::*;
use crate::engine::{locate_symbol, search_code, SymbolIndex};
use crate::freshness::{
    apply_freshness_policy, check_freshness, resolve_tool_ref, PolicyAction,
};
use crate::json::{jstr, spec_get, JsonValue};
use crate::payload::enforce_payload_safety_limit;
use crate::protocol::{
    is_tool_text, payload_error_code, payload_has_metadata, tool_error_payload,
    tool_text_response, JsonRpcRequest, JsonRpcResponse, ProtocolMetadata,
};
use crate::shared::{deterministic_locate_suggested_actions, deterministic_suggested_actions};
use crate::store::StateDb;
use crate::strutil::{hex16_chars, str_eq, trim_spaces, trimmed, u64_to_hex16};
use crate::types::{FreshnessPolicy, FreshnessStatus, PrewarmState, SchemaStatus};

verus! {

// ---------------------------------------------------------------------------
// The dispatcher's world: everything a request is answered from.
// ---------------------------------------------------------------------------

/// One process's view of the workspace it serves: the opened stores, the
/// loader's report, the VCS probe, configuration, and process state. The
/// transport layer fills this in; the dispatcher only reads it.
pub struct ServerEnv {
    pub db: Option<StateDb>,
    pub workspace_config: crate::router::WorkspaceConfig,
    pub index: Option<SymbolIndex>,
    pub schema_status: SchemaStatus,
    pub compatibility_reason: Option<String>,
    pub workspace: String,
    pub project_id: String,
    pub head_branch: Option<String>,
    pub head_commit: Option<String>,
    pub freshness_policy: FreshnessPolicy,
    pub max_response_bytes: usize,
    pub prewarm: PrewarmState,
    pub uptime_seconds: u64,
    pub version: String,
    pub sqlite_ok: bool,
    pub sqlite_error: Option<String>,
    pub tantivy_ok: bool,
    pub job_seed: u64,
}

/// The well-formedness the dispatcher relies on: an opened store is valid.
pub open spec fn env_wf(env: ServerEnv) -> bool {
    match env.db {
        Option::Some(db) => db.wf(),
        Option::None => true,
    }
}

/// A project row for this workspace exists in the store.
pub open spec fn env_registered(env: ServerEnv) -> bool {
    match env.db {
        Option::Some(db) => exists|i: int|
            0 <= i < db.projects@.len() && (#[trigger] db.projects@[i]).repo_root@
                == env.workspace@,
        Option::None => false,
    }
}

/// Some job of this project is in a non-terminal status.
pub open spec fn env_has_active_job(env: ServerEnv) -> bool {
    match env.db {
        Option::Some(db) => exists|i: int|
            0 <= i < db.jobs@.len() && (#[trigger] db.jobs@[i]).project_id@ == env.project_id@
                && crate::store::job_active(db.jobs@[i]),
        Option::None => false,
    }
}

fn is_project_registered(env: &ServerEnv) -> (r: bool)
    requires
        env_wf(*env),
    ensures
        r == env_registered(*env),
{
    match &env.db {
        Option::Some(db) => match db.get_project_by_root(env.workspace.as_str()) {
            Option::Some(_) => true,
            Option::None => false,
        },
        Option::None => false,
    }
}

fn has_active_job(env: &ServerEnv) -> (r: bool)
    requires
        env_wf(*env),
    ensures
        r == env_has_active_job(*env),
{
    match &env.db {
        Option::Some(db) => match db.get_active_job(env.project_id.as_str()) {
            Option::Some(_) => true,
            Option::None => false,
        },
        Option::None => false,
    }
}

// ---------------------------------------------------------------------------
// Metadata building.
// ---------------------------------------------------------------------------

/// Build the per-response metadata: the effective ref, the schema status, and
/// for a compatible index whether a job is running and whether the ref lags
/// the working tree.
pub fn build_metadata(env: &ServerEnv, effective_ref: &str) -> (r: ProtocolMetadata)
    requires
        env_wf(*env),
    ensures
        r.ref_name@ == effective_ref@,
        r.index_status == env.schema_status,
        env.schema_status is Compatible ==> r.active_job == env_has_active_job(*env),
        env.schema_status is Compatible && !env_has_active_job(*env) ==> (r.freshness_status
            is Unknown <==> env.head_branch is None || env.head_commit is None) && (
        r.freshness_status is Stale <==> env.head_branch is Some && env.head_commit is Some
            && env_stale(*env, effective_ref@)),
        !(env.schema_status is Compatible) ==> r.active_job == false && r.freshness_status
            is Unknown,
{
    if !matches!(env.schema_status, SchemaStatus::Compatible) {
        return ProtocolMetadata {
            ref_name: effective_ref.to_owned(),
            index_status: env.schema_status,
            freshness_status: FreshnessStatus::Unknown,
            active_job: false,
        };
    }
    let active = has_active_job(env);
    let freshness = if active {
        FreshnessStatus::Unknown
    } else {
        let bs = match &env.db {
            Option::Some(db) => db.get_branch_state(env.project_id.as_str(), effective_ref),
            Option::None => Option::None,
        };
        let res = check_freshness(
            &bs,
            match &env.head_branch {
                Option::Some(b) => Option::Some(b.as_str()),
                Option::None => Option::None,
            },
            match &env.head_commit {
                Option::Some(c) => Option::Some(c.as_str()),
                Option::None => Option::None,
            },
            effective_ref,
        );
        proof {
            lemma_env_stale_bridge(*env, bs, effective_ref@);
        }
        res.status
    };
    ProtocolMetadata {
        ref_name: effective_ref.to_owned(),
        index_status: env.schema_status,
        freshness_status: freshness,
        active_job: active,
    }
}

// ---------------------------------------------------------------------------
// Compatibility refusal.
// ---------------------------------------------------------------------------

/// The error code a query tool answers with when the index cannot serve it:
/// an unregistered project outranks the index-incompatible report.
pub open spec fn compat_error_code(env: ServerEnv) -> Seq<char> {
    if env.schema_status is NotIndexed && !env_registered(env) {
        "project_not_found"@
    } else {
        "index_incompatible"@
    }
}

/// The remediation line a compatibility refusal recommends: a plain index run
/// for a missing index, a forced one for an incompatible or corrupted one.
pub open spec fn compat_remediation(status: SchemaStatus) -> Seq<char> {
    if status is NotIndexed || status is Compatible {
        "codecompass index"@
    } else {
        "codecompass index --force"@
    }
}

/// The refusal's `data` object: the schema status, the loader's reason, and
/// the remediation line.
pub open spec fn is_compat_error_data(d: JsonValue, env: ServerEnv) -> bool {
    &&& d is Obj
    &&& d->Obj_0@.len() == 3
    &&& d->Obj_0@[0].0@ == "schema_status"@ && d->Obj_0@[0].1 is Str && d->Obj_0@[0].1->Str_0@
        == crate::types::schema_status_str(env.schema_status)
    &&& d->Obj_0@[1].0@ == "reason"@ && d->Obj_0@[1].1 == (match env.compatibility_reason {
        Option::Some(reason) => JsonValue::Str(reason),
        Option::None => JsonValue::Null,
    })
    &&& d->Obj_0@[2].0@ == "remediation"@ && d->Obj_0@[2].1 is Str && d->Obj_0@[2].1->Str_0@
        == compat_remediation(env.schema_status)
}

/// The standard refusal for a tool that needs a compatible index.
pub fn tool_compatibility_error(env: &ServerEnv, effective_ref: &str) -> (r: JsonValue)
    requires
        env_wf(*env),
    ensures
        payload_error_code(r) == Option::Some(compat_error_code(*env)),
        payload_has_metadata(r),
        payload_metadata_reports(r, effective_ref@, env.schema_status),
        compat_error_code(*env) == "index_incompatible"@ ==> (spec_get(r, "error"@) matches
            Option::Some(e) && spec_get(e, "data"@) matches Option::Some(d)
            && is_compat_error_data(d, *env)),
{
    let metadata = build_metadata(env, effective_ref);
    if matches!(env.schema_status, SchemaStatus::NotIndexed) && !is_project_registered(env) {
        let mut data: Vec<(String, JsonValue)> = Vec::new();
        data.push((String::from_str("workspace"), JsonValue::Str(env.workspace.clone())));
        data.push((String::from_str("remediation"), jstr("codecompass init --path <workspace>")));
        proof {
            reveal_strlit("project_not_found");
            reveal_strlit("index_incompatible");
            assert("project_not_found"@.len() == 17 && "index_incompatible"@.len() == 18);
        }
        return tool_error_payload(
            "project_not_found",
            "Project is not initialized for this workspace. Run `codecompass init` first.",
            Option::Some(JsonValue::Obj(data)),
            &metadata,
        );
    }
    let message: &str = match env.schema_status {
        SchemaStatus::NotIndexed => "No index available. Run `codecompass index`.",
        SchemaStatus::ReindexRequired => "Index is incompatible. Run `codecompass index --force`.",
        SchemaStatus::CorruptManifest => "Index is incompatible. Run `codecompass index --force`.",
        SchemaStatus::Compatible => "Index is unavailable.",
    };
    let remediation: &str = match env.schema_status {
        SchemaStatus::NotIndexed => "codecompass index",
        SchemaStatus::ReindexRequired => "codecompass index --force",
        SchemaStatus::CorruptManifest => "codecompass index --force",
        SchemaStatus::Compatible => "codecompass index",
    };
    let mut data: Vec<(String, JsonValue)> = Vec::new();
    data.push((
        String::from_str("schema_status"),
        JsonValue::Str(env.schema_status.as_str().to_owned()),
    ));
    match &env.compatibility_reason {
        Option::Some(reason) => {
            data.push((String::from_str("reason"), JsonValue::Str(reason.clone())));
        },
        Option::None => {
            data.push((String::from_str("reason"), JsonValue::Null));
        },
    }
    data.push((String::from_str("remediation"), jstr(remediation)));
    let dv = JsonValue::Obj(data);
    proof {
        reveal_strlit("schema_status");
        reveal_strlit("reason");
        reveal_strlit("remediation");
        assert(dv->Obj_0@.len() == 3);
        assert(is_compat_error_data(dv, *env));
    }
    tool_error_payload("index_incompatible", message, Option::Some(dv), &metadata)
}

// ---------------------------------------------------------------------------
// The tool dispatcher.
// ---------------------------------------------------------------------------

/// What the caller must do after a tool call: nothing, spawn the indexer as a
/// detached child with the given job id, or fire a background sync.
pub enum IndexDirective {
    NoAction,
    Spawn { job_id: String, ref_name: String, force: bool },
    Sync { ref_name: String },
}

/// The string argument `key` of a tool call, when it is a string.
pub open spec fn arg_str(args: JsonValue, key: Seq<char>) -> Option<Seq<char>> {
    match spec_get(args, key) {
        Option::Some(v) => if v is Str {
            Option::Some(v->Str_0@)
        } else {
            Option::None
        },
        Option::None => Option::None,
    }
}

/// A required text argument is missing or blank.
pub open spec fn arg_blank(args: JsonValue, key: Seq<char>) -> bool {
    match arg_str(args, key) {
        Option::Some(s) => trimmed(s).len() == 0,
        Option::None => true,
    }
}

/// A `u64` clamped into `usize` range.
pub open spec fn clamp_usize(u: u64) -> usize {
    if u > usize::MAX as u64 {
        usize::MAX
    } else {
        u as usize
    }
}

/// The `limit` argument's value: a non-negative number clamped to `usize`,
/// else the default.
pub open spec fn limit_of(args: JsonValue, default: usize) -> usize {
    match spec_get(args, "limit"@) {
        Option::Some(v) => match v {
            JsonValue::UInt(u) => clamp_usize(u),
            JsonValue::Int(i) => if i >= 0 {
                clamp_usize(i as u64)
            } else {
                default
            },
            _ => default,
        },
        Option::None => default,
    }
}

/// The `force` flag of an indexing command: `true` only for a boolean `true`.
pub open spec fn force_of(args: JsonValue) -> bool {
    match spec_get(args, "force"@) {
        Option::Some(JsonValue::Bool(b)) => b,
        _ => false,
    }
}

/// An optional string value as JSON: the string, or `null`.
pub open spec fn opt_json(o: Option<String>) -> JsonValue {
    match o {
        Option::Some(s) => JsonValue::Str(s),
        Option::None => JsonValue::Null,
    }
}

/// `v` is the wire row of locate result `x`: the twelve fields, in order.
pub open spec fn is_locate_row_json(v: JsonValue, x: crate::ranking::LocateResult) -> bool {
    &&& v is Obj
    &&& v->Obj_0@.len() == 12
    &&& v->Obj_0@[0].0@ == "symbol_id"@ && v->Obj_0@[0].1 == JsonValue::Str(x.symbol_id)
    &&& v->Obj_0@[1].0@ == "symbol_stable_id"@ && v->Obj_0@[1].1 == JsonValue::Str(
        x.symbol_stable_id,
    )
    &&& v->Obj_0@[2].0@ == "path"@ && v->Obj_0@[2].1 == JsonValue::Str(x.path)
    &&& v->Obj_0@[3].0@ == "line_start"@ && v->Obj_0@[3].1 == JsonValue::UInt(x.line_start as u64)
    &&& v->Obj_0@[4].0@ == "line_end"@ && v->Obj_0@[4].1 == JsonValue::UInt(x.line_end as u64)
    &&& v->Obj_0@[5].0@ == "kind"@ && v->Obj_0@[5].1 == JsonValue::Str(x.kind)
    &&& v->Obj_0@[6].0@ == "name"@ && v->Obj_0@[6].1 == JsonValue::Str(x.name)
    &&& v->Obj_0@[7].0@ == "qualified_name"@ && v->Obj_0@[7].1 == JsonValue::Str(x.qualified_name)
    &&& v->Obj_0@[8].0@ == "signature"@ && v->Obj_0@[8].1 == opt_json(x.signature)
    &&& v->Obj_0@[9].0@ == "language"@ && v->Obj_0@[9].1 == JsonValue::Str(x.language)
    &&& v->Obj_0@[10].0@ == "visibility"@ && v->Obj_0@[10].1 == opt_json(x.visibility)
    &&& v->Obj_0@[11].0@ == "score"@ && v->Obj_0@[11].1 == JsonValue::Int(x.score)
}

/// `v` is the wire row of search result `x` at the given detail level: the
/// `location` level omits the signature, and the compact flag (or `location`)
/// omits the snippet — the keys are absent, not null.
pub open spec fn is_search_row_json(
    v: JsonValue,
    x: crate::ranking::SearchResult,
    detail: crate::types::DetailLevel,
    compact: bool,
) -> bool {
    let has_sig = !(detail is Location);
    let has_snip = !(compact || detail is Location);
    let vi: int = if has_sig {
        12
    } else {
        11
    };
    &&& v is Obj
    &&& v->Obj_0@.len() == vi + 2 + (if has_snip {
        1int
    } else {
        0int
    })
    &&& v->Obj_0@[0].0@ == "result_id"@ && v->Obj_0@[0].1 == JsonValue::Str(x.result_id)
    &&& v->Obj_0@[1].0@ == "symbol_id"@ && v->Obj_0@[1].1 == opt_json(x.symbol_id)
    &&& v->Obj_0@[2].0@ == "symbol_stable_id"@ && v->Obj_0@[2].1 == opt_json(x.symbol_stable_id)
    &&& v->Obj_0@[3].0@ == "result_type"@ && v->Obj_0@[3].1 == JsonValue::Str(x.result_type)
    &&& v->Obj_0@[4].0@ == "path"@ && v->Obj_0@[4].1 == JsonValue::Str(x.path)
    &&& v->Obj_0@[5].0@ == "line_start"@ && v->Obj_0@[5].1 == JsonValue::UInt(x.line_start as u64)
    &&& v->Obj_0@[6].0@ == "line_end"@ && v->Obj_0@[6].1 == JsonValue::UInt(x.line_end as u64)
    &&& v->Obj_0@[7].0@ == "kind"@ && v->Obj_0@[7].1 == opt_json(x.kind)
    &&& v->Obj_0@[8].0@ == "name"@ && v->Obj_0@[8].1 == opt_json(x.name)
    &&& v->Obj_0@[9].0@ == "qualified_name"@ && v->Obj_0@[9].1 == opt_json(x.qualified_name)
    &&& v->Obj_0@[10].0@ == "language"@ && v->Obj_0@[10].1 == JsonValue::Str(x.language)
    &&& (has_sig ==> v->Obj_0@[11].0@ == "signature"@ && v->Obj_0@[11].1 == opt_json(x.signature))
    &&& v->Obj_0@[vi].0@ == "visibility"@ && v->Obj_0@[vi].1 == opt_json(x.visibility)
    &&& v->Obj_0@[vi + 1].0@ == "score"@ && v->Obj_0@[vi + 1].1 == JsonValue::Int(x.score)
    &&& (has_snip ==> v->Obj_0@[vi + 2].0@ == "snippet"@ && v->Obj_0@[vi + 2].1 == opt_json(
        x.snippet,
    ))
}

/// The payload's metadata object reports the effective ref and the schema
/// status it was answered under.
pub open spec fn payload_metadata_reports(
    p: JsonValue,
    eref: Seq<char>,
    status: SchemaStatus,
) -> bool {
    spec_get(p, "metadata"@) matches Option::Some(m) && (spec_get(
        m,
        "codecompass_protocol_version"@,
    ) matches Option::Some(pv) && pv is Str && pv->Str_0@ == "1.0"@) && (spec_get(
        m,
        "ref"@,
    ) matches Option::Some(rv) && rv is Str && rv->Str_0@ == eref) && (spec_get(
        m,
        "index_status"@,
    ) matches Option::Some(iv) && iv is Str && iv->Str_0@ == crate::types::schema_status_str(
        status,
    ))
}

/// On a usable index, the locate payload carries the deduplicated engine
/// rows: every row projects a matching symbol record with its full score, the
/// row count plus the suppressed-duplicate count is the engine's result
/// count, and `results` is empty exactly when the limit is zero or nothing
/// matched.
pub open spec fn locate_success_payload(
    r: JsonValue,
    index: SymbolIndex,
    args: JsonValue,
    eref: Seq<char>,
) -> bool {
    let q = arg_str(args, "name"@)->0;
    let matches = crate::engine::locate_matches_of(
        index.symbols@,
        q,
        arg_str(args, "kind"@),
        arg_str(args, "language"@),
        eref,
    );
    let lim = limit_of(args, 10);
    let engine_len: int = if lim <= matches.len() {
        lim as int
    } else {
        matches.len() as int
    };
    &&& payload_error_code(r) is None
    &&& spec_get(r, "total_candidates"@) == Option::Some(JsonValue::UInt(engine_len as u64))
    &&& spec_get(r, "results"@) matches Option::Some(a) && a is Arr && {
        let rows = a->Arr_0@;
        &&& rows.len() <= engine_len
        &&& (rows.len() == 0 <==> engine_len == 0)
        &&& (forall|k: int|
            0 <= k < rows.len() ==> exists|x: crate::ranking::LocateResult, j: int|
                0 <= j < matches.len() && #[trigger] crate::engine::locate_row_for(
                    x,
                    matches[j],
                    q,
                ) && is_locate_row_json(#[trigger] rows[k], x))
        &&& (spec_get(r, "suppressed_duplicates"@) matches Option::Some(sv) && sv is UInt
            && sv->UInt_0 + rows.len() == engine_len)
    }
}

/// Handle `locate_symbol`: validate the name, refuse an unusable index,
/// else run the engine, drop duplicate findings, and build the results
/// payload.
#[verifier::rlimit(100)]
#[verifier::spinoff_prover]
pub fn locate_payload(env: &ServerEnv, arguments: &JsonValue, eref: &str) -> (r: JsonValue)
    requires
        env_wf(*env),
    ensures
        payload_has_metadata(r),
        payload_metadata_reports(r, eref@, env.schema_status),
        arg_blank(*arguments, "name"@) ==> payload_error_code(r) == Option::Some(
            "invalid_input"@,
        ),
        !arg_blank(*arguments, "name"@) && !(env.schema_status is Compatible && env.index is Some)
            ==> payload_error_code(r) == Option::Some(compat_error_code(*env)),
        !arg_blank(*arguments, "name"@) && env.schema_status is Compatible && env.index is Some
            ==> locate_success_payload(r, env.index->0, *arguments, eref@),
{
    let metadata = build_metadata(env, eref);
    let name = get_trimmed_arg(arguments, "name");
    match name {
        Option::None => tool_error_payload(
            "invalid_input",
            "Parameter `name` is required.",
            Option::None,
            &metadata,
        ),
        Option::Some(name) => {
            if !matches!(env.schema_status, SchemaStatus::Compatible) || env.index.is_none() {
                return tool_compatibility_error(env, eref);
            }
            let index = match &env.index {
                Option::Some(ix) => ix,
                Option::None => {
                    return tool_compatibility_error(env, eref);
                },
            };
            let kind = arguments.get_str("kind");
            let language = arguments.get_str("language");
            let limit = get_limit_arg(arguments, 10);
            let results = locate_symbol(
                index,
                name.as_str(),
                match &kind {
                    Option::Some(k) => Option::Some(k.as_str()),
                    Option::None => Option::None,
                },
                match &language {
                    Option::Some(l) => Option::Some(l.as_str()),
                    Option::None => Option::None,
                },
                eref,
                limit,
            );
            let ghost matches = crate::engine::locate_matches_of(
                index.symbols@,
                name@,
                arg_str(*arguments, "kind"@),
                arg_str(*arguments, "language"@),
                eref@,
            );
            let total = results.len();
            let ghost engine_rows = results@;
            let (kept, suppressed) = crate::shared::dedup_locate_results(results);
            proof {
                if engine_rows.len() > 0 {
                    reveal(crate::shared::first_locate_occurrence);
                    assert(crate::shared::first_locate_occurrence(engine_rows, 0));
                    assert(exists|k: int|
                        0 <= k < kept@.len() && #[trigger] kept@[k] == engine_rows[0]);
                }
                assert forall|k: int| 0 <= k < kept@.len() implies crate::engine::reported_from(
                    matches,
                    #[trigger] kept@[k],
                    name@,
                ) by {
                    assert(engine_rows.contains(kept@[k]));
                    let m = choose|m: int|
                        0 <= m < engine_rows.len() && #[trigger] engine_rows[m] == kept@[k];
                    assert(crate::engine::reported_from(matches, engine_rows[m], name@));
                }
            }
            let actions = deterministic_locate_suggested_actions(name.as_str(), eref, limit as u64);
            let mut rows: Vec<JsonValue> = Vec::new();
            let mut i: usize = 0;
            while i < kept.len()
                invariant
                    0 <= i <= kept@.len(),
                    rows@.len() == i,
                    matches == crate::engine::locate_matches_of(
                        index.symbols@,
                        name@,
                        arg_str(*arguments, "kind"@),
                        arg_str(*arguments, "language"@),
                        eref@,
                    ),
                    forall|k: int|
                        0 <= k < kept@.len() ==> crate::engine::reported_from(
                            matches,
                            #[trigger] kept@[k],
                            name@,
                        ),
                    forall|k: int|
                        0 <= k < i ==> is_locate_row_json(#[trigger] rows@[k], kept@[k]),
                decreases kept@.len() - i,
            {
                rows.push(locate_result_json(&kept[i]));
                i = i + 1;
            }
            let mut fields: Vec<(String, JsonValue)> = Vec::new();
            fields.push((String::from_str("results"), JsonValue::Arr(rows)));
            fields.push((String::from_str("total_candidates"), JsonValue::UInt(total as u64)));
            fields.push((
                String::from_str("suppressed_duplicates"),
                JsonValue::UInt(suppressed as u64),
            ));
            fields.push((String::from_str("suggested_next_actions"), actions_json(&actions)));
            fields.push((String::from_str("metadata"), metadata.to_json()));
            let p = JsonValue::Obj(fields);
            proof {
                reveal_strlit("results");
                reveal_strlit("total_candidates");
                reveal_strlit("suppressed_duplicates");
                reveal_strlit("suggested_next_actions");
                reveal_strlit("metadata");
                reveal_strlit("error");
                assert(fields@.len() == 5);
                assert("results"@.len() == 7 && "total_candidates"@.len() == 16
                    && "suppressed_duplicates"@.len() == 21 && "suggested_next_actions"@.len()
                    == 22 && "metadata"@.len() == 8 && "error"@.len() == 5);
                assert(fields@[0].0@ == "results"@);
                assert(fields@[1].0@ == "total_candidates"@);
                assert(fields@[2].0@ == "suppressed_duplicates"@);
                assert(fields@[3].0@ == "suggested_next_actions"@);
                assert(fields@[4].0@ == "metadata"@);
                assert forall|i2: int| 0 <= i2 < fields@.len() implies (#[trigger] fields@[i2]).0@
                    != "error"@ by {
                    if i2 == 0 {
                    } else if i2 == 1 {
                    } else if i2 == 2 {
                    } else if i2 == 3 {
                    } else if i2 == 4 {
                    }
                }
                crate::json::lemma_lookup_absent(fields@, "error"@);
                crate::json::lemma_lookup_at(fields@, "results"@, 0);
                crate::json::lemma_lookup_at(fields@, "total_candidates"@, 1);
                crate::json::lemma_lookup_at(fields@, "suppressed_duplicates"@, 2);
                crate::json::lemma_lookup_at(fields@, "metadata"@, 4);
                assert(spec_get(p, "metadata"@) is Some);
                assert(spec_get(p, "error"@) is None);
                assert forall|k: int| 0 <= k < rows@.len() implies exists|
                    x: crate::ranking::LocateResult,
                    j: int,
                |
                    0 <= j < matches.len() && #[trigger] crate::engine::locate_row_for(
                        x,
                        matches[j],
                        name@,
                    ) && is_locate_row_json(#[trigger] rows@[k], x) by {
                    assert(crate::engine::reported_from(matches, kept@[k], name@));
                    let j = choose|j: int|
                        0 <= j < matches.len() && crate::engine::locate_row_for(
                            kept@[k],
                            #[trigger] matches[j],
                            name@,
                        );
                    assert(crate::engine::locate_row_for(kept@[k], matches[j], name@));
                    assert(is_locate_row_json(rows@[k], kept@[k]));
                }
                assert(arg_str(*arguments, "name"@) == Option::Some(name@));
                assert(limit_of(*arguments, 10) == limit);
                assert(total as int == (if limit <= matches.len() {
                    limit as int
                } else {
                    matches.len() as int
                }));
                assert(rows@.len() == 0 <==> engine_rows.len() == 0);
                assert(suppressed + rows@.len() == total);
            }
            p
        },
    }
}

/// The per-request freshness policy override, when the argument names one.
pub open spec fn policy_override(args: JsonValue) -> Option<FreshnessPolicy> {
    match arg_str(args, "freshness_policy"@) {
        Option::Some(s) => crate::freshness::policy_of(s),
        Option::None => Option::None,
    }
}

/// A `freshness_policy` argument, when present as a string, names a policy.
pub open spec fn policy_arg_ok(args: JsonValue) -> bool {
    match arg_str(args, "freshness_policy"@) {
        Option::Some(s) => crate::freshness::policy_of(s) is Some,
        Option::None => true,
    }
}

/// A `ranking_explain_level` argument, when present as a string, names a
/// level.
pub open spec fn explain_arg_ok(args: JsonValue) -> bool {
    !(crate::shared::resolved_explain_level(args, "off"@, false) is Err)
}

/// The policy a search runs under: the request's override, else the process
/// configuration.
pub open spec fn effective_policy(env: ServerEnv, args: JsonValue) -> FreshnessPolicy {
    match policy_override(args) {
        Option::Some(p) => p,
        Option::None => env.freshness_policy,
    }
}

/// The effective ref lags the working tree: a branch-state row for it exists,
/// the VCS is on that branch, and its head commit differs from the last
/// indexed one.
pub open spec fn env_stale(env: ServerEnv, eref: Seq<char>) -> bool {
    &&& env.head_branch matches Option::Some(b) && b@ == eref
    &&& env.head_commit is Some
    &&& match env.db {
        Option::Some(db) => exists|i: int|
            0 <= i < db.branch_states@.len() && crate::store::bs_key_is(
                #[trigger] db.branch_states@[i],
                env.project_id@,
                eref,
            ) && db.branch_states@[i].last_indexed_commit@ != env.head_commit->0@,
        Option::None => false,
    }
}

/// The store's answer for the ref's branch state decides staleness exactly as
/// `env_stale` states it: branch-state keys are unique under well-formedness.
proof fn lemma_env_stale_bridge(
    env: ServerEnv,
    bs: Option<crate::types::BranchState>,
    eref: Seq<char>,
)
    requires
        env_wf(env),
        match env.db {
            Option::Some(db) => match bs {
                Option::Some(e) => exists|j: int|
                    0 <= j < db.branch_states@.len() && #[trigger] db.branch_states@[j] == e
                        && crate::store::bs_key_is(e, env.project_id@, eref),
                Option::None => !crate::store::bs_contains_key(
                    db.branch_states@,
                    env.project_id@,
                    eref,
                ),
            },
            Option::None => bs is None,
        },
    ensures
        crate::freshness::ref_is_stale(
            bs,
            match env.head_branch {
                Option::Some(b) => Option::Some(b@),
                Option::None => Option::None,
            },
            match env.head_commit {
                Option::Some(c) => Option::Some(c@),
                Option::None => Option::None,
            },
            eref,
        ) == env_stale(env, eref),
{
    match env.db {
        Option::Some(db) => {
            if bs is Some && (env.head_branch matches Option::Some(b) && b@ == eref) && env.head_commit
                is Some {
                let e = bs->0;
                let j = choose|j: int|
                    0 <= j < db.branch_states@.len() && #[trigger] db.branch_states@[j] == e
                        && crate::store::bs_key_is(e, env.project_id@, eref);
                if e.last_indexed_commit@ != env.head_commit->0@ {
                    assert(crate::store::bs_key_is(db.branch_states@[j], env.project_id@, eref)
                        && db.branch_states@[j].last_indexed_commit@ != env.head_commit->0@);
                } else {
                    assert forall|i: int|
                        0 <= i < db.branch_states@.len() && crate::store::bs_key_is(
                            #[trigger] db.branch_states@[i],
                            env.project_id@,
                            eref,
                        ) implies db.branch_states@[i].last_indexed_commit@
                        == env.head_commit->0@ by {
                        if i < j {
                            assert(!crate::store::bs_key_is(
                                db.branch_states@[i],
                                db.branch_states@[j].repo@,
                                db.branch_states@[j].ref_name@,
                            ));
                        } else if j < i {
                            assert(!crate::store::bs_key_is(
                                db.branch_states@[j],
                                db.branch_states@[i].repo@,
                                db.branch_states@[i].ref_name@,
                            ));
                        }
                    }
                }
            }
        },
        Option::None => {},
    }
}

/// On a usable, fresh-enough index, the search payload carries the
/// deduplicated, budget-limited engine rows: every row is the boosted
/// candidate of a record of a routed shard, the intent and candidate count
/// are the classifier's and the engine's, and the suppressed-duplicate and
/// safety-limit fields account for every engine row.
pub open spec fn search_success_payload(
    r: JsonValue,
    index: SymbolIndex,
    args: JsonValue,
    eref: Seq<char>,
) -> bool {
    let q = arg_str(args, "query"@)->0;
    let lv = arg_str(args, "language"@);
    let lim = limit_of(args, 10);
    let total = crate::engine::search_candidate_count(index, q, lv, eref);
    let engine_len: int = if lim <= total {
        lim as int
    } else {
        total
    };
    &&& payload_error_code(r) is None
    &&& spec_get(r, "query_intent"@) matches Option::Some(qi) && qi is Str && qi->Str_0@
        == intent_label(crate::intent::intent_of(q))
    &&& spec_get(r, "total_candidates"@) == Option::Some(JsonValue::UInt(total as u64))
    &&& spec_get(r, "results"@) matches Option::Some(a) && a is Arr && (spec_get(
        r,
        "safety_limit_applied"@,
    ) matches Option::Some(sl) && sl is Bool) && (spec_get(
        r,
        "suppressed_duplicates"@,
    ) matches Option::Some(sv) && sv is UInt) && {
        let rows = spec_get(r, "results"@)->0->Arr_0@;
        let sl = spec_get(r, "safety_limit_applied"@)->0->Bool_0;
        let sv = spec_get(r, "suppressed_duplicates"@)->0->UInt_0;
        &&& rows.len() <= engine_len
        &&& sv + rows.len() <= engine_len
        &&& (!sl ==> sv + rows.len() == engine_len)
        &&& (forall|k: int|
            0 <= k < rows.len() ==> exists|x: crate::ranking::SearchResult|
                #[trigger] crate::engine::search_row_reported(index, q, lv, eref, x)
                    && is_search_row_json(
                    #[trigger] rows[k],
                    x,
                    crate::shared::detail_level_of(args),
                    crate::shared::compact_of(args),
                ))
        &&& spec_get(r, "ranking_reasons"@) matches Option::Some(rr) && {
            let lvl = crate::shared::resolved_explain_level(args, "off"@, false);
            &&& (lvl == Result::<crate::types::RankingExplainLevel, ()>::Ok(
                crate::types::RankingExplainLevel::Off,
            ) ==> rr is Null)
            &&& (lvl == Result::<crate::types::RankingExplainLevel, ()>::Ok(
                crate::types::RankingExplainLevel::Full,
            ) ==> rr is Arr && rr->Arr_0@.len() + sv == engine_len && (forall|k: int|
                #![trigger rr->Arr_0@[k]]
                0 <= k < rr->Arr_0@.len() ==> is_full_reason_row(rr->Arr_0@[k], k)))
            &&& (lvl == Result::<crate::types::RankingExplainLevel, ()>::Ok(
                crate::types::RankingExplainLevel::Basic,
            ) ==> rr is Arr && rr->Arr_0@.len() + sv == engine_len && (forall|k: int|
                #![trigger rr->Arr_0@[k]]
                0 <= k < rr->Arr_0@.len() ==> is_basic_reason_row(rr->Arr_0@[k], k)))
        }
    }
}

/// Handle `search_code`: validate the arguments, refuse an unusable index,
/// enforce the freshness policy, else search, drop duplicate findings, limit
/// the payload, and build the response.
#[verifier::rlimit(100)]
#[verifier::spinoff_prover]
pub fn search_payload(env: &ServerEnv, arguments: &JsonValue, eref: &str) -> (r: (
    JsonValue,
    IndexDirective,
))
    requires
        env_wf(*env),
    ensures
        payload_has_metadata(r.0),
        payload_metadata_reports(r.0, eref@, env.schema_status),
        arg_blank(*arguments, "query"@) ==> payload_error_code(r.0) == Option::Some(
            "invalid_input"@,
        ) && r.1 is NoAction,
        !arg_blank(*arguments, "query"@) && !(explain_arg_ok(*arguments) && policy_arg_ok(
            *arguments,
        )) ==> payload_error_code(r.0) == Option::Some("invalid_input"@) && r.1 is NoAction,
        ({
            &&& !arg_blank(*arguments, "query"@)
            &&& explain_arg_ok(*arguments)
            &&& policy_arg_ok(*arguments)
            &&& !(env.schema_status is Compatible && env.index is Some)
        }) ==> payload_error_code(r.0) == Option::Some(compat_error_code(*env)) && r.1 is NoAction,
        ({
            &&& !arg_blank(*arguments, "query"@)
            &&& explain_arg_ok(*arguments)
            &&& policy_arg_ok(*arguments)
            &&& env.schema_status is Compatible
            &&& env.index is Some
            &&& effective_policy(*env, *arguments) is Strict
            &&& env_stale(*env, eref@)
        }) ==> payload_error_code(r.0) == Option::Some("index_stale"@) && r.1 is NoAction && (
        spec_get(r.0, "error"@) matches Option::Some(e) && spec_get(e, "data"@) matches
            Option::Some(d) && d is Obj && d->Obj_0@.len() == 3 && d->Obj_0@[0].0@
            == "last_indexed_commit"@ && (env.db matches Option::Some(db) && exists|i: int|
            0 <= i < db.branch_states@.len() && crate::store::bs_key_is(
                #[trigger] db.branch_states@[i],
                env.project_id@,
                eref@,
            ) && d->Obj_0@[0].1 == JsonValue::Str(db.branch_states@[i].last_indexed_commit))
            && d->Obj_0@[1].0@ == "current_head"@ && d->Obj_0@[1].1 is Str && d->Obj_0@[1].1->Str_0@
            == env.head_commit->0@ && d->Obj_0@[2].0@ == "suggestion"@),
        ({
            &&& !arg_blank(*arguments, "query"@)
            &&& explain_arg_ok(*arguments)
            &&& policy_arg_ok(*arguments)
            &&& env.schema_status is Compatible
            &&& env.index is Some
            &&& !(effective_policy(*env, *arguments) is Strict && env_stale(*env, eref@))
        }) ==> search_success_payload(r.0, env.index->0, *arguments, eref@) && (r.1 is Sync
            <==> effective_policy(*env, *arguments) is Advisory && env_stale(*env, eref@)),
{
    let metadata = build_metadata(env, eref);
    let query = get_trimmed_arg(arguments, "query");
    let query = match query {
        Option::None => {
            let p = tool_error_payload(
                "invalid_input",
                "Parameter `query` is required.",
                Option::None,
                &metadata,
            );
            return (p, IndexDirective::NoAction);
        },
        Option::Some(query) => query,
    };
    let explain = crate::shared::resolve_ranking_explain_level(arguments, "off", false);
    let explain = match explain {
        Result::Err(msg) => {
            let p = tool_error_payload(
                "invalid_input",
                msg.as_str(),
                Option::None,
                &metadata,
            );
            return (p, IndexDirective::NoAction);
        },
        Result::Ok(level) => level,
    };
    let policy: FreshnessPolicy = match arguments.get_str("freshness_policy") {
        Option::Some(raw) => match crate::freshness::parse_freshness_policy(raw.as_str()) {
            Option::Some(p) => p,
            Option::None => {
                let p = tool_error_payload(
                    "invalid_input",
                    "Parameter `freshness_policy` must be `permissive`, `advisory`, or `strict`.",
                    Option::None,
                    &metadata,
                );
                return (p, IndexDirective::NoAction);
            },
        },
        Option::None => env.freshness_policy,
    };
    let detail = crate::shared::parse_detail_level(arguments);
    let compact = crate::shared::parse_compact(arguments);
    if !matches!(env.schema_status, SchemaStatus::Compatible) || env.index.is_none() {
        let p = tool_compatibility_error(env, eref);
        return (p, IndexDirective::NoAction);
    }
    let bs = match &env.db {
        Option::Some(db) => db.get_branch_state(env.project_id.as_str(), eref),
        Option::None => Option::None,
    };
    let fresh = check_freshness(
        &bs,
        match &env.head_branch {
            Option::Some(b) => Option::Some(b.as_str()),
            Option::None => Option::None,
        },
        match &env.head_commit {
            Option::Some(c) => Option::Some(c.as_str()),
            Option::None => Option::None,
        },
        eref,
    );
    proof {
        lemma_env_stale_bridge(*env, bs, eref@);
    }
    let action = apply_freshness_policy(policy, &fresh);
    if matches!(action, PolicyAction::BlockWithError) {
        let mut data: Vec<(String, JsonValue)> = Vec::new();
        data.push((
            String::from_str("last_indexed_commit"),
            match &fresh.last_indexed_commit {
                Option::Some(c) => JsonValue::Str(c.clone()),
                Option::None => JsonValue::Null,
            },
        ));
        data.push((
            String::from_str("current_head"),
            match &fresh.current_head {
                Option::Some(c) => JsonValue::Str(c.clone()),
                Option::None => JsonValue::Null,
            },
        ));
        data.push((
            String::from_str("suggestion"),
            jstr("Call sync_repo to update the index before querying."),
        ));
        let dv = JsonValue::Obj(data);
        proof {
            reveal_strlit("last_indexed_commit");
            reveal_strlit("current_head");
            reveal_strlit("suggestion");
            assert(dv->Obj_0@.len() == 3);
            let e = bs->0;
            let db = env.db->0;
            let j = choose|j: int|
                0 <= j < db.branch_states@.len() && #[trigger] db.branch_states@[j] == e
                    && crate::store::bs_key_is(e, env.project_id@, eref@);
            assert(dv->Obj_0@[0].1 == JsonValue::Str(db.branch_states@[j].last_indexed_commit));
        }
        let p = tool_error_payload(
            "index_stale",
            "Index is stale and freshness_policy is strict. Sync before querying.",
            Option::Some(dv),
            &metadata,
        );
        return (p, IndexDirective::NoAction);
    }
    let directive = if matches!(action, PolicyAction::ProceedWithStaleIndicatorAndSync) {
        IndexDirective::Sync { ref_name: eref.to_owned() }
    } else {
        IndexDirective::NoAction
    };
    let index = match &env.index {
        Option::Some(ix) => ix,
        Option::None => {
            let p = tool_compatibility_error(env, eref);
            return (p, IndexDirective::NoAction);
        },
    };
    let language = arguments.get_str("language");
    let limit = get_limit_arg(arguments, 10);
    let outcome = search_code(
        index,
        query.as_str(),
        eref,
        match &language {
            Option::Some(l) => Option::Some(l.as_str()),
            Option::None => Option::None,
        },
        limit,
    );
    let ghost engine_rows = outcome.results@;
    let total_candidates = outcome.total_candidates;
    let engine_len = outcome.results.len();
    let mut reasons: Vec<crate::ranking::RankingReasons> = Vec::new();
    if !matches!(explain, crate::types::RankingExplainLevel::Off) {
        let mut i: usize = 0;
        while i < outcome.results.len()
            invariant
                0 <= i <= outcome.results@.len(),
                reasons@.len() == i,
                outcome.results@ == engine_rows,
            decreases outcome.results@.len() - i,
        {
            reasons.push(crate::ranking::reasons_for(&outcome.results[i], query.as_str(), i));
            i = i + 1;
        }
        proof {
            assert(reasons@.len() == engine_rows.len());
        }
    }
    let ghost lv = arg_str(*arguments, "language"@);
    let (deduped, kept_indices, suppressed) = crate::shared::dedup_search_results(outcome.results);
    proof {
        assert(lv == (match language {
            Option::Some(l) => Option::Some(l@),
            Option::None => Option::None::<Seq<char>>,
        }));
        assert forall|k: int| 0 <= k < deduped@.len() implies crate::engine::search_row_reported(
            *index,
            query@,
            lv,
            eref@,
            #[trigger] deduped@[k],
        ) by {
            assert(deduped@[k] == engine_rows[kept_indices@[k] as int]);
        }
    }
    let aligned = crate::shared::align_ranking_reasons_to_dedup(&reasons, &kept_indices);
    proof {
        if !(explain is Off) {
            assert forall|k: int| 0 <= k < kept_indices@.len() implies (
            #[trigger] kept_indices@[k]) < reasons@.len() by {
                assert(0 <= kept_indices@[k] < engine_rows.len());
            }
            crate::laws::law_reasons_renumbered(reasons@, kept_indices@);
            assert(aligned@.len() == kept_indices@.len());
        }
    }
    let mut rows: Vec<JsonValue> = Vec::new();
    let mut i: usize = 0;
    while i < deduped.len()
        invariant
            0 <= i <= deduped@.len(),
            rows@.len() == i,
            detail == crate::shared::detail_level_of(*arguments),
            compact == crate::shared::compact_of(*arguments),
            forall|k: int|
                0 <= k < deduped@.len() ==> crate::engine::search_row_reported(
                    *index,
                    query@,
                    arg_str(*arguments, "language"@),
                    eref@,
                    #[trigger] deduped@[k],
                ),
            forall|k: int|
                0 <= k < i ==> is_search_row_json(
                    #[trigger] rows@[k],
                    deduped@[k],
                    crate::shared::detail_level_of(*arguments),
                    crate::shared::compact_of(*arguments),
                ),
        decreases deduped@.len() - i,
    {
        rows.push(search_result_json(&deduped[i], detail, compact));
        i = i + 1;
    }
    let ghost all_rows = rows@;
    let (kept, limited) = enforce_payload_safety_limit(rows, env.max_response_bytes);
    let existing: Vec<crate::shared::SuggestedAction> = Vec::new();
    let actions = deterministic_suggested_actions(
        &existing,
        query.as_str(),
        eref,
        limit as u64,
    );
    let mut fields: Vec<(String, JsonValue)> = Vec::new();
    fields.push((String::from_str("results"), JsonValue::Arr(kept)));
    fields.push((String::from_str("query_intent"), jstr(intent_str(outcome.query_intent))));
    fields.push((
        String::from_str("total_candidates"),
        JsonValue::UInt(total_candidates as u64),
    ));
    fields.push((
        String::from_str("suppressed_duplicates"),
        JsonValue::UInt(suppressed as u64),
    ));
    fields.push((String::from_str("safety_limit_applied"), JsonValue::Bool(limited)));
    fields.push((
        String::from_str("ranking_reasons"),
        match explain {
            crate::types::RankingExplainLevel::Off => JsonValue::Null,
            crate::types::RankingExplainLevel::Basic => reasons_json_basic(
                &crate::ranking::to_basic_ranking_reasons(&aligned),
            ),
            crate::types::RankingExplainLevel::Full => reasons_json_full(&aligned),
        },
    ));
    fields.push((String::from_str("suggested_next_actions"), actions_json(&actions)));
    fields.push((String::from_str("metadata"), metadata.to_json()));
    let p = JsonValue::Obj(fields);
    proof {
        reveal_strlit("results");
        reveal_strlit("query_intent");
        reveal_strlit("total_candidates");
        reveal_strlit("suppressed_duplicates");
        reveal_strlit("safety_limit_applied");
        reveal_strlit("ranking_reasons");
        reveal_strlit("suggested_next_actions");
        reveal_strlit("metadata");
        reveal_strlit("error");
        assert(fields@.len() == 8);
        assert("results"@.len() == 7 && "query_intent"@.len() == 12 && "total_candidates"@.len()
            == 16 && "suppressed_duplicates"@.len() == 21 && "safety_limit_applied"@.len() == 20
            && "ranking_reasons"@.len() == 15 && "suggested_next_actions"@.len() == 22
            && "metadata"@.len() == 8 && "error"@.len() == 5);
        assert(fields@[0].0@ == "results"@);
        assert(fields@[1].0@ == "query_intent"@);
        assert(fields@[2].0@ == "total_candidates"@);
        assert(fields@[3].0@ == "suppressed_duplicates"@);
        assert(fields@[4].0@ == "safety_limit_applied"@);
        assert(fields@[5].0@ == "ranking_reasons"@);
        assert(fields@[6].0@ == "suggested_next_actions"@);
        assert(fields@[7].0@ == "metadata"@);
        assert("results"@[0] == 'r' && "ranking_reasons"@[0] == 'r');
        assert("metadata"@[0] == 'm' && "error"@[0] == 'e');
        assert forall|i2: int| 0 <= i2 < fields@.len() implies (#[trigger] fields@[i2]).0@
            != "error"@ by {
            if i2 == 0 {
            } else if i2 == 1 {
            } else if i2 == 2 {
            } else if i2 == 3 {
            } else if i2 == 4 {
            } else if i2 == 5 {
            } else if i2 == 6 {
            } else if i2 == 7 {
            }
        }
        crate::json::lemma_lookup_absent(fields@, "error"@);
        crate::json::lemma_lookup_at(fields@, "results"@, 0);
        crate::json::lemma_lookup_at(fields@, "query_intent"@, 1);
        crate::json::lemma_lookup_at(fields@, "total_candidates"@, 2);
        crate::json::lemma_lookup_at(fields@, "suppressed_duplicates"@, 3);
        crate::json::lemma_lookup_at(fields@, "safety_limit_applied"@, 4);
        crate::json::lemma_lookup_at(fields@, "ranking_reasons"@, 5);
        crate::json::lemma_lookup_at(fields@, "metadata"@, 7);
        assert(spec_get(p, "ranking_reasons"@) == Option::Some(fields@[5].1));
        if explain_arg_ok(*arguments) {
            let lvl = crate::shared::resolved_explain_level(*arguments, "off"@, false);
            assert(lvl matches Result::Ok(l) && l == explain);
            let rrv = spec_get(p, "ranking_reasons"@)->0;
            assert(rrv == fields@[5].1);
            if explain is Full {
                assert forall|k: int|
                    #![trigger rrv->Arr_0@[k]]
                    0 <= k < rrv->Arr_0@.len() implies is_full_reason_row(rrv->Arr_0@[k], k) by {
                    assert(is_full_reason_json(rrv->Arr_0@[k], aligned@[k]));
                    assert(aligned@[k].result_index == k);
                }
                assert(rrv->Arr_0@.len() == deduped@.len());
            } else if explain is Basic {
                let basics = aligned@.map_values(
                    |x: crate::ranking::RankingReasons| crate::ranking::basic_of(x),
                );
                assert forall|k: int|
                    #![trigger rrv->Arr_0@[k]]
                    0 <= k < rrv->Arr_0@.len() implies is_basic_reason_row(rrv->Arr_0@[k], k) by {
                    assert(is_basic_reason_json(rrv->Arr_0@[k], basics[k]));
                    assert(basics[k] == crate::ranking::basic_of(aligned@[k]));
                    assert(aligned@[k].result_index == k);
                }
                assert(rrv->Arr_0@.len() == deduped@.len());
            }
        }
        assert(spec_get(p, "metadata"@) is Some);
        assert(spec_get(p, "error"@) is None);
        let kept_rows = spec_get(p, "results"@)->0->Arr_0@;
        let eff: int = if env.max_response_bytes == 0 {
            crate::payload::DEFAULT_MAX_RESPONSE_BYTES as int
        } else {
            env.max_response_bytes as int
        };
        crate::payload::lemma_cut_len_bounds(all_rows, eff);
        assert(kept_rows == all_rows.subrange(0, crate::payload::cut_len(all_rows, eff)));
        assert(kept_rows.len() == crate::payload::cut_len(all_rows, eff));
        assert forall|k: int| 0 <= k < kept_rows.len() implies exists|
            x: crate::ranking::SearchResult,
        |
            #[trigger] crate::engine::search_row_reported(
                *index,
                query@,
                arg_str(*arguments, "language"@),
                eref@,
                x,
            ) && is_search_row_json(
                #[trigger] kept_rows[k],
                x,
                crate::shared::detail_level_of(*arguments),
                crate::shared::compact_of(*arguments),
            ) by {
            assert(kept_rows[k] == all_rows[k]);
            assert(is_search_row_json(
                all_rows[k],
                deduped@[k],
                crate::shared::detail_level_of(*arguments),
                crate::shared::compact_of(*arguments),
            ));
            assert(crate::engine::search_row_reported(
                *index,
                query@,
                arg_str(*arguments, "language"@),
                eref@,
                deduped@[k],
            ));
        }
        assert(arg_str(*arguments, "query"@) == Option::Some(query@));
        assert(limit_of(*arguments, 10) == limit);
        assert(suppressed + deduped@.len() == engine_len);
        if !limited {
            assert(kept_rows.len() == all_rows.len());
        }
    }
    (p, directive)
}

/// Handle `index_repo` and `sync_repo`: admission control, then a fresh job
/// id and a spawn directive for the caller.
#[verifier::rlimit(100)]
#[verifier::spinoff_prover]
fn index_or_sync_payload(env: &ServerEnv, arguments: &JsonValue, eref: &str, is_sync: bool) -> (r: (
    JsonValue,
    IndexDirective,
))
    requires
        env_wf(*env),
    ensures
        payload_has_metadata(r.0),
        payload_metadata_reports(r.0, eref@, env.schema_status),
        !env_registered(*env) ==> payload_error_code(r.0) == Option::Some("project_not_found"@)
            && r.1 is NoAction,
        env_registered(*env) && env_has_active_job(*env) ==> payload_error_code(r.0)
            == Option::Some("index_in_progress"@) && r.1 is NoAction && (spec_get(
            r.0,
            "error"@,
        ) matches Option::Some(e) && spec_get(e, "data"@) matches Option::Some(d) && spec_get(
            d,
            "project_id"@,
        ) == Option::Some(JsonValue::Str(env.project_id))),
        env_registered(*env) && !env_has_active_job(*env) ==> payload_error_code(r.0) is None && (
        spec_get(r.0, "job_id"@) matches Option::Some(j) && j is Str && j->Str_0@ == hex16_chars(
            env.job_seed,
        )) && (spec_get(r.0, "status"@) matches Option::Some(st) && st is Str && st->Str_0@
            == "running"@) && (spec_get(r.0, "mode"@) matches Option::Some(mv) && mv is Str
            && mv->Str_0@ == (if force_of(*arguments) {
            "full"@
        } else {
            "incremental"@
        })) && (r.1 matches IndexDirective::Spawn { job_id, ref_name, force } && job_id@
            == hex16_chars(env.job_seed) && ref_name@ == eref@ && force == force_of(*arguments)),
{
    let metadata = build_metadata(env, eref);
    if !is_project_registered(env) {
        let mut data: Vec<(String, JsonValue)> = Vec::new();
        data.push((String::from_str("workspace"), JsonValue::Str(env.workspace.clone())));
        data.push((String::from_str("remediation"), jstr("codecompass init --path <workspace>")));
        let p = tool_error_payload(
            "project_not_found",
            "Project is not initialized for this workspace. Run `codecompass init` first.",
            Option::Some(JsonValue::Obj(data)),
            &metadata,
        );
        return (p, IndexDirective::NoAction);
    }
    if has_active_job(env) {
        let mut data: Vec<(String, JsonValue)> = Vec::new();
        data.push((String::from_str("project_id"), JsonValue::Str(env.project_id.clone())));
        data.push((
            String::from_str("remediation"),
            jstr("Use index_status to poll and retry after completion."),
        ));
        let dv = JsonValue::Obj(data);
        proof {
            reveal_strlit("project_id");
            reveal_strlit("remediation");
            assert(dv->Obj_0@[0].0@ == "project_id"@);
            crate::json::lemma_lookup_at(dv->Obj_0@, "project_id"@, 0);
        }
        let p = tool_error_payload(
            "index_in_progress",
            "An indexing job is already running.",
            Option::Some(dv),
            &metadata,
        );
        return (p, IndexDirective::NoAction);
    }
    let force: bool = match arguments.get("force") {
        Option::Some(v) => match v.as_bool() {
            Option::Some(b) => b,
            Option::None => false,
        },
        Option::None => false,
    };
    let mode: &str = if force {
        "full"
    } else {
        "incremental"
    };
    let job_id = u64_to_hex16(env.job_seed);
    let mut fields: Vec<(String, JsonValue)> = Vec::new();
    fields.push((String::from_str("job_id"), JsonValue::Str(job_id.clone())));
    fields.push((String::from_str("status"), jstr("running")));
    fields.push((String::from_str("mode"), jstr(mode)));
    if is_sync {
        fields.push((String::from_str("changed_files"), JsonValue::Null));
    } else {
        fields.push((String::from_str("file_count"), JsonValue::Null));
    }
    fields.push((String::from_str("metadata"), metadata.to_json()));
    let p = JsonValue::Obj(fields);
    proof {
        reveal_strlit("job_id");
        reveal_strlit("status");
        reveal_strlit("mode");
        reveal_strlit("changed_files");
        reveal_strlit("file_count");
        reveal_strlit("metadata");
        reveal_strlit("error");
        assert(fields@.len() == 5);
        assert forall|i2: int| 0 <= i2 < fields@.len() implies (#[trigger] fields@[i2]).0@ != "error"@ by {
            reveal_strlit("job_id");
            reveal_strlit("status");
            reveal_strlit("mode");
            reveal_strlit("changed_files");
            reveal_strlit("file_count");
            reveal_strlit("metadata");
            reveal_strlit("error");
            if i2 == 0 {
                assert(fields@[0].0@ == "job_id"@);
            } else if i2 == 1 {
                assert(fields@[1].0@ == "status"@);
            } else if i2 == 2 {
                assert(fields@[2].0@ == "mode"@);
            } else if i2 == 3 {
                assert(fields@[3].0@ == "changed_files"@ || fields@[3].0@ == "file_count"@);
            } else if i2 == 4 {
                assert(fields@[4].0@ == "metadata"@);
            }
        }
        assert forall|i2: int| 0 <= i2 < 4 implies (#[trigger] fields@[i2]).0@ != "metadata"@ by {
            reveal_strlit("job_id");
            reveal_strlit("status");
            reveal_strlit("mode");
            reveal_strlit("changed_files");
            reveal_strlit("file_count");
            reveal_strlit("metadata");
            if i2 == 0 {
                assert(fields@[0].0@ == "job_id"@);
            } else if i2 == 1 {
                assert(fields@[1].0@ == "status"@);
            } else if i2 == 2 {
                assert(fields@[2].0@ == "mode"@);
            } else if i2 == 3 {
                assert(fields@[3].0@ == "changed_files"@ || fields@[3].0@ == "file_count"@);
            }
        }
        assert(fields@[4].0@ == "metadata"@);
        crate::json::lemma_lookup_absent(fields@, "error"@);
        crate::json::lemma_lookup_at(fields@, "metadata"@, 4);
        crate::json::lemma_lookup_at(fields@, "job_id"@, 0);
        assert("job_id"@.len() == 6 && "status"@.len() == 6 && "mode"@.len() == 4);
        assert("job_id"@[0] == 'j' && "status"@[0] == 's');
        assert(fields@[0].0@ != "status"@);
        crate::json::lemma_lookup_at(fields@, "status"@, 1);
        assert(fields@[0].0@ != "mode"@ && fields@[1].0@ != "mode"@);
        crate::json::lemma_lookup_at(fields@, "mode"@, 2);
        assert(spec_get(p, "metadata"@) is Some);
        assert(spec_get(p, "error"@) is None);
        assert(spec_get(p, "job_id"@) == Option::Some(fields@[0].1));
        assert(spec_get(p, "status"@) == Option::Some(fields@[1].1));
        assert(spec_get(p, "mode"@) == Option::Some(fields@[2].1));
        assert(force == force_of(*arguments));
    }
    (p, IndexDirective::Spawn { job_id, ref_name: eref.to_owned(), force })
}

/// The default ref of this workspace's project row, when one is registered.
pub open spec fn project_default_ref(env: ServerEnv) -> Option<Seq<char>> {
    match env.db {
        Option::Some(db) => if exists|i: int|
            0 <= i < db.projects@.len() && (#[trigger] db.projects@[i]).project_id@
                == env.project_id@ {
            Option::Some(
                db.projects@[choose|i: int|
                    0 <= i < db.projects@.len() && (#[trigger] db.projects@[i]).project_id@
                        == env.project_id@].default_ref@,
            )
        } else {
            Option::None
        },
        Option::None => Option::None,
    }
}

/// The ref a tool call is answered against, from its arguments and the
/// environment, by the resolver's precedence.
pub open spec fn spec_effective_ref(env: ServerEnv, args: JsonValue) -> Seq<char> {
    crate::freshness::resolved_ref(
        arg_str(args, "ref"@),
        match env.head_branch {
            Option::Some(b) => Option::Some(b@),
            Option::None => Option::None,
        },
        project_default_ref(env),
    )
}

/// Everything a tool call's payload and directive promise: the metadata
/// report, the refusal codes with their data, and the per-tool success
/// contracts, all at the resolver's effective ref.
pub open spec fn tool_payload_spec(
    env: ServerEnv,
    tool: Seq<char>,
    args: JsonValue,
    p: JsonValue,
    d: IndexDirective,
) -> bool {
    &&& payload_has_metadata(p)
    &&& payload_metadata_reports(p, spec_effective_ref(env, args), env.schema_status)
    &&& tool == "locate_symbol"@ && arg_blank(args, "name"@) ==> payload_error_code(p)
        == Option::Some("invalid_input"@)
    &&& tool == "search_code"@ && arg_blank(args, "query"@) ==> payload_error_code(p)
        == Option::Some("invalid_input"@)
    &&& (tool == "locate_symbol"@ && !arg_blank(args, "name"@) && !(env.schema_status
        is Compatible && env.index is Some)) ==> payload_error_code(p) == Option::Some(
        compat_error_code(env),
    )
    &&& (tool == "search_code"@ && !arg_blank(args, "query"@) && explain_arg_ok(args)
        && policy_arg_ok(args) && !(env.schema_status is Compatible && env.index is Some))
        ==> payload_error_code(p) == Option::Some(compat_error_code(env))
    &&& (tool == "locate_symbol"@ && !arg_blank(args, "name"@) && env.schema_status is Compatible
        && env.index is Some) ==> locate_success_payload(
        p,
        env.index->0,
        args,
        spec_effective_ref(env, args),
    )
    &&& (tool == "search_code"@ && !arg_blank(args, "query"@) && explain_arg_ok(args)
        && policy_arg_ok(args) && env.schema_status is Compatible && env.index is Some
        && effective_policy(env, args) is Strict && env_stale(
        env,
        spec_effective_ref(env, args),
    )) ==> payload_error_code(p) == Option::Some("index_stale"@) && d is NoAction
    &&& (tool == "search_code"@ && !arg_blank(args, "query"@) && explain_arg_ok(args)
        && policy_arg_ok(args) && env.schema_status is Compatible && env.index is Some && !(
    effective_policy(env, args) is Strict && env_stale(env, spec_effective_ref(env, args))))
        ==> search_success_payload(p, env.index->0, args, spec_effective_ref(env, args)) && (
    d is Sync <==> effective_policy(env, args) is Advisory && env_stale(
        env,
        spec_effective_ref(env, args),
    ))
    &&& ((tool == "index_repo"@ || tool == "sync_repo"@) && !env_registered(env))
        ==> payload_error_code(p) == Option::Some("project_not_found"@) && d is NoAction
    &&& ((tool == "index_repo"@ || tool == "sync_repo"@) && env_registered(env)
        && env_has_active_job(env)) ==> payload_error_code(p) == Option::Some(
        "index_in_progress"@,
    ) && d is NoAction && (spec_get(p, "error"@) matches Option::Some(e) && spec_get(
        e,
        "data"@,
    ) matches Option::Some(dd) && spec_get(dd, "project_id"@) == Option::Some(
        JsonValue::Str(env.project_id),
    ))
    &&& ((tool == "index_repo"@ || tool == "sync_repo"@) && env_registered(env)
        && !env_has_active_job(env)) ==> payload_error_code(p) is None && (spec_get(
        p,
        "job_id"@,
    ) matches Option::Some(j) && j is Str && j->Str_0@ == hex16_chars(env.job_seed)) && (spec_get(
        p,
        "status"@,
    ) matches Option::Some(st) && st is Str && st->Str_0@ == "running"@) && (spec_get(
        p,
        "mode"@,
    ) matches Option::Some(mv) && mv is Str && mv->Str_0@ == (if force_of(args) {
        "full"@
    } else {
        "incremental"@
    })) && (d matches IndexDirective::Spawn { job_id, ref_name, force } && job_id@ == hex16_chars(
        env.job_seed,
    ) && ref_name@ == spec_effective_ref(env, args) && force == force_of(args))
    &&& tool == "index_status"@ ==> crate::status::index_status_payload(
        p,
        env,
        spec_effective_ref(env, args),
    )
}

/// Run one tool against the environment and return its payload, plus what the
/// caller must do next. The payload is exactly what the MCP text content will
/// carry.
#[verifier::rlimit(100)]
#[verifier::spinoff_prover]
pub fn handle_tool_payload(env: &ServerEnv, tool_name: &str, arguments: &JsonValue) -> (r: (
    JsonValue,
    IndexDirective,
))
    requires
        env_wf(*env),
        tool_known(tool_name@),
    ensures
        tool_payload_spec(*env, tool_name@, *arguments, r.0, r.1),
{
    proof {
        reveal_strlit("locate_symbol");
        reveal_strlit("search_code");
        reveal_strlit("index_repo");
        reveal_strlit("sync_repo");
        reveal_strlit("index_status");
    }
    let requested_ref = arguments.get_str("ref");
    let project_row = match &env.db {
        Option::Some(db) => db.get_project_by_id(env.project_id.as_str()),
        Option::None => Option::None,
    };
    let effective_ref = resolve_tool_ref(
        match &requested_ref {
            Option::Some(s) => Option::Some(s.as_str()),
            Option::None => Option::None,
        },
        match &env.head_branch {
            Option::Some(b) => Option::Some(b.as_str()),
            Option::None => Option::None,
        },
        match &project_row {
            Option::Some(p) => Option::Some(p.default_ref.as_str()),
            Option::None => Option::None,
        },
    );
    let eref = effective_ref.as_str();
    proof {
        assert(effective_ref@ == spec_effective_ref(*env, *arguments)) by {
            match env.db {
                Option::Some(db) => {
                    match project_row {
                        Option::Some(p) => {
                            let i = choose|i: int|
                                0 <= i < db.projects@.len() && #[trigger] db.projects@[i] == p
                                    && p.project_id@ == env.project_id@;
                            assert(exists|k: int|
                                0 <= k < db.projects@.len() && (
                                #[trigger] db.projects@[k]).project_id@ == env.project_id@);
                            let j = choose|j: int|
                                0 <= j < db.projects@.len() && (
                                #[trigger] db.projects@[j]).project_id@ == env.project_id@;
                            if i != j {
                                assert(db.projects@[i].project_id@ == db.projects@[j].project_id@);
                                assert(false);
                            }
                            assert(project_default_ref(*env) == Option::Some(p.default_ref@));
                        },
                        Option::None => {
                            assert(project_default_ref(*env) is None);
                        },
                    }
                },
                Option::None => {
                    assert(project_default_ref(*env) is None);
                },
            }
        }
    }
    if str_eq(tool_name, "locate_symbol") {
        proof {
            assert(tool_name@ == "locate_symbol"@);
            assert("locate_symbol"@.len() == 13);
            assert("search_code"@.len() == 11);
            assert("index_repo"@.len() == 10);
            assert("sync_repo"@.len() == 9);
            assert("index_status"@.len() == 12);
            assert(tool_name@ != "search_code"@);
            assert(tool_name@ != "index_repo"@);
            assert(tool_name@ != "sync_repo"@);
            assert(tool_name@ != "index_status"@);
        }
        (locate_payload(env, arguments, eref), IndexDirective::NoAction)
    } else if str_eq(tool_name, "search_code") {
        proof {
            assert(tool_name@ == "search_code"@);
            assert("locate_symbol"@.len() == 13);
            assert("search_code"@.len() == 11);
            assert("index_repo"@.len() == 10);
            assert("sync_repo"@.len() == 9);
            assert("index_status"@.len() == 12);
            assert(tool_name@ != "locate_symbol"@);
            assert(tool_name@ != "index_repo"@);
            assert(tool_name@ != "sync_repo"@);
            assert(tool_name@ != "index_status"@);
        }
        search_payload(env, arguments, eref)
    } else if str_eq(tool_name, "index_repo") {
        proof {
            assert(tool_name@ == "index_repo"@);
            assert("locate_symbol"@.len() == 13);
            assert("search_code"@.len() == 11);
            assert("index_repo"@.len() == 10);
            assert("sync_repo"@.len() == 9);
            assert("index_status"@.len() == 12);
            assert(tool_name@ != "locate_symbol"@);
            assert(tool_name@ != "search_code"@);
            assert(tool_name@ != "sync_repo"@);
            assert(tool_name@ != "index_status"@);
        }
        index_or_sync_payload(env, arguments, eref, false)
    } else if str_eq(tool_name, "sync_repo") {
        proof {
            assert(tool_name@ == "sync_repo"@);
            assert("locate_symbol"@.len() == 13);
            assert("search_code"@.len() == 11);
            assert("index_repo"@.len() == 10);
            assert("sync_repo"@.len() == 9);
            assert("index_status"@.len() == 12);
            assert(tool_name@ != "locate_symbol"@);
            assert(tool_name@ != "search_code"@);
            assert(tool_name@ != "index_repo"@);
            assert(tool_name@ != "index_status"@);
        }
        index_or_sync_payload(env, arguments, eref, true)
    } else {
        proof {
            assert(tool_name@ == "index_status"@);
        }
        let p = crate::status::handle_index_status(env, eref);
        (p, IndexDirective::NoAction)
    }
}

/// The tools this dispatcher serves.
pub open spec fn tool_known(name: Seq<char>) -> bool {
    ||| name == "locate_symbol"@
    ||| name == "search_code"@
    ||| name == "index_repo"@
    ||| name == "sync_repo"@
    ||| name == "index_status"@
}

/// The trimmed string argument, when present and non-blank.
fn get_trimmed_arg(arguments: &JsonValue, key: &str) -> (r: Option<String>)
    ensures
        r is Some <==> !arg_blank(*arguments, key@),
        r matches Option::Some(s) ==> arg_str(*arguments, key@) == Option::Some(s@),
{
    match arguments.get(key) {
        Option::Some(v) => match v.as_str() {
            Option::Some(s) => {
                let t = trim_spaces(s.as_str());
                if t.as_str().unicode_len() > 0 {
                    Option::Some(s.clone())
                } else {
                    Option::None
                }
            },
            Option::None => Option::None,
        },
        Option::None => Option::None,
    }
}

/// The `limit` argument as a usize, with the given default.
fn get_limit_arg(arguments: &JsonValue, default: usize) -> (r: usize)
    ensures
        r == limit_of(*arguments, default),
{
    match arguments.get("limit") {
        Option::Some(v) => match v.as_u64() {
            Option::Some(u) => {
                if u > (usize::MAX as u64) {
                    usize::MAX
                } else {
                    u as usize
                }
            },
            Option::None => default,
        },
        Option::None => default,
    }
}

/// The label a query intent is reported with.
pub open spec fn intent_label(intent: crate::types::QueryIntent) -> Seq<char> {
    match intent {
        crate::types::QueryIntent::Path => "path"@,
        crate::types::QueryIntent::Error => "error"@,
        crate::types::QueryIntent::Symbol => "symbol"@,
        crate::types::QueryIntent::NaturalLanguage => "natural_language"@,
    }
}

fn intent_str(intent: crate::types::QueryIntent) -> (r: &'static str)
    ensures
        r@ == intent_label(intent),
{
    match intent {
        crate::types::QueryIntent::Path => "path",
        crate::types::QueryIntent::Error => "error",
        crate::types::QueryIntent::Symbol => "symbol",
        crate::types::QueryIntent::NaturalLanguage => "natural_language",
    }
}

fn opt_str_json(o: &Option<String>) -> (r: JsonValue)
    ensures
        r == opt_json(*o),
{
    match o {
        Option::Some(s) => JsonValue::Str(s.clone()),
        Option::None => JsonValue::Null,
    }
}

fn locate_result_json(x: &crate::ranking::LocateResult) -> (r: JsonValue)
    ensures
        is_locate_row_json(r, *x),
{
    let mut f: Vec<(String, JsonValue)> = Vec::new();
    f.push((String::from_str("symbol_id"), JsonValue::Str(x.symbol_id.clone())));
    f.push((String::from_str("symbol_stable_id"), JsonValue::Str(x.symbol_stable_id.clone())));
    f.push((String::from_str("path"), JsonValue::Str(x.path.clone())));
    f.push((String::from_str("line_start"), JsonValue::UInt(x.line_start as u64)));
    f.push((String::from_str("line_end"), JsonValue::UInt(x.line_end as u64)));
    f.push((String::from_str("kind"), JsonValue::Str(x.kind.clone())));
    f.push((String::from_str("name"), JsonValue::Str(x.name.clone())));
    f.push((String::from_str("qualified_name"), JsonValue::Str(x.qualified_name.clone())));
    f.push((String::from_str("signature"), opt_str_json(&x.signature)));
    f.push((String::from_str("language"), JsonValue::Str(x.language.clone())));
    f.push((String::from_str("visibility"), opt_str_json(&x.visibility)));
    f.push((String::from_str("score"), JsonValue::Int(x.score)));
    let r = JsonValue::Obj(f);
    proof {
        reveal_strlit("symbol_id");
        reveal_strlit("symbol_stable_id");
        reveal_strlit("path");
        reveal_strlit("line_start");
        reveal_strlit("line_end");
        reveal_strlit("kind");
        reveal_strlit("name");
        reveal_strlit("qualified_name");
        reveal_strlit("signature");
        reveal_strlit("language");
        reveal_strlit("visibility");
        reveal_strlit("score");
        assert(f@.len() == 12);
    }
    r
}

fn search_result_json(
    x: &crate::ranking::SearchResult,
    detail: crate::types::DetailLevel,
    compact: bool,
) -> (r: JsonValue)
    ensures
        is_search_row_json(r, *x, detail, compact),
{
    let has_sig = !matches!(detail, crate::types::DetailLevel::Location);
    let has_snip = !(compact || matches!(detail, crate::types::DetailLevel::Location));
    let mut f: Vec<(String, JsonValue)> = Vec::new();
    f.push((String::from_str("result_id"), JsonValue::Str(x.result_id.clone())));
    f.push((String::from_str("symbol_id"), opt_str_json(&x.symbol_id)));
    f.push((String::from_str("symbol_stable_id"), opt_str_json(&x.symbol_stable_id)));
    f.push((String::from_str("result_type"), JsonValue::Str(x.result_type.clone())));
    f.push((String::from_str("path"), JsonValue::Str(x.path.clone())));
    f.push((String::from_str("line_start"), JsonValue::UInt(x.line_start as u64)));
    f.push((String::from_str("line_end"), JsonValue::UInt(x.line_end as u64)));
    f.push((String::from_str("kind"), opt_str_json(&x.kind)));
    f.push((String::from_str("name"), opt_str_json(&x.name)));
    f.push((String::from_str("qualified_name"), opt_str_json(&x.qualified_name)));
    f.push((String::from_str("language"), JsonValue::Str(x.language.clone())));
    if has_sig {
        f.push((String::from_str("signature"), opt_str_json(&x.signature)));
    }
    f.push((String::from_str("visibility"), opt_str_json(&x.visibility)));
    f.push((String::from_str("score"), JsonValue::Int(x.score)));
    if has_snip {
        f.push((String::from_str("snippet"), opt_str_json(&x.snippet)));
    }
    let r = JsonValue::Obj(f);
    proof {
        reveal_strlit("result_id");
        reveal_strlit("symbol_id");
        reveal_strlit("symbol_stable_id");
        reveal_strlit("result_type");
        reveal_strlit("path");
        reveal_strlit("line_start");
        reveal_strlit("line_end");
        reveal_strlit("kind");
        reveal_strlit("name");
        reveal_strlit("qualified_name");
        reveal_strlit("language");
        reveal_strlit("signature");
        reveal_strlit("visibility");
        reveal_strlit("score");
        reveal_strlit("snippet");
        if has_sig {
            if has_snip {
                assert(f@.len() == 15);
            } else {
                assert(f@.len() == 14);
            }
        } else {
            assert(f@.len() == 13);
        }
        assert(is_search_row_json(r, *x, detail, compact));
    }
    r
}

/// The explanation row at surviving position `k` carries every scoring
/// component — the boosts, the base score, the kind component, and the final
/// score — renumbered to that position.
pub open spec fn is_full_reason_row(v: JsonValue, k: int) -> bool {
    &&& v is Obj
    &&& v->Obj_0@.len() == 8
    &&& v->Obj_0@[0].0@ == "result_index"@ && v->Obj_0@[0].1 == JsonValue::UInt(k as u64)
    &&& v->Obj_0@[1].0@ == "exact_match"@ && v->Obj_0@[1].1 is Int
    &&& v->Obj_0@[2].0@ == "qualified_name"@ && v->Obj_0@[2].1 is Int
    &&& v->Obj_0@[3].0@ == "path_affinity"@ && v->Obj_0@[3].1 is Int
    &&& v->Obj_0@[4].0@ == "definition"@ && v->Obj_0@[4].1 is Int
    &&& v->Obj_0@[5].0@ == "kind_match"@ && v->Obj_0@[5].1 is Int
    &&& v->Obj_0@[6].0@ == "bm25"@ && v->Obj_0@[6].1 is Int
    &&& v->Obj_0@[7].0@ == "final"@ && v->Obj_0@[7].1 is Int
}

/// The reduced explanation row at position `k`: exactly the four basic
/// components beside the position, nothing else.
pub open spec fn is_basic_reason_row(v: JsonValue, k: int) -> bool {
    &&& v is Obj
    &&& v->Obj_0@.len() == 5
    &&& v->Obj_0@[0].0@ == "result_index"@ && v->Obj_0@[0].1 == JsonValue::UInt(k as u64)
    &&& v->Obj_0@[1].0@ == "exact_match"@ && v->Obj_0@[1].1 is Int
    &&& v->Obj_0@[2].0@ == "path_boost"@ && v->Obj_0@[2].1 is Int
    &&& v->Obj_0@[3].0@ == "semantic_similarity"@ && v->Obj_0@[3].1 is Int
    &&& v->Obj_0@[4].0@ == "final"@ && v->Obj_0@[4].1 is Int
}

/// `v` is the full explanation row of `x`: every scoring component, the base
/// score, and the final score, keyed by surviving position.
pub open spec fn is_full_reason_json(v: JsonValue, x: crate::ranking::RankingReasons) -> bool {
    &&& v is Obj
    &&& v->Obj_0@.len() == 8
    &&& v->Obj_0@[0].0@ == "result_index"@ && v->Obj_0@[0].1 == JsonValue::UInt(
        x.result_index as u64,
    )
    &&& v->Obj_0@[1].0@ == "exact_match"@ && v->Obj_0@[1].1 == JsonValue::Int(x.exact_match_boost)
    &&& v->Obj_0@[2].0@ == "qualified_name"@ && v->Obj_0@[2].1 == JsonValue::Int(
        x.qualified_name_boost,
    )
    &&& v->Obj_0@[3].0@ == "path_affinity"@ && v->Obj_0@[3].1 == JsonValue::Int(x.path_affinity)
    &&& v->Obj_0@[4].0@ == "definition"@ && v->Obj_0@[4].1 == JsonValue::Int(x.definition_boost)
    &&& v->Obj_0@[5].0@ == "kind_match"@ && v->Obj_0@[5].1 == JsonValue::Int(x.kind_match)
    &&& v->Obj_0@[6].0@ == "bm25"@ && v->Obj_0@[6].1 == JsonValue::Int(x.bm25_score)
    &&& v->Obj_0@[7].0@ == "final"@ && v->Obj_0@[7].1 == JsonValue::Int(x.final_score)
}

/// `v` is the reduced explanation row of `x`: exactly the four basic
/// components and the position, nothing else.
pub open spec fn is_basic_reason_json(v: JsonValue, x: crate::ranking::BasicRankingReasons) -> bool {
    &&& v is Obj
    &&& v->Obj_0@.len() == 5
    &&& v->Obj_0@[0].0@ == "result_index"@ && v->Obj_0@[0].1 == JsonValue::UInt(
        x.result_index as u64,
    )
    &&& v->Obj_0@[1].0@ == "exact_match"@ && v->Obj_0@[1].1 == JsonValue::Int(x.exact_match)
    &&& v->Obj_0@[2].0@ == "path_boost"@ && v->Obj_0@[2].1 == JsonValue::Int(x.path_boost)
    &&& v->Obj_0@[3].0@ == "semantic_similarity"@ && v->Obj_0@[3].1 == JsonValue::Int(
        x.semantic_similarity,
    )
    &&& v->Obj_0@[4].0@ == "final"@ && v->Obj_0@[4].1 == JsonValue::Int(x.final_score)
}

fn reasons_json_full(rs: &Vec<crate::ranking::RankingReasons>) -> (r: JsonValue)
    ensures
        r is Arr,
        r->Arr_0@.len() == rs@.len(),
        forall|k: int| 0 <= k < rs@.len() ==> is_full_reason_json(#[trigger] r->Arr_0@[k], rs@[k]),
{
    let mut rows: Vec<JsonValue> = Vec::new();
    let mut i: usize = 0;
    while i < rs.len()
        invariant
            0 <= i <= rs@.len(),
            rows@.len() == i,
            forall|k: int| 0 <= k < i ==> is_full_reason_json(#[trigger] rows@[k], rs@[k]),
        decreases rs@.len() - i,
    {
        let x = &rs[i];
        let mut f: Vec<(String, JsonValue)> = Vec::new();
        f.push((String::from_str("result_index"), JsonValue::UInt(x.result_index as u64)));
        f.push((String::from_str("exact_match"), JsonValue::Int(x.exact_match_boost)));
        f.push((String::from_str("qualified_name"), JsonValue::Int(x.qualified_name_boost)));
        f.push((String::from_str("path_affinity"), JsonValue::Int(x.path_affinity)));
        f.push((String::from_str("definition"), JsonValue::Int(x.definition_boost)));
        f.push((String::from_str("kind_match"), JsonValue::Int(x.kind_match)));
        f.push((String::from_str("bm25"), JsonValue::Int(x.bm25_score)));
        f.push((String::from_str("final"), JsonValue::Int(x.final_score)));
        let row = JsonValue::Obj(f);
        proof {
            reveal_strlit("result_index");
            reveal_strlit("exact_match");
            reveal_strlit("qualified_name");
            reveal_strlit("path_affinity");
            reveal_strlit("definition");
            reveal_strlit("kind_match");
            reveal_strlit("bm25");
            reveal_strlit("final");
            assert(is_full_reason_json(row, rs@[i as int]));
        }
        rows.push(row);
        i = i + 1;
    }
    JsonValue::Arr(rows)
}

fn reasons_json_basic(rs: &Vec<crate::ranking::BasicRankingReasons>) -> (r: JsonValue)
    ensures
        r is Arr,
        r->Arr_0@.len() == rs@.len(),
        forall|k: int| 0 <= k < rs@.len() ==> is_basic_reason_json(#[trigger] r->Arr_0@[k], rs@[k]),
{
    let mut rows: Vec<JsonValue> = Vec::new();
    let mut i: usize = 0;
    while i < rs.len()
        invariant
            0 <= i <= rs@.len(),
            rows@.len() == i,
            forall|k: int| 0 <= k < i ==> is_basic_reason_json(#[trigger] rows@[k], rs@[k]),
        decreases rs@.len() - i,
    {
        let x = &rs[i];
        let mut f: Vec<(String, JsonValue)> = Vec::new();
        f.push((String::from_str("result_index"), JsonValue::UInt(x.result_index as u64)));
        f.push((String::from_str("exact_match"), JsonValue::Int(x.exact_match)));
        f.push((String::from_str("path_boost"), JsonValue::Int(x.path_boost)));
        f.push((String::from_str("semantic_similarity"), JsonValue::Int(x.semantic_similarity)));
        f.push((String::from_str("final"), JsonValue::Int(x.final_score)));
        let row = JsonValue::Obj(f);
        proof {
            reveal_strlit("result_index");
            reveal_strlit("exact_match");
            reveal_strlit("path_boost");
            reveal_strlit("semantic_similarity");
            reveal_strlit("final");
            assert(is_basic_reason_json(row, rs@[i as int]));
        }
        rows.push(row);
        i = i + 1;
    }
    JsonValue::Arr(rows)
}

fn actions_json(actions: &Vec<crate::shared::SuggestedAction>) -> (r: JsonValue)
{
    let mut rows: Vec<JsonValue> = Vec::new();
    let mut i: usize = 0;
    while i < actions.len()
        invariant
            0 <= i <= actions@.len(),
        decreases actions@.len() - i,
    {
        let a = &actions[i];
        let mut f: Vec<(String, JsonValue)> = Vec::new();
        f.push((String::from_str("tool"), JsonValue::Str(a.tool.clone())));
        f.push((String::from_str("name"), opt_str_json(&a.name)));
        f.push((String::from_str("query"), opt_str_json(&a.query)));
        f.push((String::from_str("ref"), opt_str_json(&a.ref_name)));
        f.push((
            String::from_str("limit"),
            match a.limit {
                Option::Some(u) => JsonValue::UInt(u),
                Option::None => JsonValue::Null,
            },
        ));
        rows.push(JsonValue::Obj(f));
        i = i + 1;
    }
    JsonValue::Arr(rows)
}

/// The synthetic answer a query receives while on-demand indexing is still
/// building the project's first index: partial, with a poll suggestion.
fn on_demand_indexing_payload(env: &ServerEnv, eref: &str) -> (r: JsonValue)
    requires
        env_wf(*env),
    ensures
        payload_has_metadata(r),
        payload_error_code(r) is None,
        spec_get(r, "indexing_status"@) matches Option::Some(v) && v is Str && v->Str_0@
            == "indexing"@,
        spec_get(r, "result_completeness"@) matches Option::Some(v2) && v2 is Str && v2->Str_0@
            == "partial"@,
        spec_get(r, "suggested_next_actions"@) matches Option::Some(sa) && sa is Arr
            && sa->Arr_0@.len() == 1 && (spec_get(sa->Arr_0@[0], "tool"@) matches Option::Some(at)
            && at is Str && at->Str_0@ == "index_status"@),
{
    let metadata = build_metadata(env, eref);
    let mut action: Vec<(String, JsonValue)> = Vec::new();
    action.push((String::from_str("tool"), jstr("index_status")));
    action.push((String::from_str("reason"), jstr("Poll until the first index is published.")));
    let av = JsonValue::Obj(action);
    proof {
        reveal_strlit("tool");
        assert(av->Obj_0@[0].0@ == "tool"@);
        crate::json::lemma_lookup_at(av->Obj_0@, "tool"@, 0);
    }
    let mut actions: Vec<JsonValue> = Vec::new();
    actions.push(av);
    let mut fields: Vec<(String, JsonValue)> = Vec::new();
    fields.push((String::from_str("indexing_status"), jstr("indexing")));
    fields.push((String::from_str("result_completeness"), jstr("partial")));
    fields.push((String::from_str("results"), JsonValue::Arr(Vec::new())));
    let sav = JsonValue::Arr(actions);
    proof {
        assert(sav->Arr_0@.len() == 1);
    }
    fields.push((String::from_str("suggested_next_actions"), sav));
    fields.push((String::from_str("metadata"), metadata.to_json()));
    let p = JsonValue::Obj(fields);
    proof {
        reveal_strlit("indexing_status");
        reveal_strlit("result_completeness");
        reveal_strlit("results");
        reveal_strlit("suggested_next_actions");
        reveal_strlit("metadata");
        reveal_strlit("error");
        assert(fields@.len() == 5);
        assert("indexing_status"@.len() == 15 && "result_completeness"@.len() == 19
            && "results"@.len() == 7 && "suggested_next_actions"@.len() == 22
            && "metadata"@.len() == 8 && "error"@.len() == 5);
        assert(fields@[0].0@ == "indexing_status"@);
        assert(fields@[1].0@ == "result_completeness"@);
        assert(fields@[2].0@ == "results"@);
        assert(fields@[3].0@ == "suggested_next_actions"@);
        assert(fields@[4].0@ == "metadata"@);
        assert forall|i2: int| 0 <= i2 < fields@.len() implies (#[trigger] fields@[i2]).0@
            != "error"@ by {
            if i2 == 0 {
            } else if i2 == 1 {
            } else if i2 == 2 {
            } else if i2 == 3 {
            } else if i2 == 4 {
            }
        }
        crate::json::lemma_lookup_absent(fields@, "error"@);
        crate::json::lemma_lookup_at(fields@, "indexing_status"@, 0);
        crate::json::lemma_lookup_at(fields@, "result_completeness"@, 1);
        assert(fields@[0].0@ != "suggested_next_actions"@ && fields@[1].0@
            != "suggested_next_actions"@ && fields@[2].0@ != "suggested_next_actions"@);
        crate::json::lemma_lookup_at(fields@, "suggested_next_actions"@, 3);
        crate::json::lemma_lookup_at(fields@, "metadata"@, 4);
    }
    p
}

// ---------------------------------------------------------------------------
// JSON-RPC request handling.
// ---------------------------------------------------------------------------

/// Dispatch one JSON-RPC request: the fixed methods, tool routing for
/// `tools/call`, and method-not-found for anything else.
pub fn handle_request(env: &ServerEnv, request: JsonRpcRequest) -> (r: (
    JsonRpcResponse,
    IndexDirective,
))
    requires
        env_wf(*env),
    ensures
        r.0.id == (match request.id {
            Option::Some(v) => v,
            Option::None => JsonValue::Null,
        }),
        request.method@ == "initialize"@ ==> r.0.error is None,
        request.method@ == "notifications/initialized"@ ==> r.0.error is None,
        request.method@ == "tools/list"@ ==> r.0.error is None && (r.0.result matches
            Option::Some(res) && spec_get(res, "tools"@) matches Option::Some(t) && t is Arr && {
            let ts = t->Arr_0@;
            &&& ts.len() == 5
            &&& is_tool_descriptor(ts[0], "locate_symbol"@)
            &&& is_tool_descriptor(ts[1], "search_code"@)
            &&& is_tool_descriptor(ts[2], "index_repo"@)
            &&& is_tool_descriptor(ts[3], "sync_repo"@)
            &&& is_tool_descriptor(ts[4], "index_status"@)
        }),
        !(request.method@ == "initialize"@ || request.method@ == "notifications/initialized"@
            || request.method@ == "tools/list"@ || request.method@ == "tools/call"@) ==> (
        r.0.error matches Option::Some(e) && e.0 == -32601),
        (request.method@ == "tools/call"@ && (spec_get(request.params, "arguments"@) matches
            Option::Some(a) && arg_str(a, "workspace"@) is Some)
            && !env.workspace_config.enabled) ==> (r.0.error is None && (r.0.result matches
            Option::Some(res) && exists|p: JsonValue|
            is_tool_text(res, p) && #[trigger] payload_error_code(p) == Option::Some(
                "workspace_unsupported"@,
            ))),
        (request.method@ == "tools/call"@ && env.workspace_config.on_demand_indexing && !(
        env.schema_status is Compatible) && (spec_get(request.params, "name"@) matches
            Option::Some(nv) && nv is Str && (nv->Str_0@ == "locate_symbol"@ || nv->Str_0@
            == "search_code"@ || nv->Str_0@ == "get_file_outline"@)) && !(spec_get(
            request.params,
            "arguments"@,
        ) matches Option::Some(a) && arg_str(a, "workspace"@) is Some)) ==> (r.0.error is None && (
        r.0.result matches Option::Some(res) && exists|p: JsonValue|
            is_tool_text(res, p) && ((#[trigger] spec_get(p, "indexing_status"@)) matches
                Option::Some(v) && v is Str && v->Str_0@ == "indexing"@) && (spec_get(
                p,
                "result_completeness"@,
            ) matches Option::Some(v2) && v2 is Str && v2->Str_0@ == "partial"@) && (spec_get(
                p,
                "suggested_next_actions"@,
            ) matches Option::Some(sa) && sa is Arr && sa->Arr_0@.len() == 1 && (spec_get(
                sa->Arr_0@[0],
                "tool"@,
            ) matches Option::Some(at) && at is Str && at->Str_0@ == "index_status"@))) && r.1
            is Sync),
        request.method@ == "tools/call"@ ==> (match spec_get(request.params, "name"@) {
            Option::Some(nv) => (nv is Str && tool_known(nv->Str_0@)) ==> (match spec_get(
                request.params,
                "arguments"@,
            ) {
                Option::Some(a) => (!(arg_str(a, "workspace"@) is Some) && !(
                env.workspace_config.on_demand_indexing && !(env.schema_status is Compatible) && (
                nv->Str_0@ == "locate_symbol"@ || nv->Str_0@ == "search_code"@))) ==> (r.0.error
                    is None && (r.0.result matches Option::Some(res) && exists|p: JsonValue|
                    #[trigger] is_tool_text(res, p) && tool_payload_spec(
                        *env,
                        nv->Str_0@,
                        a,
                        p,
                        r.1,
                    ))),
                Option::None => true,
            }),
            Option::None => true,
        }),
{
    proof {
        reveal_strlit("initialize");
        reveal_strlit("notifications/initialized");
        reveal_strlit("tools/list");
        reveal_strlit("tools/call");
        assert("initialize"@.len() == 10 && "notifications/initialized"@.len() == 25
            && "tools/list"@.len() == 10 && "tools/call"@.len() == 10);
        assert("initialize"@[0] == 'i' && "tools/list"@[0] == 't' && "tools/call"@[0] == 't');
        assert("tools/list"@[6] == 'l' && "tools/call"@[6] == 'c');
    }
    let m = request.method.as_str();
    if str_eq(m, "initialize") {
        let mut caps: Vec<(String, JsonValue)> = Vec::new();
        caps.push((String::from_str("tools"), JsonValue::Obj(Vec::new())));
        let mut info: Vec<(String, JsonValue)> = Vec::new();
        info.push((String::from_str("name"), jstr("codecompass")));
        info.push((String::from_str("version"), JsonValue::Str(env.version.clone())));
        let mut f: Vec<(String, JsonValue)> = Vec::new();
        f.push((String::from_str("protocolVersion"), jstr("2024-11-05")));
        f.push((String::from_str("capabilities"), JsonValue::Obj(caps)));
        f.push((String::from_str("serverInfo"), JsonValue::Obj(info)));
        (
            JsonRpcResponse::success(request.id, JsonValue::Obj(f)),
            IndexDirective::NoAction,
        )
    } else if str_eq(m, "notifications/initialized") {
        (
            JsonRpcResponse::success(request.id, JsonValue::Obj(Vec::new())),
            IndexDirective::NoAction,
        )
    } else if str_eq(m, "tools/list") {
        let mut f: Vec<(String, JsonValue)> = Vec::new();
        f.push((String::from_str("tools"), list_tools()));
        let result = JsonValue::Obj(f);
        proof {
            reveal_strlit("tools");
            assert(result->Obj_0@[0].0@ == "tools"@);
            crate::json::lemma_lookup_at(result->Obj_0@, "tools"@, 0);
        }
        (
            JsonRpcResponse::success(request.id, result),
            IndexDirective::NoAction,
        )
    } else if str_eq(m, "tools/call") {
        let tool_name = match request.params.get_str("name") {
            Option::Some(n) => n,
            Option::None => String::new(),
        };
        let empty = JsonValue::Obj(Vec::new());
        let args: &JsonValue = match request.params.get("arguments") {
            Option::Some(a) => a,
            Option::None => &empty,
        };
        match args.get_str("workspace") {
            Option::Some(hint) => {
                let registered = is_project_registered(env);
                let routed = crate::router::resolve_workspace(
                    Option::Some(hint.as_str()),
                    &env.workspace_config,
                    env.workspace.as_str(),
                    registered,
                );
                match routed {
                    Result::Err(we) => {
                        let requested_ref = args.get_str("ref");
                        let effective_ref = resolve_tool_ref(
                            match &requested_ref {
                                Option::Some(s) => Option::Some(s.as_str()),
                                Option::None => Option::None,
                            },
                            match &env.head_branch {
                                Option::Some(b) => Option::Some(b.as_str()),
                                Option::None => Option::None,
                            },
                            Option::None,
                        );
                        let metadata = build_metadata(env, effective_ref.as_str());
                        let mut data: Vec<(String, JsonValue)> = Vec::new();
                        data.push((String::from_str("workspace"), JsonValue::Str(hint)));
                        let payload = tool_error_payload(
                            we.code(),
                            "The requested workspace cannot be served. Configure multi-workspace roots.",
                            Option::Some(JsonValue::Obj(data)),
                            &metadata,
                        );
                        return (
                            tool_text_response(request.id, payload),
                            IndexDirective::NoAction,
                        );
                    },
                    Result::Ok(_) => {
                        // The hint routed to a workspace this process serves.
                    },
                }
            },
            Option::None => {},
        }
        let tn = tool_name.as_str();
        if env.workspace_config.on_demand_indexing && !matches!(
            env.schema_status,
            SchemaStatus::Compatible,
        ) && (str_eq(tn, "locate_symbol") || str_eq(tn, "search_code") || str_eq(
            tn,
            "get_file_outline",
        )) {
            proof {
                reveal_strlit("get_file_outline");
                reveal_strlit("locate_symbol");
                reveal_strlit("search_code");
                reveal_strlit("index_repo");
                reveal_strlit("sync_repo");
                reveal_strlit("index_status");
                assert("get_file_outline"@.len() == 16 && "locate_symbol"@.len() == 13
                    && "search_code"@.len() == 11 && "index_repo"@.len() == 10
                    && "sync_repo"@.len() == 9 && "index_status"@.len() == 12);
            }
            let requested_ref = args.get_str("ref");
            let effective_ref = resolve_tool_ref(
                match &requested_ref {
                    Option::Some(s) => Option::Some(s.as_str()),
                    Option::None => Option::None,
                },
                match &env.head_branch {
                    Option::Some(b) => Option::Some(b.as_str()),
                    Option::None => Option::None,
                },
                Option::None,
            );
            let payload = on_demand_indexing_payload(env, effective_ref.as_str());
            return (
                tool_text_response(request.id, payload),
                IndexDirective::Sync { ref_name: effective_ref },
            );
        }
        if str_eq(tn, "locate_symbol") || str_eq(tn, "search_code") || str_eq(tn, "index_repo")
            || str_eq(tn, "sync_repo") || str_eq(tn, "index_status") {
            let (payload, directive) = handle_tool_payload(env, tn, args);
            (tool_text_response(request.id, payload), directive)
        } else if str_eq(tn, "get_file_outline") {
            let requested_ref = args.get_str("ref");
            let effective_ref = resolve_tool_ref(
                match &requested_ref {
                    Option::Some(s) => Option::Some(s.as_str()),
                    Option::None => Option::None,
                },
                match &env.head_branch {
                    Option::Some(b) => Option::Some(b.as_str()),
                    Option::None => Option::None,
                },
                Option::None,
            );
            let payload = crate::status::handle_get_file_outline(env, effective_ref.as_str(), args);
            (tool_text_response(request.id, payload), IndexDirective::NoAction)
        } else if str_eq(tn, "health_check") {
            let requested_ref = args.get_str("ref");
            let effective_ref = resolve_tool_ref(
                match &requested_ref {
                    Option::Some(s) => Option::Some(s.as_str()),
                    Option::None => Option::None,
                },
                match &env.head_branch {
                    Option::Some(b) => Option::Some(b.as_str()),
                    Option::None => Option::None,
                },
                Option::None,
            );
            let payload = crate::health::handle_health_check(env, effective_ref.as_str());
            (tool_text_response(request.id, payload), IndexDirective::NoAction)
        } else {
            let mut msg = String::from_str("Unknown tool: ");
            msg.append(tn);
            (JsonRpcResponse::failure(request.id, -32601, msg), IndexDirective::NoAction)
        }
    } else {
        let mut msg = String::from_str("Method not found: ");
        msg.append(m);
        (JsonRpcResponse::failure(request.id, -32601, msg), IndexDirective::NoAction)
    }
}

/// `v` is a tool descriptor for the named tool, with a description and an
/// object input schema.
pub open spec fn is_tool_descriptor(v: JsonValue, name: Seq<char>) -> bool {
    &&& v is Obj
    &&& v->Obj_0@.len() == 3
    &&& v->Obj_0@[0].0@ == "name"@ && v->Obj_0@[0].1 is Str && v->Obj_0@[0].1->Str_0@ == name
    &&& v->Obj_0@[1].0@ == "description"@ && v->Obj_0@[1].1 is Str
    &&& v->Obj_0@[2].0@ == "inputSchema"@ && v->Obj_0@[2].1 is Obj
}

/// The static tool descriptors served by `tools/list`.
pub fn list_tools() -> (r: JsonValue)
    ensures
        r is Arr && r->Arr_0@.len() == 5,
        is_tool_descriptor(r->Arr_0@[0], "locate_symbol"@),
        is_tool_descriptor(r->Arr_0@[1], "search_code"@),
        is_tool_descriptor(r->Arr_0@[2], "index_repo"@),
        is_tool_descriptor(r->Arr_0@[3], "sync_repo"@),
        is_tool_descriptor(r->Arr_0@[4], "index_status"@),
{
    let mut rows: Vec<JsonValue> = Vec::new();
    rows.push(tool_descriptor(
        "locate_symbol",
        "Find symbol definitions by name. Returns precise file:line locations.",
    ));
    rows.push(tool_descriptor(
        "search_code",
        "Search across symbols, snippets, and files with query intent classification.",
    ));
    rows.push(tool_descriptor(
        "index_repo",
        "Run a full or incremental indexing job for the workspace.",
    ));
    rows.push(tool_descriptor(
        "sync_repo",
        "Synchronise the index with the working tree incrementally.",
    ));
    rows.push(tool_descriptor(
        "index_status",
        "Get current indexing status and job history for a project.",
    ));
    JsonValue::Arr(rows)
}

fn tool_descriptor(name: &str, description: &str) -> (r: JsonValue)
    ensures
        is_tool_descriptor(r, name@),
{
    let mut schema: Vec<(String, JsonValue)> = Vec::new();
    schema.push((String::from_str("type"), jstr("object")));
    let mut f: Vec<(String, JsonValue)> = Vec::new();
    f.push((String::from_str("name"), jstr(name)));
    f.push((String::from_str("description"), jstr(description)));
    f.push((String::from_str("inputSchema"), JsonValue::Obj(schema)));
    let r = JsonValue::Obj(f);
    proof {
        reveal_strlit("name");
        reveal_strlit("description");
        reveal_strlit("inputSchema");
        assert(f@.len() == 3);
    }
    r
}

} // verus!
