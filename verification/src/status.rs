use vstd::prelude::*;
use crate::dispatch::{arg_blank, build_metadata, ServerEnv};
use crate::json::{jstr, spec_get, JsonValue};
use crate::protocol::{payload_error_code, payload_has_metadata, tool_error_payload};
use crate::strutil::str_eq;
use crate::types::{IndexJob, SchemaStatus, SymbolRecord, SCHEMA_VERSION};

verus! {

/// The coarse status string `index_status` reports: `ready` only for a
/// compatible index.
pub open spec fn coarse_status(s: SchemaStatus) -> Seq<char> {
    if s is Compatible {
        "ready"@
    } else {
        "not_indexed"@
    }
}

/// `v` is the history row of job `j`: its id, ref, mode, status, progress
/// count, duration, and timestamps, in that order.
pub open spec fn is_job_json(v: JsonValue, j: IndexJob) -> bool {
    &&& v is Obj
    &&& v->Obj_0@.len() == 8
    &&& v->Obj_0@[0].0@ == "job_id"@ && v->Obj_0@[0].1 == JsonValue::Str(j.job_id)
    &&& v->Obj_0@[1].0@ == "ref"@ && v->Obj_0@[1].1 == JsonValue::Str(j.ref_name)
    &&& v->Obj_0@[2].0@ == "mode"@ && v->Obj_0@[2].1 == JsonValue::Str(j.mode)
    &&& v->Obj_0@[3].0@ == "status"@ && v->Obj_0@[3].1 == JsonValue::Str(j.status)
    &&& v->Obj_0@[4].0@ == "changed_files"@ && v->Obj_0@[4].1 == JsonValue::Int(j.changed_files)
    &&& v->Obj_0@[5].0@ == "duration_ms"@ && v->Obj_0@[5].1 == (match j.duration_ms {
        Option::Some(d) => JsonValue::Int(d),
        Option::None => JsonValue::Null,
    })
    &&& v->Obj_0@[6].0@ == "created_at"@ && v->Obj_0@[6].1 == JsonValue::Str(j.created_at)
    &&& v->Obj_0@[7].0@ == "updated_at"@ && v->Obj_0@[7].1 == JsonValue::Str(j.updated_at)
}

/// `v` is the report of the running job: its id, mode, status and ref.
pub open spec fn is_status_active_json(v: JsonValue, j: IndexJob) -> bool {
    &&& v is Obj
    &&& v->Obj_0@.len() == 4
    &&& v->Obj_0@[0].0@ == "job_id"@ && v->Obj_0@[0].1 == JsonValue::Str(j.job_id)
    &&& v->Obj_0@[1].0@ == "mode"@ && v->Obj_0@[1].1 == JsonValue::Str(j.mode)
    &&& v->Obj_0@[2].0@ == "status"@ && v->Obj_0@[2].1 == JsonValue::Str(j.status)
    &&& v->Obj_0@[3].0@ == "ref"@ && v->Obj_0@[3].1 == JsonValue::Str(j.ref_name)
}

fn job_json(j: &IndexJob) -> (r: JsonValue)
    ensures
        is_job_json(r, *j),
{
    let mut f: Vec<(String, JsonValue)> = Vec::new();
    f.push((String::from_str("job_id"), JsonValue::Str(j.job_id.clone())));
    f.push((String::from_str("ref"), JsonValue::Str(j.ref_name.clone())));
    f.push((String::from_str("mode"), JsonValue::Str(j.mode.clone())));
    f.push((String::from_str("status"), JsonValue::Str(j.status.clone())));
    f.push((String::from_str("changed_files"), JsonValue::Int(j.changed_files)));
    f.push((
        String::from_str("duration_ms"),
        match j.duration_ms {
            Option::Some(d) => JsonValue::Int(d),
            Option::None => JsonValue::Null,
        },
    ));
    f.push((String::from_str("created_at"), JsonValue::Str(j.created_at.clone())));
    f.push((String::from_str("updated_at"), JsonValue::Str(j.updated_at.clone())));
    let r = JsonValue::Obj(f);
    proof {
        reveal_strlit("job_id");
        reveal_strlit("ref");
        reveal_strlit("mode");
        reveal_strlit("status");
        reveal_strlit("changed_files");
        reveal_strlit("duration_ms");
        reveal_strlit("created_at");
        reveal_strlit("updated_at");
        assert(f@.len() == 8);
    }
    r
}

/// The first published job for the ref among the recent ones, if any: its
/// update time is the `last_indexed_at` the status reports.
fn last_indexed_at(recent: &Vec<IndexJob>, effective_ref: &str) -> (r: Option<String>)
    ensures
        r is Some ==> exists|i: int|
            0 <= i < recent@.len() && (#[trigger] recent@[i]).status@ == "published"@
                && recent@[i].ref_name@ == effective_ref@,
{
    let mut i: usize = 0;
    while i < recent.len()
        invariant
            0 <= i <= recent@.len(),
        decreases recent@.len() - i,
    {
        let j = &recent[i];
        if str_eq(j.status.as_str(), "published") && str_eq(j.ref_name.as_str(), effective_ref) {
            return Option::Some(j.updated_at.clone());
        }
        i = i + 1;
    }
    Option::None
}

/// The `index_status` payload reports the store's counts for the effective
/// ref, the first running job, and the most recent history rows, newest
/// first, beside the coarse status and metadata.
pub open spec fn index_status_payload(r: JsonValue, env: ServerEnv, eref: Seq<char>) -> bool {
    &&& payload_error_code(r) is None
    &&& crate::dispatch::payload_metadata_reports(r, eref, env.schema_status)
    &&& spec_get(r, "ref"@) matches Option::Some(v) && v is Str && v->Str_0@ == eref
    &&& spec_get(r, "index_status"@) matches Option::Some(v2) && v2 is Str && v2->Str_0@
        == coarse_status(env.schema_status)
    &&& match env.db {
        Option::Some(db) => {
            &&& spec_get(r, "file_count"@) == Option::Some(
                JsonValue::UInt(
                    db.files@.filter(
                        |f: crate::types::FileRecord|
                            crate::store::file_scope_is(f, env.project_id@, eref),
                    ).len() as u64,
                ),
            )
            &&& spec_get(r, "symbol_count"@) == Option::Some(
                JsonValue::UInt(
                    db.symbols@.filter(
                        |row: crate::store::SymbolRow|
                            crate::store::sym_scope_is(row.rec, env.project_id@, eref),
                    ).len() as u64,
                ),
            )
            &&& spec_get(r, "active_job"@) matches Option::Some(aj) && (
            crate::dispatch::env_has_active_job(env) ==> exists|i: int|
                0 <= i < db.jobs@.len() && (#[trigger] db.jobs@[i]).project_id@ == env.project_id@
                    && crate::store::job_active(db.jobs@[i]) && is_status_active_json(
                    aj,
                    db.jobs@[i],
                ) && (forall|k: int|
                    0 <= k < i ==> !(db.jobs@[k].project_id@ == env.project_id@
                        && crate::store::job_active(#[trigger] db.jobs@[k])))) && (
            !crate::dispatch::env_has_active_job(env) ==> aj is Null)
            &&& spec_get(r, "recent_jobs"@) matches Option::Some(rj) && rj is Arr && {
                let rows = rj->Arr_0@;
                let all = db.jobs@.filter(
                    |j: crate::types::IndexJob| j.project_id@ == env.project_id@,
                );
                &&& rows.len() == (if 5 <= all.len() {
                    5int
                } else {
                    all.len() as int
                })
                &&& (forall|k: int|
                    0 <= k < rows.len() ==> exists|j: crate::types::IndexJob|
                        all.contains(j) && is_job_json(#[trigger] rows[k], j))
                &&& (forall|k: int|
                    0 <= k < rows.len() - 1 ==> crate::strutil::seq_le(
                        (#[trigger] rows[k + 1])->Obj_0@[7].1->Str_0@,
                        rows[k]->Obj_0@[7].1->Str_0@,
                    ))
            }
        },
        Option::None => {
            &&& spec_get(r, "file_count"@) == Option::Some(JsonValue::UInt(0))
            &&& spec_get(r, "symbol_count"@) == Option::Some(JsonValue::UInt(0))
            &&& spec_get(r, "active_job"@) == Option::Some(JsonValue::Null)
            &&& spec_get(r, "recent_jobs"@) matches Option::Some(rj) && rj is Arr
                && rj->Arr_0@.len() == 0
        },
    }
}

/// The report of the running job, as `index_status` carries it.
fn status_active_json(j: &IndexJob) -> (r: JsonValue)
    ensures
        is_status_active_json(r, *j),
{
    let mut f: Vec<(String, JsonValue)> = Vec::new();
    f.push((String::from_str("job_id"), JsonValue::Str(j.job_id.clone())));
    f.push((String::from_str("mode"), JsonValue::Str(j.mode.clone())));
    f.push((String::from_str("status"), JsonValue::Str(j.status.clone())));
    f.push((String::from_str("ref"), JsonValue::Str(j.ref_name.clone())));
    let r = JsonValue::Obj(f);
    proof {
        reveal_strlit("job_id");
        reveal_strlit("mode");
        reveal_strlit("status");
        reveal_strlit("ref");
        assert(f@.len() == 4);
    }
    r
}

/// Build the `index_status` payload: coarse and schema status, counts for the
/// effective ref, the active job, recent history, and metadata.
#[verifier::rlimit(100)]
#[verifier::spinoff_prover]
pub fn handle_index_status(env: &ServerEnv, effective_ref: &str) -> (r: JsonValue)
    requires
        crate::dispatch::env_wf(*env),
    ensures
        payload_error_code(r) is None,
        payload_has_metadata(r),
        spec_get(r, "ref"@) matches Option::Some(v) && v is Str && v->Str_0@ == effective_ref@,
        spec_get(r, "index_status"@) matches Option::Some(v2) && v2 is Str && v2->Str_0@
            == coarse_status(env.schema_status),
        index_status_payload(r, *env, effective_ref@),
{
    let metadata = build_metadata(env, effective_ref);
    let (file_count, symbol_count): (u64, u64) = match &env.db {
        Option::Some(db) => (
            db.file_count(env.project_id.as_str(), effective_ref),
            db.symbol_count(env.project_id.as_str(), effective_ref),
        ),
        Option::None => (0, 0),
    };
    let recent: Vec<IndexJob> = match &env.db {
        Option::Some(db) => db.get_recent_jobs(env.project_id.as_str(), 5),
        Option::None => Vec::new(),
    };
    let active: Option<IndexJob> = match &env.db {
        Option::Some(db) => db.get_active_job(env.project_id.as_str()),
        Option::None => Option::None,
    };
    let last = last_indexed_at(&recent, effective_ref);
    let status: &str = if matches!(env.schema_status, SchemaStatus::Compatible) {
        "ready"
    } else {
        "not_indexed"
    };
    let mut recent_rows: Vec<JsonValue> = Vec::new();
    let mut i: usize = 0;
    while i < recent.len()
        invariant
            0 <= i <= recent@.len(),
            recent_rows@.len() == i,
            forall|k: int| 0 <= k < i ==> is_job_json(#[trigger] recent_rows@[k], recent@[k]),
        decreases recent@.len() - i,
    {
        recent_rows.push(job_json(&recent[i]));
        i = i + 1;
    }
    let active_json: JsonValue = match &active {
        Option::Some(j) => status_active_json(j),
        Option::None => JsonValue::Null,
    };
    let mut fields: Vec<(String, JsonValue)> = Vec::new();
    fields.push((String::from_str("project_id"), JsonValue::Str(env.project_id.clone())));
    fields.push((String::from_str("repo_root"), JsonValue::Str(env.workspace.clone())));
    fields.push((String::from_str("index_status"), jstr(status)));
    fields.push((
        String::from_str("schema_status"),
        JsonValue::Str(env.schema_status.as_str().to_owned()),
    ));
    fields.push((String::from_str("current_schema_version"), JsonValue::Int(SCHEMA_VERSION)));
    fields.push((String::from_str("required_schema_version"), JsonValue::Int(SCHEMA_VERSION)));
    fields.push((
        String::from_str("last_indexed_at"),
        match last {
            Option::Some(t) => JsonValue::Str(t),
            Option::None => JsonValue::Null,
        },
    ));
    fields.push((String::from_str("ref"), jstr(effective_ref)));
    fields.push((String::from_str("file_count"), JsonValue::UInt(file_count)));
    fields.push((String::from_str("symbol_count"), JsonValue::UInt(symbol_count)));
    fields.push((
        String::from_str("compatibility_reason"),
        match &env.compatibility_reason {
            Option::Some(reason) => JsonValue::Str(reason.clone()),
            Option::None => JsonValue::Null,
        },
    ));
    fields.push((String::from_str("active_job"), active_json));
    fields.push((String::from_str("recent_jobs"), JsonValue::Arr(recent_rows)));
    fields.push((String::from_str("metadata"), metadata.to_json()));
    let r = JsonValue::Obj(fields);
    proof {
        reveal_strlit("project_id");
        reveal_strlit("repo_root");
        reveal_strlit("index_status");
        reveal_strlit("schema_status");
        reveal_strlit("current_schema_version");
        reveal_strlit("required_schema_version");
        reveal_strlit("last_indexed_at");
        reveal_strlit("ref");
        reveal_strlit("file_count");
        reveal_strlit("symbol_count");
        reveal_strlit("compatibility_reason");
        reveal_strlit("active_job");
        reveal_strlit("recent_jobs");
        reveal_strlit("metadata");
        reveal_strlit("error");
        reveal_strlit("ready");
        reveal_strlit("not_indexed");
        assert(fields@.len() == 14);
        assert forall|i2: int| 0 <= i2 < fields@.len() implies (#[trigger] fields@[i2]).0@ != "error"@ by {
                    reveal_strlit("ref");
                    reveal_strlit("repo_root");
                    reveal_strlit("symbol_count");
                    reveal_strlit("compatibility_reason");
                    reveal_strlit("recent_jobs");
                    reveal_strlit("project_id");
                    reveal_strlit("required_schema_version");
                    reveal_strlit("current_schema_version");
                    reveal_strlit("file_count");
                    reveal_strlit("error");
                    reveal_strlit("last_indexed_at");
                    reveal_strlit("index_status");
                    reveal_strlit("active_job");
                    reveal_strlit("schema_status");
                    reveal_strlit("metadata");
                    if i2 == 0 {
                        assert(fields@[0].0@ == "project_id"@);
                    } else if i2 == 1 {
                        assert(fields@[1].0@ == "repo_root"@);
                    } else if i2 == 2 {
                        assert(fields@[2].0@ == "index_status"@);
                    } else if i2 == 3 {
                        assert(fields@[3].0@ == "schema_status"@);
                    } else if i2 == 4 {
                        assert(fields@[4].0@ == "current_schema_version"@);
                    } else if i2 == 5 {
                        assert(fields@[5].0@ == "required_schema_version"@);
                    } else if i2 == 6 {
                        assert(fields@[6].0@ == "last_indexed_at"@);
                    } else if i2 == 7 {
                        assert(fields@[7].0@ == "ref"@);
                    } else if i2 == 8 {
                        assert(fields@[8].0@ == "file_count"@);
                    } else if i2 == 9 {
                        assert(fields@[9].0@ == "symbol_count"@);
                    } else if i2 == 10 {
                        assert(fields@[10].0@ == "compatibility_reason"@);
                    } else if i2 == 11 {
                        assert(fields@[11].0@ == "active_job"@);
                    } else if i2 == 12 {
                        assert(fields@[12].0@ == "recent_jobs"@);
                    } else if i2 == 13 {
                        assert(fields@[13].0@ == "metadata"@);
                    }
                }
        assert forall|i2: int| 0 <= i2 < 13 implies (#[trigger] fields@[i2]).0@ != "metadata"@ by {
                    reveal_strlit("ref");
                    reveal_strlit("repo_root");
                    reveal_strlit("symbol_count");
                    reveal_strlit("compatibility_reason");
                    reveal_strlit("recent_jobs");
                    reveal_strlit("project_id");
                    reveal_strlit("required_schema_version");
                    reveal_strlit("current_schema_version");
                    reveal_strlit("file_count");
                    reveal_strlit("last_indexed_at");
                    reveal_strlit("index_status");
                    reveal_strlit("active_job");
                    reveal_strlit("schema_status");
                    reveal_strlit("metadata");
                    if i2 == 0 {
                        assert(fields@[0].0@ == "project_id"@);
                    } else if i2 == 1 {
                        assert(fields@[1].0@ == "repo_root"@);
                    } else if i2 == 2 {
                        assert(fields@[2].0@ == "index_status"@);
                    } else if i2 == 3 {
                        assert(fields@[3].0@ == "schema_status"@);
                    } else if i2 == 4 {
                        assert(fields@[4].0@ == "current_schema_version"@);
                    } else if i2 == 5 {
                        assert(fields@[5].0@ == "required_schema_version"@);
                    } else if i2 == 6 {
                        assert(fields@[6].0@ == "last_indexed_at"@);
                    } else if i2 == 7 {
                        assert(fields@[7].0@ == "ref"@);
                    } else if i2 == 8 {
                        assert(fields@[8].0@ == "file_count"@);
                    } else if i2 == 9 {
                        assert(fields@[9].0@ == "symbol_count"@);
                    } else if i2 == 10 {
                        assert(fields@[10].0@ == "compatibility_reason"@);
                    } else if i2 == 11 {
                        assert(fields@[11].0@ == "active_job"@);
                    } else if i2 == 12 {
                        assert(fields@[12].0@ == "recent_jobs"@);
                    }
                }
        assert forall|i2: int| 0 <= i2 < 7 implies (#[trigger] fields@[i2]).0@ != "ref"@ by {
                    reveal_strlit("ref");
                    reveal_strlit("repo_root");
                    reveal_strlit("project_id");
                    reveal_strlit("required_schema_version");
                    reveal_strlit("current_schema_version");
                    reveal_strlit("last_indexed_at");
                    reveal_strlit("index_status");
                    reveal_strlit("schema_status");
                    if i2 == 0 {
                        assert(fields@[0].0@ == "project_id"@);
                    } else if i2 == 1 {
                        assert(fields@[1].0@ == "repo_root"@);
                    } else if i2 == 2 {
                        assert(fields@[2].0@ == "index_status"@);
                    } else if i2 == 3 {
                        assert(fields@[3].0@ == "schema_status"@);
                    } else if i2 == 4 {
                        assert(fields@[4].0@ == "current_schema_version"@);
                    } else if i2 == 5 {
                        assert(fields@[5].0@ == "required_schema_version"@);
                    } else if i2 == 6 {
                        assert(fields@[6].0@ == "last_indexed_at"@);
                    }
                }
        assert forall|i2: int| 0 <= i2 < 2 implies (#[trigger] fields@[i2]).0@ != "index_status"@ by {
                    reveal_strlit("repo_root");
                    reveal_strlit("index_status");
                    reveal_strlit("project_id");
                    if i2 == 0 {
                        assert(fields@[0].0@ == "project_id"@);
                    } else if i2 == 1 {
                        assert(fields@[1].0@ == "repo_root"@);
                    }
                }
        assert(fields@[13].0@ == "metadata"@);
        assert(fields@[7].0@ == "ref"@);
        assert(fields@[2].0@ == "index_status"@);
        crate::json::lemma_lookup_absent(fields@, "error"@);
        crate::json::lemma_lookup_at(fields@, "metadata"@, 13);
        crate::json::lemma_lookup_at(fields@, "ref"@, 7);
        crate::json::lemma_lookup_at(fields@, "index_status"@, 2);
        assert(spec_get(r, "error"@) is None);
        assert(spec_get(r, "metadata"@) == Option::Some(fields@[13].1));
        assert(spec_get(r, "ref"@) == Option::Some(fields@[7].1));
        assert(spec_get(r, "index_status"@) == Option::Some(fields@[2].1));
        assert("project_id"@.len() == 10 && "repo_root"@.len() == 9 && "index_status"@.len() == 12
            && "schema_status"@.len() == 13 && "current_schema_version"@.len() == 22
            && "required_schema_version"@.len() == 23 && "last_indexed_at"@.len() == 15
            && "ref"@.len() == 3 && "file_count"@.len() == 10 && "symbol_count"@.len() == 12
            && "compatibility_reason"@.len() == 20 && "active_job"@.len() == 10
            && "recent_jobs"@.len() == 11);
        assert("project_id"@[0] == 'p' && "file_count"@[0] == 'f' && "active_job"@[0] == 'a'
            && "index_status"@[0] == 'i' && "symbol_count"@[0] == 's');
        assert forall|i2: int| 0 <= i2 < 8 implies (#[trigger] fields@[i2]).0@
            != "file_count"@ by {
            if i2 == 0 {
            } else if i2 == 1 {
            } else if i2 == 2 {
            } else if i2 == 3 {
            } else if i2 == 4 {
            } else if i2 == 5 {
            } else if i2 == 6 {
            } else if i2 == 7 {
            }
        }
        crate::json::lemma_lookup_at(fields@, "file_count"@, 8);
        assert forall|i2: int| 0 <= i2 < 9 implies (#[trigger] fields@[i2]).0@
            != "symbol_count"@ by {
            if i2 == 0 {
            } else if i2 == 1 {
            } else if i2 == 2 {
            } else if i2 == 3 {
            } else if i2 == 4 {
            } else if i2 == 5 {
            } else if i2 == 6 {
            } else if i2 == 7 {
            } else if i2 == 8 {
            }
        }
        crate::json::lemma_lookup_at(fields@, "symbol_count"@, 9);
        assert forall|i2: int| 0 <= i2 < 11 implies (#[trigger] fields@[i2]).0@
            != "active_job"@ by {
            if i2 == 0 {
            } else if i2 == 1 {
            } else if i2 == 2 {
            } else if i2 == 3 {
            } else if i2 == 4 {
            } else if i2 == 5 {
            } else if i2 == 6 {
            } else if i2 == 7 {
            } else if i2 == 8 {
            } else if i2 == 9 {
            } else if i2 == 10 {
            }
        }
        crate::json::lemma_lookup_at(fields@, "active_job"@, 11);
        assert forall|i2: int| 0 <= i2 < 12 implies (#[trigger] fields@[i2]).0@
            != "recent_jobs"@ by {
            if i2 == 0 {
            } else if i2 == 1 {
            } else if i2 == 2 {
            } else if i2 == 3 {
            } else if i2 == 4 {
            } else if i2 == 5 {
            } else if i2 == 6 {
            } else if i2 == 7 {
            } else if i2 == 8 {
            } else if i2 == 9 {
            } else if i2 == 10 {
            } else if i2 == 11 {
            }
        }
        crate::json::lemma_lookup_at(fields@, "recent_jobs"@, 12);
        assert(spec_get(r, "file_count"@) == Option::Some(fields@[8].1));
        assert(spec_get(r, "symbol_count"@) == Option::Some(fields@[9].1));
        assert(spec_get(r, "active_job"@) == Option::Some(fields@[11].1));
        assert(spec_get(r, "recent_jobs"@) == Option::Some(fields@[12].1));
        if env.db is Some {
            let db = env.db->0;
            {
                if crate::dispatch::env_has_active_job(*env) {
                    assert(active is Some);
                    let aj = active->0;
                    let i0 = choose|i0: int|
                        0 <= i0 < db.jobs@.len() && #[trigger] db.jobs@[i0] == aj && aj.project_id@
                            == env.project_id@ && crate::store::job_active(aj) && (forall|k: int|
                            0 <= k < i0 ==> !(#[trigger] db.jobs@[k].project_id@
                                == env.project_id@ && crate::store::job_active(db.jobs@[k])));
                    assert(is_status_active_json(active_json, db.jobs@[i0]));
                    assert(0 <= i0 < db.jobs@.len() && db.jobs@[i0].project_id@ == env.project_id@
                        && crate::store::job_active(db.jobs@[i0]) && is_status_active_json(
                        active_json,
                        db.jobs@[i0],
                    ) && (forall|k: int|
                        0 <= k < i0 ==> !(db.jobs@[k].project_id@ == env.project_id@
                            && crate::store::job_active(#[trigger] db.jobs@[k]))));
                }
                let rows = fields@[12].1->Arr_0@;
                let all = db.jobs@.filter(
                    |j: crate::types::IndexJob| j.project_id@ == env.project_id@,
                );
                assert forall|k: int| 0 <= k < rows.len() implies exists|
                    j: crate::types::IndexJob,
                |
                    all.contains(j) && is_job_json(#[trigger] rows[k], j) by {
                    assert(is_job_json(recent_rows@[k], recent@[k]));
                    assert(all.contains(recent@[k]));
                }
                assert forall|k: int| 0 <= k < rows.len() - 1 implies crate::strutil::seq_le(
                    (#[trigger] rows[k + 1])->Obj_0@[7].1->Str_0@,
                    rows[k]->Obj_0@[7].1->Str_0@,
                ) by {
                    assert(is_job_json(recent_rows@[k], recent@[k]));
                    assert(is_job_json(recent_rows@[k + 1], recent@[k + 1]));
                    assert(crate::strutil::seq_le(recent@[k + 1].updated_at@, recent@[k].updated_at@));
                }
            }
        }
    }
    r
}


/// `v` is one outline row: the symbol's id, name, kind and line range.
pub open spec fn is_outline_row_json(v: JsonValue, s: SymbolRecord) -> bool {
    &&& v is Obj
    &&& v->Obj_0@.len() == 5
    &&& v->Obj_0@[0].0@ == "symbol_id"@ && v->Obj_0@[0].1 == JsonValue::Str(s.symbol_id)
    &&& v->Obj_0@[1].0@ == "name"@ && v->Obj_0@[1].1 == JsonValue::Str(s.name)
    &&& v->Obj_0@[2].0@ == "kind"@ && v->Obj_0@[2].1 is Str && v->Obj_0@[2].1->Str_0@
        == crate::types::kind_str(s.kind)
    &&& v->Obj_0@[3].0@ == "line_start"@ && v->Obj_0@[3].1 == JsonValue::UInt(s.line_start as u64)
    &&& v->Obj_0@[4].0@ == "line_end"@ && v->Obj_0@[4].1 == JsonValue::UInt(s.line_end as u64)
}

/// The stored symbols of the given file at the given ref, in table order.
pub open spec fn outline_symbols_of(
    db: crate::store::StateDb,
    pid: Seq<char>,
    eref: Seq<char>,
    path: Seq<char>,
) -> Seq<SymbolRecord> {
    db.symbols@.filter(
        |row: crate::store::SymbolRow|
            crate::store::sym_file_is(row.rec, pid, eref, path) && row.rec.line_start <= u32::MAX
                && row.rec.line_end >= 1,
    ).map_values(|row: crate::store::SymbolRow| row.rec)
}

/// Build the `get_file_outline` payload: every stored symbol of the file, in
/// table order, with the usual metadata; a blank `path` is invalid input.
#[verifier::rlimit(100)]
#[verifier::spinoff_prover]
pub fn handle_get_file_outline(env: &ServerEnv, effective_ref: &str, arguments: &JsonValue) -> (r:
    JsonValue)
    requires
        crate::dispatch::env_wf(*env),
    ensures
        payload_has_metadata(r),
        crate::dispatch::payload_metadata_reports(r, effective_ref@, env.schema_status),
        arg_blank(*arguments, "path"@) ==> payload_error_code(r) == Option::Some(
            "invalid_input"@,
        ),
        !arg_blank(*arguments, "path"@) ==> payload_error_code(r) is None && (spec_get(
            r,
            "symbols"@,
        ) matches Option::Some(a) && a is Arr && {
            let rows = a->Arr_0@;
            match env.db {
                Option::Some(db) => {
                    let found = outline_symbols_of(
                        db,
                        env.project_id@,
                        effective_ref@,
                        crate::dispatch::arg_str(*arguments, "path"@)->0,
                    );
                    &&& rows.len() == found.len()
                    &&& (forall|k: int|
                        0 <= k < rows.len() ==> is_outline_row_json(#[trigger] rows[k], found[k]))
                },
                Option::None => rows.len() == 0,
            }
        }),
{
    let metadata = build_metadata(env, effective_ref);
    let path = match arguments.get("path") {
        Option::Some(v) => match v.as_str() {
            Option::Some(p) => {
                let t = crate::strutil::trim_spaces(p.as_str());
                if t.as_str().unicode_len() > 0 {
                    Option::Some(p.clone())
                } else {
                    Option::None
                }
            },
            Option::None => Option::None,
        },
        Option::None => Option::None,
    };
    let path = match path {
        Option::Some(p) => p,
        Option::None => {
            return tool_error_payload(
                "invalid_input",
                "Parameter `path` is required.",
                Option::None,
                &metadata,
            );
        },
    };
    let rows: Vec<SymbolRecord> = match &env.db {
        Option::Some(db) => db.find_symbols_by_location(
            env.project_id.as_str(),
            effective_ref,
            path.as_str(),
            1,
            u32::MAX,
        ),
        Option::None => Vec::new(),
    };
    let total = rows.len();
    let mut out_rows: Vec<JsonValue> = Vec::new();
    let mut i: usize = 0;
    while i < rows.len()
        invariant
            0 <= i <= rows@.len(),
            out_rows@.len() == i,
            forall|k: int| 0 <= k < i ==> is_outline_row_json(#[trigger] out_rows@[k], rows@[k]),
        decreases rows@.len() - i,
    {
        let s = &rows[i];
        let mut f: Vec<(String, JsonValue)> = Vec::new();
        f.push((String::from_str("symbol_id"), JsonValue::Str(s.symbol_id.clone())));
        f.push((String::from_str("name"), JsonValue::Str(s.name.clone())));
        f.push((
            String::from_str("kind"),
            JsonValue::Str(s.kind.as_str().to_owned()),
        ));
        f.push((String::from_str("line_start"), JsonValue::UInt(s.line_start as u64)));
        f.push((String::from_str("line_end"), JsonValue::UInt(s.line_end as u64)));
        let row = JsonValue::Obj(f);
        proof {
            reveal_strlit("symbol_id");
            reveal_strlit("name");
            reveal_strlit("kind");
            reveal_strlit("line_start");
            reveal_strlit("line_end");
            assert(is_outline_row_json(row, rows@[i as int]));
        }
        out_rows.push(row);
        i = i + 1;
    }
    let mut fields: Vec<(String, JsonValue)> = Vec::new();
    let ghost pathv = path@;
    fields.push((String::from_str("path"), JsonValue::Str(path)));
    fields.push((String::from_str("symbols"), JsonValue::Arr(out_rows)));
    fields.push((String::from_str("total"), JsonValue::UInt(total as u64)));
    fields.push((String::from_str("metadata"), metadata.to_json()));
    let r = JsonValue::Obj(fields);
    proof {
        reveal_strlit("path");
        reveal_strlit("symbols");
        reveal_strlit("total");
        reveal_strlit("metadata");
        reveal_strlit("error");
        assert(fields@.len() == 4);
        assert(fields@[0].0@ == "path"@);
        assert(fields@[1].0@ == "symbols"@);
        assert(fields@[2].0@ == "total"@);
        assert(fields@[3].0@ == "metadata"@);
        assert("path"@.len() == 4 && "symbols"@.len() == 7 && "total"@.len() == 5
            && "metadata"@.len() == 8 && "error"@.len() == 5);
        assert forall|i2: int| 0 <= i2 < fields@.len() implies (#[trigger] fields@[i2]).0@
            != "error"@ by {
            reveal_strlit("path");
            reveal_strlit("symbols");
            reveal_strlit("total");
            reveal_strlit("metadata");
            reveal_strlit("error");
            assert("path"@.len() == 4 && "symbols"@.len() == 7 && "total"@.len() == 5
                && "metadata"@.len() == 8 && "error"@.len() == 5);
            assert("total"@[0] == 't' && "error"@[0] == 'e');
            if i2 == 0 {
                assert(fields@[0].0@ == "path"@);
            } else if i2 == 1 {
                assert(fields@[1].0@ == "symbols"@);
            } else if i2 == 2 {
                assert(fields@[2].0@ == "total"@);
            } else if i2 == 3 {
                assert(fields@[3].0@ == "metadata"@);
            }
        }
        crate::json::lemma_lookup_absent(fields@, "error"@);
        assert forall|i2: int| 0 <= i2 < 3 implies (#[trigger] fields@[i2]).0@ != "metadata"@ by {
            reveal_strlit("path");
            reveal_strlit("symbols");
            reveal_strlit("total");
            reveal_strlit("metadata");
            assert("path"@.len() == 4 && "symbols"@.len() == 7 && "total"@.len() == 5
                && "metadata"@.len() == 8);
            if i2 == 0 {
                assert(fields@[0].0@ == "path"@);
            } else if i2 == 1 {
                assert(fields@[1].0@ == "symbols"@);
            } else if i2 == 2 {
                assert(fields@[2].0@ == "total"@);
            }
        }
        crate::json::lemma_lookup_at(fields@, "metadata"@, 3);
        assert(spec_get(r, "error"@) is None);
        assert(spec_get(r, "metadata"@) == Option::Some(fields@[3].1));
        assert(fields@[0].0@ != "symbols"@);
        crate::json::lemma_lookup_at(fields@, "symbols"@, 1);
        assert(spec_get(r, "symbols"@) == Option::Some(fields@[1].1));
        assert(crate::dispatch::arg_str(*arguments, "path"@) == Option::Some(pathv));
    }
    r
}

} // verus!
