use vstd::prelude::*;
use crate::dispatch::{build_metadata, env_has_active_job, env_wf, ServerEnv};
use crate::json::{jstr, spec_get, JsonValue};
use crate::protocol::payload_error_code;
use crate::strutil::str_eq;
use crate::types::{IndexJob, PrewarmState, Project, SchemaStatus, SCHEMA_VERSION};

verus! {

// ---------------------------------------------------------------------------
// Health aggregation.
// ---------------------------------------------------------------------------

/// How many projects the prewarm pass may hold open at startup.
pub const WARMSET_CAPACITY: u64 = 8;

/// The process is in an error state: the relational store could not be
/// opened, the index cannot serve queries, or the prewarm pass failed.
pub open spec fn health_error(env: ServerEnv) -> bool {
    env.db is None || !(env.schema_status is Compatible) || env.prewarm is Failed
}

/// Some job of any project is in a non-terminal status.
pub open spec fn any_active_job(env: ServerEnv) -> bool {
    match env.db {
        Option::Some(db) => exists|i: int|
            0 <= i < db.jobs@.len() && crate::store::job_active(#[trigger] db.jobs@[i]),
        Option::None => false,
    }
}

/// The overall status, by fixed precedence: error, then indexing (a running
/// job of any project), then warming, then ready.
pub open spec fn overall_status_str(env: ServerEnv) -> Seq<char> {
    if health_error(env) {
        "error"@
    } else if any_active_job(env) {
        "indexing"@
    } else if env.prewarm is InProgress {
        "warming"@
    } else {
        "ready"@
    }
}

/// Some job of the given project is in a non-terminal status.
pub open spec fn project_has_active(db: crate::store::StateDb, pid: Seq<char>) -> bool {
    exists|i: int|
        0 <= i < db.jobs@.len() && (#[trigger] db.jobs@[i]).project_id@ == pid
            && crate::store::job_active(db.jobs@[i])
}

/// The per-project status label a health row carries: the current project
/// shows `error` on an unusable index or a failed prewarm and `warming` while
/// the prewarm runs; a running job shows `indexing`; all else is `ready`.
pub open spec fn project_status_str(env: ServerEnv, p: Project, active: bool) -> Seq<char> {
    if p.project_id@ == env.project_id@ && (!(env.schema_status is Compatible) || env.prewarm
        is Failed) {
        "error"@
    } else if p.project_id@ == env.project_id@ && env.prewarm is InProgress {
        "warming"@
    } else if active {
        "indexing"@
    } else {
        "ready"@
    }
}

/// The status of the synthesised row health reports when the store holds no
/// project rows.
pub open spec fn fallback_status_str(env: ServerEnv) -> Seq<char> {
    if !(env.schema_status is Compatible) || env.prewarm is Failed {
        "error"@
    } else if env.prewarm is InProgress {
        "warming"@
    } else {
        "ready"@
    }
}

/// `v` is the health report of active job `j`: its id, project, mode, status,
/// ref, progress count and start time, in that order.
pub open spec fn is_active_job_json(v: JsonValue, j: IndexJob) -> bool {
    &&& v is Obj
    &&& v->Obj_0@.len() == 7
    &&& v->Obj_0@[0].0@ == "job_id"@ && v->Obj_0@[0].1 == JsonValue::Str(j.job_id)
    &&& v->Obj_0@[1].0@ == "project_id"@ && v->Obj_0@[1].1 == JsonValue::Str(j.project_id)
    &&& v->Obj_0@[2].0@ == "mode"@ && v->Obj_0@[2].1 == JsonValue::Str(j.mode)
    &&& v->Obj_0@[3].0@ == "status"@ && v->Obj_0@[3].1 == JsonValue::Str(j.status)
    &&& v->Obj_0@[4].0@ == "ref"@ && v->Obj_0@[4].1 == JsonValue::Str(j.ref_name)
    &&& v->Obj_0@[5].0@ == "changed_files"@ && v->Obj_0@[5].1 == JsonValue::Int(j.changed_files)
    &&& v->Obj_0@[6].0@ == "started_at"@ && v->Obj_0@[6].1 == JsonValue::Str(j.created_at)
}

/// `v` is the health row of project `p` carrying status label `status`: the
/// row identifies the project and its root and reports the given status
/// under the ref the project is served at.
pub open spec fn is_project_row_json(v: JsonValue, p: Project, status: Seq<char>) -> bool {
    &&& v is Obj
    &&& v->Obj_0@.len() == 10
    &&& v->Obj_0@[0].0@ == "project_id"@ && v->Obj_0@[0].1 == JsonValue::Str(p.project_id)
    &&& v->Obj_0@[1].0@ == "repo_root"@ && v->Obj_0@[1].1 == JsonValue::Str(p.repo_root)
    &&& v->Obj_0@[2].0@ == "index_status"@ && v->Obj_0@[2].1 is Str && v->Obj_0@[2].1->Str_0@
        == status
    &&& v->Obj_0@[3].0@ == "ref"@ && v->Obj_0@[3].1 is Str && v->Obj_0@[3].1->Str_0@ == (
    if crate::strutil::trimmed(p.default_ref@).len() > 0 {
        p.default_ref@
    } else {
        "live"@
    })
    &&& v->Obj_0@[4].0@ == "file_count"@ && v->Obj_0@[4].1 is UInt
    &&& v->Obj_0@[5].0@ == "symbol_count"@ && v->Obj_0@[5].1 is UInt
}

/// `v` is the synthesised health row for the current workspace, shown when
/// the store has no project rows (or could not be opened).
pub open spec fn is_fallback_row_json(
    v: JsonValue,
    env: ServerEnv,
    eref: Seq<char>,
    status: Seq<char>,
) -> bool {
    &&& v is Obj
    &&& v->Obj_0@.len() == 7
    &&& v->Obj_0@[0].0@ == "project_id"@ && v->Obj_0@[0].1 == JsonValue::Str(env.project_id)
    &&& v->Obj_0@[1].0@ == "repo_root"@ && v->Obj_0@[1].1 == JsonValue::Str(env.workspace)
    &&& v->Obj_0@[2].0@ == "index_status"@ && v->Obj_0@[2].1 is Str && v->Obj_0@[2].1->Str_0@
        == status
    &&& v->Obj_0@[3].0@ == "ref"@ && v->Obj_0@[3].1 is Str && v->Obj_0@[3].1->Str_0@ == eref
    &&& v->Obj_0@[4].0@ == "file_count"@ && v->Obj_0@[4].1 is UInt
    &&& v->Obj_0@[5].0@ == "symbol_count"@ && v->Obj_0@[5].1 is UInt
    &&& v->Obj_0@[6].0@ == "last_indexed_at"@
}

fn project_row_json(
    env: &ServerEnv,
    p: &Project,
    active: bool,
    file_count: u64,
    symbol_count: u64,
    last_indexed_at: Option<String>,
) -> (r: JsonValue)
    ensures
        is_project_row_json(r, *p, project_status_str(*env, *p, active)),
{
    let project_ref: String = {
        let t = crate::strutil::trim_spaces(p.default_ref.as_str());
        if t.as_str().unicode_len() > 0 {
            p.default_ref.clone()
        } else {
            String::from_str("live")
        }
    };
    let status: &str = if str_eq(p.project_id.as_str(), env.project_id.as_str()) && (!matches!(
        env.schema_status,
        SchemaStatus::Compatible,
    ) || matches!(env.prewarm, PrewarmState::Failed)) {
        "error"
    } else if str_eq(p.project_id.as_str(), env.project_id.as_str()) && matches!(
        env.prewarm,
        PrewarmState::InProgress,
    ) {
        "warming"
    } else if active {
        "indexing"
    } else {
        "ready"
    };
    let mut f: Vec<(String, JsonValue)> = Vec::new();
    f.push((String::from_str("project_id"), JsonValue::Str(p.project_id.clone())));
    f.push((String::from_str("repo_root"), JsonValue::Str(p.repo_root.clone())));
    f.push((String::from_str("index_status"), jstr(status)));
    f.push((String::from_str("ref"), JsonValue::Str(project_ref)));
    f.push((String::from_str("file_count"), JsonValue::UInt(file_count)));
    f.push((String::from_str("symbol_count"), JsonValue::UInt(symbol_count)));
    f.push((
        String::from_str("schema_status"),
        JsonValue::Str(env.schema_status.as_str().to_owned()),
    ));
    f.push((String::from_str("current_schema_version"), JsonValue::Int(SCHEMA_VERSION)));
    f.push((String::from_str("required_schema_version"), JsonValue::Int(SCHEMA_VERSION)));
    f.push((
        String::from_str("last_indexed_at"),
        match last_indexed_at {
            Option::Some(t) => JsonValue::Str(t),
            Option::None => JsonValue::Null,
        },
    ));
    let r = JsonValue::Obj(f);
    proof {
        reveal_strlit("project_id");
        reveal_strlit("repo_root");
        reveal_strlit("index_status");
        reveal_strlit("ref");
        reveal_strlit("file_count");
        reveal_strlit("symbol_count");
        reveal_strlit("indexing");
        reveal_strlit("error");
        reveal_strlit("warming");
        reveal_strlit("ready");
        reveal_strlit("live");
        assert(f@.len() == 10);
        assert(f@[0].0@ == "project_id"@);
        assert(f@[1].0@ == "repo_root"@);
        assert(f@[2].0@ == "index_status"@);
        assert(f@[3].0@ == "ref"@);
        assert(f@[4].0@ == "file_count"@);
        assert(f@[5].0@ == "symbol_count"@);
        assert(f@[2].1->Str_0@ == project_status_str(*env, *p, active));
        assert(f@[3].1->Str_0@ == (if crate::strutil::trimmed(p.default_ref@).len() > 0 {
            p.default_ref@
        } else {
            "live"@
        }));
    }
    r
}

/// Whether any project's job is still in a non-terminal status.
fn has_any_active(db: &crate::store::StateDb) -> (r: bool)
    ensures
        r == exists|i: int|
            0 <= i < db.jobs@.len() && crate::store::job_active(#[trigger] db.jobs@[i]),
{
    let n = db.jobs.len();
    let mut i: usize = 0;
    while i < n
        invariant
            n == db.jobs@.len(),
            0 <= i <= n,
            forall|k: int| 0 <= k < i ==> !crate::store::job_active(#[trigger] db.jobs@[k]),
        decreases n - i,
    {
        let j = &db.jobs[i];
        if str_eq(j.status.as_str(), "queued") || str_eq(j.status.as_str(), "running") {
            assert(crate::store::job_active(db.jobs@[i as int]));
            return true;
        }
        i = i + 1;
    }
    false
}

/// The health report of the running job.
fn active_job_json(j: &IndexJob) -> (r: JsonValue)
    ensures
        is_active_job_json(r, *j),
{
    let mut f: Vec<(String, JsonValue)> = Vec::new();
    f.push((String::from_str("job_id"), JsonValue::Str(j.job_id.clone())));
    f.push((String::from_str("project_id"), JsonValue::Str(j.project_id.clone())));
    f.push((String::from_str("mode"), JsonValue::Str(j.mode.clone())));
    f.push((String::from_str("status"), JsonValue::Str(j.status.clone())));
    f.push((String::from_str("ref"), JsonValue::Str(j.ref_name.clone())));
    f.push((String::from_str("changed_files"), JsonValue::Int(j.changed_files)));
    f.push((String::from_str("started_at"), JsonValue::Str(j.created_at.clone())));
    let v = JsonValue::Obj(f);
    proof {
        reveal_strlit("job_id");
        reveal_strlit("project_id");
        reveal_strlit("mode");
        reveal_strlit("status");
        reveal_strlit("ref");
        reveal_strlit("changed_files");
        reveal_strlit("started_at");
        assert(f@.len() == 7);
    }
    v
}

/// The synthesised project row shown when the store holds no project rows for
/// this workspace, or could not be opened at all.
fn fallback_row_json(env: &ServerEnv, eref: &str, status: &str, fc: u64, sc: u64) -> (r: JsonValue)
    ensures
        is_fallback_row_json(r, *env, eref@, status@),
{
    let mut f: Vec<(String, JsonValue)> = Vec::new();
    f.push((String::from_str("project_id"), JsonValue::Str(env.project_id.clone())));
    f.push((String::from_str("repo_root"), JsonValue::Str(env.workspace.clone())));
    f.push((String::from_str("index_status"), jstr(status)));
    f.push((String::from_str("ref"), jstr(eref)));
    f.push((String::from_str("file_count"), JsonValue::UInt(fc)));
    f.push((String::from_str("symbol_count"), JsonValue::UInt(sc)));
    f.push((String::from_str("last_indexed_at"), JsonValue::Null));
    let v = JsonValue::Obj(f);
    proof {
        reveal_strlit("project_id");
        reveal_strlit("repo_root");
        reveal_strlit("index_status");
        reveal_strlit("ref");
        reveal_strlit("file_count");
        reveal_strlit("symbol_count");
        reveal_strlit("last_indexed_at");
        assert(f@.len() == 7);
    }
    v
}

fn find_last_published(recent: &Vec<IndexJob>, project_ref: &str) -> (r: Option<String>)
{
    let mut i: usize = 0;
    while i < recent.len()
        invariant
            0 <= i <= recent@.len(),
        decreases recent@.len() - i,
    {
        let j = &recent[i];
        if str_eq(j.status.as_str(), "published") && str_eq(j.ref_name.as_str(), project_ref) {
            return Option::Some(j.updated_at.clone());
        }
        i = i + 1;
    }
    Option::None
}

/// Build the aggregated health payload: overall status by precedence, store
/// probes, prewarm label, the active job, the interrupted-job report,
/// startup checks, and one row per registered project.
#[verifier::rlimit(100)]
#[verifier::spinoff_prover]
pub fn handle_health_check(env: &ServerEnv, effective_ref: &str) -> (r: JsonValue)
    requires
        env_wf(*env),
    ensures
        payload_error_code(r) is None,
        spec_get(r, "metadata"@) matches Option::Some(m) && (spec_get(m, "ref"@) matches
            Option::Some(rv) && rv is Str && rv->Str_0@ == effective_ref@) && (spec_get(
            m,
            "index_status"@,
        ) matches Option::Some(ist) && ist is Str && ist->Str_0@
            == crate::types::schema_status_str(env.schema_status)),
        spec_get(r, "status"@) matches Option::Some(v) && v is Str && v->Str_0@
            == overall_status_str(*env),
        spec_get(r, "version"@) == Option::Some(JsonValue::Str(env.version)),
        spec_get(r, "uptime_seconds"@) == Option::Some(JsonValue::UInt(env.uptime_seconds)),
        spec_get(r, "tantivy_ok"@) == Option::Some(JsonValue::Bool(env.tantivy_ok)),
        spec_get(r, "sqlite_ok"@) == Option::Some(JsonValue::Bool(env.sqlite_ok)),
        spec_get(r, "prewarm_status"@) matches Option::Some(pw) && pw is Str && pw->Str_0@
            == crate::types::prewarm_label(env.prewarm),
        spec_get(r, "active_job"@) matches Option::Some(aj) && (aj is Obj <==> env_has_active_job(
            *env,
        )),
        env_has_active_job(*env) ==> (spec_get(r, "active_job"@) matches Option::Some(aj)
            && env.db matches Option::Some(db) && exists|i: int|
            0 <= i < db.jobs@.len() && (#[trigger] db.jobs@[i]).project_id@ == env.project_id@
                && crate::store::job_active(db.jobs@[i]) && is_active_job_json(aj, db.jobs@[i]) && (
            forall|k: int|
                0 <= k < i ==> !(db.jobs@[k].project_id@ == env.project_id@
                    && crate::store::job_active(#[trigger] db.jobs@[k])))),
        spec_get(r, "projects"@) matches Option::Some(pr) && pr is Arr && {
            let rows = pr->Arr_0@;
            match env.db {
                Option::Some(db) => {
                    if db.projects@.len() > 0 {
                        rows.len() == db.projects@.len() && (forall|k: int|
                            0 <= k < rows.len() ==> is_project_row_json(
                                #[trigger] rows[k],
                                db.projects@[k],
                                project_status_str(
                                    *env,
                                    db.projects@[k],
                                    project_has_active(db, db.projects@[k].project_id@),
                                ),
                            ))
                    } else {
                        rows.len() == 1 && is_fallback_row_json(
                            rows[0],
                            *env,
                            effective_ref@,
                            fallback_status_str(*env),
                        )
                    }
                },
                Option::None => rows.len() == 1 && is_fallback_row_json(
                    rows[0],
                    *env,
                    effective_ref@,
                    "error"@,
                ),
            }
        },
{
    let metadata = build_metadata(env, effective_ref);
    let active: Option<IndexJob> = match &env.db {
        Option::Some(db) => db.get_active_job(env.project_id.as_str()),
        Option::None => Option::None,
    };
    let any_active: bool = match &env.db {
        Option::Some(db) => has_any_active(db),
        Option::None => false,
    };
    let is_error = env.db.is_none() || !matches!(env.schema_status, SchemaStatus::Compatible)
        || matches!(env.prewarm, PrewarmState::Failed);
    let status: &str = if is_error {
        "error"
    } else if any_active {
        "indexing"
    } else if matches!(env.prewarm, PrewarmState::InProgress) {
        "warming"
    } else {
        "ready"
    };
    let active_json: JsonValue = match &active {
        Option::Some(j) => active_job_json(j),
        Option::None => JsonValue::Null,
    };
    let interrupted: Vec<IndexJob> = match &env.db {
        Option::Some(db) => db.get_interrupted_jobs(),
        Option::None => Vec::new(),
    };
    let report: JsonValue = if interrupted.len() > 0 {
        let mut last_at: String = interrupted[0].updated_at.clone();
        let mut k: usize = 1;
        while k < interrupted.len()
            invariant
                1 <= k <= interrupted@.len(),
            decreases interrupted@.len() - k,
        {
            if crate::strutil::str_le(last_at.as_str(), interrupted[k].updated_at.as_str()) {
                last_at = interrupted[k].updated_at.clone();
            }
            k = k + 1;
        }
        let mut f: Vec<(String, JsonValue)> = Vec::new();
        f.push((String::from_str("detected"), JsonValue::Bool(true)));
        f.push((
            String::from_str("interrupted_jobs"),
            JsonValue::UInt(interrupted.len() as u64),
        ));
        f.push((String::from_str("last_interrupted_at"), JsonValue::Str(last_at)));
        f.push((
            String::from_str("recommended_action"),
            jstr("run sync_repo or index_repo for the affected workspace"),
        ));
        JsonValue::Obj(f)
    } else {
        JsonValue::Null
    };
    let mut checks: Vec<(String, JsonValue)> = Vec::new();
    let mut index_check: Vec<(String, JsonValue)> = Vec::new();
    index_check.push((
        String::from_str("status"),
        JsonValue::Str(env.schema_status.as_str().to_owned()),
    ));
    index_check.push((String::from_str("current_schema_version"), JsonValue::Int(SCHEMA_VERSION)));
    index_check.push((String::from_str("required_schema_version"), JsonValue::Int(SCHEMA_VERSION)));
    checks.push((String::from_str("index"), JsonValue::Obj(index_check)));
    let mut project_rows: Vec<JsonValue> = Vec::new();
    match &env.db {
        Option::Some(db) => {
            let projects = db.list_projects();
            if projects.len() == 0 {
                let fc = db.file_count(env.project_id.as_str(), effective_ref);
                let sc = db.symbol_count(env.project_id.as_str(), effective_ref);
                let fallback: &str = if !matches!(env.schema_status, SchemaStatus::Compatible)
                    || matches!(env.prewarm, PrewarmState::Failed) {
                    "error"
                } else if matches!(env.prewarm, PrewarmState::InProgress) {
                    "warming"
                } else {
                    "ready"
                };
                project_rows.push(fallback_row_json(env, effective_ref, fallback, fc, sc));
                proof {
                    assert(fallback@ == fallback_status_str(*env));
                }
            }
            let mut i: usize = 0;
            while i < projects.len()
                invariant
                    db.wf(),
                    env.db == Option::Some(*db),
                    0 <= i <= projects@.len(),
                    projects@ == db.projects@,
                    projects@.len() > 0 ==> project_rows@.len() == i,
                    projects@.len() == 0 ==> project_rows@.len() == 1 && is_fallback_row_json(
                        project_rows@[0],
                        *env,
                        effective_ref@,
                        fallback_status_str(*env),
                    ),
                    forall|k: int|
                        0 <= k < i ==> is_project_row_json(
                            #[trigger] project_rows@[k],
                            db.projects@[k],
                            project_status_str(
                                *env,
                                db.projects@[k],
                                project_has_active(*db, db.projects@[k].project_id@),
                            ),
                        ),
                decreases projects@.len() - i,
            {
                let p = &projects[i];
                let p_active: bool = match db.get_active_job(p.project_id.as_str()) {
                    Option::Some(_) => true,
                    Option::None => false,
                };
                proof {
                    assert(p_active == project_has_active(*db, p.project_id@));
                }
                let project_ref: String = {
                    let t = crate::strutil::trim_spaces(p.default_ref.as_str());
                    if t.as_str().unicode_len() > 0 {
                        p.default_ref.clone()
                    } else {
                        String::from_str("live")
                    }
                };
                let fc = db.file_count(p.project_id.as_str(), project_ref.as_str());
                let sc = db.symbol_count(p.project_id.as_str(), project_ref.as_str());
                let recent = db.get_recent_jobs(p.project_id.as_str(), 5);
                let last = find_last_published(&recent, project_ref.as_str());
                project_rows.push(project_row_json(env, p, p_active, fc, sc, last));
                i = i + 1;
            }
        },
        Option::None => {
            project_rows.push(fallback_row_json(env, effective_ref, "error", 0, 0));
        },
    }
    let mut fields: Vec<(String, JsonValue)> = Vec::new();
    fields.push((String::from_str("status"), jstr(status)));
    fields.push((String::from_str("version"), JsonValue::Str(env.version.clone())));
    fields.push((String::from_str("uptime_seconds"), JsonValue::UInt(env.uptime_seconds)));
    fields.push((String::from_str("tantivy_ok"), JsonValue::Bool(env.tantivy_ok)));
    fields.push((String::from_str("sqlite_ok"), JsonValue::Bool(env.sqlite_ok)));
    fields.push((
        String::from_str("sqlite_error"),
        match &env.sqlite_error {
            Option::Some(e) => JsonValue::Str(e.clone()),
            Option::None => JsonValue::Null,
        },
    ));
    fields.push((
        String::from_str("prewarm_status"),
        JsonValue::Str(env.prewarm.label().to_owned()),
    ));
    fields.push((String::from_str("active_job"), active_json));
    fields.push((String::from_str("interrupted_recovery_report"), report));
    fields.push((String::from_str("startup_checks"), JsonValue::Obj(checks)));
    fields.push((String::from_str("projects"), JsonValue::Arr(project_rows)));
    let mut warm: Vec<(String, JsonValue)> = Vec::new();
    let warm_enabled = !matches!(env.prewarm, PrewarmState::Skipped);
    warm.push((String::from_str("enabled"), JsonValue::Bool(warm_enabled)));
    warm.push((String::from_str("capacity"), JsonValue::UInt(WARMSET_CAPACITY)));
    let mut members: Vec<JsonValue> = Vec::new();
    match &env.db {
        Option::Some(db) => {
            if warm_enabled {
                let projects = db.list_projects();
                let mut i: usize = 0;
                while i < projects.len() && members.len() < 8
                    invariant
                        0 <= i <= projects@.len(),
                    decreases projects@.len() - i,
                {
                    members.push(JsonValue::Str(projects[i].project_id.clone()));
                    i = i + 1;
                }
            }
        },
        Option::None => {},
    }
    warm.push((String::from_str("members"), JsonValue::Arr(members)));
    fields.push((String::from_str("workspace_warmset"), JsonValue::Obj(warm)));
    fields.push((String::from_str("metadata"), metadata.to_json()));
    let r = JsonValue::Obj(fields);
    proof {
        reveal_strlit("status");
        reveal_strlit("version");
        reveal_strlit("uptime_seconds");
        reveal_strlit("tantivy_ok");
        reveal_strlit("sqlite_ok");
        reveal_strlit("sqlite_error");
        reveal_strlit("prewarm_status");
        reveal_strlit("active_job");
        reveal_strlit("interrupted_recovery_report");
        reveal_strlit("startup_checks");
        reveal_strlit("projects");
        reveal_strlit("metadata");
        reveal_strlit("workspace_warmset");
        assert(fields@.len() == 13);
        assert(fields@[0].0@ == "status"@);
        assert(fields@[1].0@ == "version"@);
        assert(fields@[2].0@ == "uptime_seconds"@);
        assert(fields@[3].0@ == "tantivy_ok"@);
        assert(fields@[4].0@ == "sqlite_ok"@);
        assert(fields@[5].0@ == "sqlite_error"@);
        assert(fields@[6].0@ == "prewarm_status"@);
        assert(fields@[7].0@ == "active_job"@);
        assert(fields@[8].0@ == "interrupted_recovery_report"@);
        assert(fields@[9].0@ == "startup_checks"@);
        assert(fields@[10].0@ == "projects"@);
        assert(fields@[11].0@ == "workspace_warmset"@);
        assert(fields@[12].0@ == "metadata"@);
        lemma_health_lookups(fields@);
        if env_has_active_job(*env) {
            let db = env.db->0;
            assert(active is Some);
            let j = active->0;
            let i = choose|i: int|
                0 <= i < db.jobs@.len() && #[trigger] db.jobs@[i] == j && j.project_id@
                    == env.project_id@ && crate::store::job_active(j) && (forall|k: int|
                    0 <= k < i ==> !(#[trigger] db.jobs@[k].project_id@ == env.project_id@
                        && crate::store::job_active(db.jobs@[k])));
            assert(is_active_job_json(active_json, j));
            assert(0 <= i < db.jobs@.len() && db.jobs@[i].project_id@ == env.project_id@
                && crate::store::job_active(db.jobs@[i]) && is_active_job_json(
                active_json,
                db.jobs@[i],
            ) && (forall|k: int|
                0 <= k < i ==> !(db.jobs@[k].project_id@ == env.project_id@
                    && crate::store::job_active(#[trigger] db.jobs@[k]))));
        }
    }
    r
}

/// The lookups the health payload's contract needs, over its fixed field
/// names.
proof fn lemma_health_lookups(fields: Seq<(String, JsonValue)>)
    requires
        fields.len() == 13,
        fields[0].0@ == "status"@,
        fields[1].0@ == "version"@,
        fields[2].0@ == "uptime_seconds"@,
        fields[3].0@ == "tantivy_ok"@,
        fields[4].0@ == "sqlite_ok"@,
        fields[5].0@ == "sqlite_error"@,
        fields[6].0@ == "prewarm_status"@,
        fields[7].0@ == "active_job"@,
        fields[8].0@ == "interrupted_recovery_report"@,
        fields[9].0@ == "startup_checks"@,
        fields[10].0@ == "projects"@,
        fields[11].0@ == "workspace_warmset"@,
        fields[12].0@ == "metadata"@,
    ensures
        crate::json::obj_lookup(fields, "error"@) is None,
        crate::json::obj_lookup(fields, "status"@) == Option::Some(fields[0].1),
        crate::json::obj_lookup(fields, "version"@) == Option::Some(fields[1].1),
        crate::json::obj_lookup(fields, "uptime_seconds"@) == Option::Some(fields[2].1),
        crate::json::obj_lookup(fields, "tantivy_ok"@) == Option::Some(fields[3].1),
        crate::json::obj_lookup(fields, "sqlite_ok"@) == Option::Some(fields[4].1),
        crate::json::obj_lookup(fields, "prewarm_status"@) == Option::Some(fields[6].1),
        crate::json::obj_lookup(fields, "active_job"@) == Option::Some(fields[7].1),
        crate::json::obj_lookup(fields, "projects"@) == Option::Some(fields[10].1),
        crate::json::obj_lookup(fields, "metadata"@) == Option::Some(fields[12].1),
{
    reveal_strlit("status");
    reveal_strlit("version");
    reveal_strlit("uptime_seconds");
    reveal_strlit("tantivy_ok");
    reveal_strlit("sqlite_ok");
    reveal_strlit("sqlite_error");
    reveal_strlit("prewarm_status");
    reveal_strlit("active_job");
    reveal_strlit("interrupted_recovery_report");
    reveal_strlit("startup_checks");
    reveal_strlit("projects");
    reveal_strlit("workspace_warmset");
    reveal_strlit("metadata");
    reveal_strlit("error");
    assert("workspace_warmset"@.len() == 17);
    assert("status"@.len() == 6);
    assert("version"@.len() == 7);
    assert("uptime_seconds"@.len() == 14);
    assert("tantivy_ok"@.len() == 10);
    assert("sqlite_ok"@.len() == 9);
    assert("sqlite_error"@.len() == 12);
    assert("prewarm_status"@.len() == 14);
    assert("active_job"@.len() == 10);
    assert("interrupted_recovery_report"@.len() == 27);
    assert("startup_checks"@.len() == 14);
    assert("projects"@.len() == 8);
    assert("metadata"@.len() == 8);
    assert("error"@.len() == 5);
    assert("tantivy_ok"@[0] == 't' && "active_job"@[0] == 'a');
    assert("projects"@[0] == 'p' && "metadata"@[0] == 'm');
    assert("uptime_seconds"@[0] == 'u' && "prewarm_status"@[0] == 'p' && "startup_checks"@[0]
        == 's');
    assert forall|i2: int| 0 <= i2 < fields.len() implies (#[trigger] fields[i2]).0@
        != "error"@ by {
        if i2 == 0 {
        } else if i2 == 1 {
        } else if i2 == 2 {
        } else if i2 == 3 {
        } else if i2 == 4 {
        } else if i2 == 5 {
        } else if i2 == 6 {
        } else if i2 == 7 {
        } else if i2 == 8 {
        } else if i2 == 9 {
        } else if i2 == 10 {
        } else if i2 == 11 {
        } else if i2 == 12 {
        }
    }
    crate::json::lemma_lookup_absent(fields, "error"@);
    crate::json::lemma_lookup_at(fields, "status"@, 0);
    assert(fields[0].0@ != "version"@);
    crate::json::lemma_lookup_at(fields, "version"@, 1);
    assert(fields[0].0@ != "uptime_seconds"@ && fields[1].0@ != "uptime_seconds"@);
    crate::json::lemma_lookup_at(fields, "uptime_seconds"@, 2);
    assert(fields[0].0@ != "tantivy_ok"@ && fields[1].0@ != "tantivy_ok"@ && fields[2].0@
        != "tantivy_ok"@);
    crate::json::lemma_lookup_at(fields, "tantivy_ok"@, 3);
    assert(fields[0].0@ != "sqlite_ok"@ && fields[1].0@ != "sqlite_ok"@ && fields[2].0@
        != "sqlite_ok"@ && fields[3].0@ != "sqlite_ok"@);
    crate::json::lemma_lookup_at(fields, "sqlite_ok"@, 4);
    assert forall|i2: int| 0 <= i2 < 6 implies (#[trigger] fields[i2]).0@
        != "prewarm_status"@ by {
        if i2 == 0 {
        } else if i2 == 1 {
        } else if i2 == 2 {
        } else if i2 == 3 {
        } else if i2 == 4 {
        } else if i2 == 5 {
        }
    }
    crate::json::lemma_lookup_at(fields, "prewarm_status"@, 6);
    assert forall|i2: int| 0 <= i2 < 10 implies (#[trigger] fields[i2]).0@ != "projects"@ by {
        if i2 == 0 {
        } else if i2 == 1 {
        } else if i2 == 2 {
        } else if i2 == 3 {
        } else if i2 == 4 {
        } else if i2 == 5 {
        } else if i2 == 6 {
        } else if i2 == 7 {
        } else if i2 == 8 {
        } else if i2 == 9 {
        }
    }
    crate::json::lemma_lookup_at(fields, "projects"@, 10);
    assert forall|i2: int| 0 <= i2 < 7 implies (#[trigger] fields[i2]).0@ != "active_job"@ by {
        if i2 == 0 {
        } else if i2 == 1 {
        } else if i2 == 2 {
        } else if i2 == 3 {
        } else if i2 == 4 {
        } else if i2 == 5 {
        } else if i2 == 6 {
        }
    }
    crate::json::lemma_lookup_at(fields, "active_job"@, 7);
    assert forall|i2: int| 0 <= i2 < 12 implies (#[trigger] fields[i2]).0@ != "metadata"@ by {
        if i2 == 0 {
        } else if i2 == 1 {
        } else if i2 == 2 {
        } else if i2 == 3 {
        } else if i2 == 4 {
        } else if i2 == 5 {
        } else if i2 == 6 {
        } else if i2 == 7 {
        } else if i2 == 8 {
        } else if i2 == 9 {
        } else if i2 == 10 {
        } else if i2 == 11 {
        }
    }
    crate::json::lemma_lookup_at(fields, "metadata"@, 12);
}

/// The uncached body of the HTTP health endpoint: the same aggregation the
/// `health_check` tool serves.
pub fn build_health_response_uncached(env: &ServerEnv, effective_ref: &str) -> (r: JsonValue)
    requires
        env_wf(*env),
    ensures
        payload_error_code(r) is None,
        spec_get(r, "status"@) matches Option::Some(v) && v is Str && v->Str_0@
            == overall_status_str(*env),
        spec_get(r, "active_job"@) matches Option::Some(aj) && (aj is Obj <==> env_has_active_job(
            *env,
        )),
        env_has_active_job(*env) ==> (spec_get(r, "active_job"@) matches Option::Some(aj)
            && env.db matches Option::Some(db) && exists|i: int|
            0 <= i < db.jobs@.len() && (#[trigger] db.jobs@[i]).project_id@ == env.project_id@
                && crate::store::job_active(db.jobs@[i]) && is_active_job_json(aj, db.jobs@[i]) && (
            forall|k: int|
                0 <= k < i ==> !(db.jobs@[k].project_id@ == env.project_id@
                    && crate::store::job_active(#[trigger] db.jobs@[k])))),
{
    handle_health_check(env, effective_ref)
}

} // verus!
