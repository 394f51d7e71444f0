use vstd::prelude::*;
use crate::hashing::{blake3_hex, content_hash_hex};
use crate::strutil::{seq_starts_with, starts_with};
use vstd::string::StringSliceAdditionalSpecFns;

verus! {

// ---------------------------------------------------------------------------
// Workspace routing: map a request's optional workspace hint to a project.
// ---------------------------------------------------------------------------

/// The multi-workspace configuration a process runs with.
pub struct WorkspaceConfig {
    pub enabled: bool,
    pub allowed_roots: Vec<String>,
    pub on_demand_indexing: bool,
}

/// Why a workspace hint was refused.
#[derive(Clone, Copy, PartialEq, Eq, Structural, Debug)]
pub enum WorkspaceError {
    /// A hint was given but multi-workspace mode is off.
    Unsupported,
    /// The hinted path lies outside every allowed root.
    NotAllowed,
}

impl WorkspaceError {
    /// The wire error code for the refusal.
    pub fn code(&self) -> (r: &'static str)
        ensures
            *self is Unsupported ==> r@ == "workspace_unsupported"@,
            *self is NotAllowed ==> r@ == "workspace_not_allowed"@,
    {
        match self {
            WorkspaceError::Unsupported => "workspace_unsupported",
            WorkspaceError::NotAllowed => "workspace_not_allowed",
        }
    }
}

/// Where a request was routed: the canonical workspace, its project id, and
/// whether the project still has to be bootstrapped.
pub struct ResolvedWorkspace {
    pub workspace_path: String,
    pub project_id: String,
    pub should_bootstrap: bool,
    pub on_demand_indexing: bool,
}

/// The path lies inside one of the allowed roots.
pub open spec fn path_allowed(path: Seq<char>, roots: Seq<String>) -> bool {
    exists|i: int| 0 <= i < roots.len() && seq_starts_with(path, (#[trigger] roots[i])@)
}

/// The project id of a canonical workspace path: the first 16 hex digits of
/// its keyed digest.
pub open spec fn project_id_of(path: Seq<char>) -> Seq<char> {
    blake3_hex(vstd::utf8::encode_utf8(path)).take(16)
}

/// Derive the deterministic project id of a canonical workspace path.
pub fn generate_project_id(canonical_path: &str) -> (r: String)
    ensures
        r@ == project_id_of(canonical_path@),
{
    let digest = content_hash_hex(canonical_path);
    let d = digest.as_str();
    let mut out = String::new();
    let mut i: usize = 0;
    while i < 16
        invariant
            d@.len() == 64,
            0 <= i <= 16,
            out@ == d@.take(i as int),
        decreases 16 - i,
    {
        crate::strutil::push_char(&mut out, d.get_char(i));
        assert(d@.take(i + 1) =~= d@.take(i as int).push(d@[i as int]));
        i = i + 1;
    }
    assert(out@ =~= d@.take(16));
    out
}

/// Route a request's optional workspace hint, already canonicalized by the
/// caller: absent hints use the default workspace; hints are refused when
/// multi-workspace mode is off or the path escapes every allowed root. The
/// bootstrap flag reports whether the project is still unregistered.
pub fn resolve_workspace(
    hint: Option<&str>,
    config: &WorkspaceConfig,
    default_workspace: &str,
    registered: bool,
) -> (r: Result<ResolvedWorkspace, WorkspaceError>)
    ensures
        hint is None ==> (r matches Result::Ok(res) && res.workspace_path@ == default_workspace@),
        hint matches Option::Some(h) && !config.enabled ==> r == Result::<
            ResolvedWorkspace,
            WorkspaceError,
        >::Err(WorkspaceError::Unsupported),
        hint matches Option::Some(h2) && config.enabled && !path_allowed(
            h2@,
            config.allowed_roots@,
        ) ==> r == Result::<ResolvedWorkspace, WorkspaceError>::Err(WorkspaceError::NotAllowed),
        (match hint {
            Option::Some(h3) => (config.enabled && path_allowed(h3@, config.allowed_roots@))
                ==> (r matches Result::Ok(res) && res.workspace_path@ == h3@),
            Option::None => true,
        }),
        r matches Result::Ok(res2) ==> res2.project_id@ == project_id_of(res2.workspace_path@)
            && res2.should_bootstrap == !registered && res2.on_demand_indexing
            == config.on_demand_indexing,
{
    let path: &str = match hint {
        Option::None => default_workspace,
        Option::Some(h) => {
            if !config.enabled {
                return Result::Err(WorkspaceError::Unsupported);
            }
            let n = config.allowed_roots.len();
            let mut i: usize = 0;
            let mut allowed = false;
            while i < n
                invariant
                    n == config.allowed_roots@.len(),
                    0 <= i <= n,
                    allowed <==> exists|j: int|
                        0 <= j < i && seq_starts_with(h@, (#[trigger] config.allowed_roots@[j])@),
                decreases n - i,
            {
                if starts_with(h, config.allowed_roots[i].as_str()) {
                    assert(seq_starts_with(h@, config.allowed_roots@[i as int]@));
                    allowed = true;
                    i = n;
                } else {
                    i = i + 1;
                }
            }
            if !allowed {
                return Result::Err(WorkspaceError::NotAllowed);
            }
            h
        },
    };
    let project_id = generate_project_id(path);
    Result::Ok(ResolvedWorkspace {
        workspace_path: path.to_owned(),
        project_id,
        should_bootstrap: !registered,
        on_demand_indexing: config.on_demand_indexing,
    })
}

} // verus!
