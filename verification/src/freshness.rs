use vstd::prelude::*;
use crate::store::clone_opt_string;
use crate::strutil::{str_eq, trim_spaces, trimmed};
use crate::types::{BranchState, FreshnessPolicy, FreshnessStatus};

verus! {

// ---------------------------------------------------------------------------
// Ref resolution.
// ---------------------------------------------------------------------------

/// The ref a tool call is answered against, by fixed precedence: the explicit
/// argument, then the VCS head branch, then a non-blank project default,
/// then the literal `live`.
pub open spec fn resolved_ref(
    requested: Option<Seq<char>>,
    head_branch: Option<Seq<char>>,
    default_ref: Option<Seq<char>>,
) -> Seq<char> {
    if requested is Some {
        requested->0
    } else if head_branch is Some {
        head_branch->0
    } else if default_ref is Some && trimmed(default_ref->0).len() > 0 {
        default_ref->0
    } else {
        "live"@
    }
}

/// Resolve the effective ref for a tool call from what was requested and what
/// the VCS probe and project row reported.
pub fn resolve_tool_ref(
    requested_ref: Option<&str>,
    head_branch: Option<&str>,
    default_ref: Option<&str>,
) -> (r: String)
    ensures
        r@ == resolved_ref(
            match requested_ref {
                Option::Some(s) => Option::Some(s@),
                Option::None => Option::None,
            },
            match head_branch {
                Option::Some(s) => Option::Some(s@),
                Option::None => Option::None,
            },
            match default_ref {
                Option::Some(s) => Option::Some(s@),
                Option::None => Option::None,
            },
        ),
{
    match requested_ref {
        Option::Some(r) => r.to_owned(),
        Option::None => match head_branch {
            Option::Some(b) => b.to_owned(),
            Option::None => match default_ref {
                Option::Some(d) => {
                    let t = trim_spaces(d);
                    if t.as_str().unicode_len() > 0 {
                        d.to_owned()
                    } else {
                        String::from_str("live")
                    }
                },
                Option::None => String::from_str("live"),
            },
        },
    }
}

// ---------------------------------------------------------------------------
// Staleness.
// ---------------------------------------------------------------------------

/// The index lags the working tree: a branch-state row exists for the ref, the
/// VCS is on that very branch, and its head commit differs from the last
/// indexed one. A missing oracle never makes a ref stale.
pub open spec fn ref_is_stale(
    branch_state: Option<BranchState>,
    head_branch: Option<Seq<char>>,
    head_commit: Option<Seq<char>>,
    ref_name: Seq<char>,
) -> bool {
    &&& branch_state is Some
    &&& head_branch is Some
    &&& head_branch->0 == ref_name
    &&& head_commit is Some
    &&& branch_state->0.last_indexed_commit@ != head_commit->0
}

/// Decide staleness from the branch state row and the VCS probe results.
pub fn is_ref_stale(
    branch_state: &Option<BranchState>,
    head_branch: Option<&str>,
    head_commit: Option<&str>,
    ref_name: &str,
) -> (r: bool)
    ensures
        r == ref_is_stale(
            *branch_state,
            match head_branch {
                Option::Some(s) => Option::Some(s@),
                Option::None => Option::None,
            },
            match head_commit {
                Option::Some(s) => Option::Some(s@),
                Option::None => Option::None,
            },
            ref_name@,
        ),
{
    match branch_state {
        Option::Some(bs) => match head_branch {
            Option::Some(hb) => {
                if !str_eq(hb, ref_name) {
                    false
                } else {
                    match head_commit {
                        Option::Some(hc) => !str_eq(bs.last_indexed_commit.as_str(), hc),
                        Option::None => false,
                    }
                }
            },
            Option::None => false,
        },
        Option::None => false,
    }
}

/// What the freshness oracle reports for one `(project, ref)`.
pub struct FreshnessResult {
    pub status: FreshnessStatus,
    pub last_indexed_commit: Option<String>,
    pub current_head: Option<String>,
}

impl FreshnessResult {
    /// A field-for-field copy of the value.
    pub fn duplicate(&self) -> (r: FreshnessResult)
        ensures
            r == *self,
    {
        FreshnessResult {
            status: self.status,
            last_indexed_commit: clone_opt_string(&self.last_indexed_commit),
            current_head: clone_opt_string(&self.current_head),
        }
    }
}

/// What the oracle reports: `Unknown` without a VCS head, else `Stale` exactly
/// when `ref_is_stale` holds, else `Fresh`.
pub open spec fn freshness_report(
    branch_state: Option<BranchState>,
    head_branch: Option<Seq<char>>,
    head_commit: Option<Seq<char>>,
    ref_name: Seq<char>,
) -> FreshnessStatus {
    if head_branch is None || head_commit is None {
        FreshnessStatus::Unknown
    } else if ref_is_stale(branch_state, head_branch, head_commit, ref_name) {
        FreshnessStatus::Stale
    } else {
        FreshnessStatus::Fresh
    }
}

/// Build the oracle's report for a ref from the stored branch state and the
/// VCS probe results.
pub fn check_freshness(
    branch_state: &Option<BranchState>,
    head_branch: Option<&str>,
    head_commit: Option<&str>,
    ref_name: &str,
) -> (r: FreshnessResult)
    ensures
        r.status == freshness_report(
            *branch_state,
            match head_branch {
                Option::Some(s) => Option::Some(s@),
                Option::None => Option::None,
            },
            match head_commit {
                Option::Some(s) => Option::Some(s@),
                Option::None => Option::None,
            },
            ref_name@,
        ),
        r.last_indexed_commit == (match branch_state {
            Option::Some(bs) => Option::Some(bs.last_indexed_commit),
            Option::None => Option::None::<String>,
        }),
        match head_commit {
            Option::Some(hc) => r.current_head matches Option::Some(h) && h@ == hc@,
            Option::None => r.current_head is None,
        },
{
    let stale = is_ref_stale(branch_state, head_branch, head_commit, ref_name);
    let vcs_missing = head_branch.is_none() || head_commit.is_none();
    let status = if vcs_missing {
        FreshnessStatus::Unknown
    } else if stale {
        FreshnessStatus::Stale
    } else {
        FreshnessStatus::Fresh
    };
    FreshnessResult {
        status,
        last_indexed_commit: match branch_state {
            Option::Some(bs) => Option::Some(bs.last_indexed_commit.clone()),
            Option::None => Option::None,
        },
        current_head: match head_commit {
            Option::Some(hc) => Option::Some(hc.to_owned()),
            Option::None => Option::None,
        },
    }
}

/// What the policy tells the query path to do.
#[derive(Clone, Copy, PartialEq, Eq, Structural, Debug)]
pub enum PolicyAction {
    Proceed,
    ProceedWithStaleIndicatorAndSync,
    BlockWithError,
}

/// The action each policy takes on the oracle's report: permissive always proceeds,
/// advisory proceeds but kicks off a sync on a stale index, strict blocks.
pub open spec fn policy_action_of(policy: FreshnessPolicy, status: FreshnessStatus) -> PolicyAction {
    match policy {
        FreshnessPolicy::Permissive => PolicyAction::Proceed,
        FreshnessPolicy::Advisory => if status is Stale {
            PolicyAction::ProceedWithStaleIndicatorAndSync
        } else {
            PolicyAction::Proceed
        },
        FreshnessPolicy::Strict => if status is Stale {
            PolicyAction::BlockWithError
        } else {
            PolicyAction::Proceed
        },
    }
}

/// Map the configured policy and the oracle's report to an action.
pub fn apply_freshness_policy(policy: FreshnessPolicy, result: &FreshnessResult) -> (r: PolicyAction)
    ensures
        r == policy_action_of(policy, result.status),
{
    match policy {
        FreshnessPolicy::Permissive => PolicyAction::Proceed,
        FreshnessPolicy::Advisory => {
            if result.status == FreshnessStatus::Stale {
                PolicyAction::ProceedWithStaleIndicatorAndSync
            } else {
                PolicyAction::Proceed
            }
        },
        FreshnessPolicy::Strict => {
            if result.status == FreshnessStatus::Stale {
                PolicyAction::BlockWithError
            } else {
                PolicyAction::Proceed
            }
        },
    }
}

/// A freshness policy named by a string, if recognised.
pub open spec fn policy_of(s: Seq<char>) -> Option<FreshnessPolicy> {
    if s == "permissive"@ {
        Option::Some(FreshnessPolicy::Permissive)
    } else if s == "advisory"@ {
        Option::Some(FreshnessPolicy::Advisory)
    } else if s == "strict"@ {
        Option::Some(FreshnessPolicy::Strict)
    } else {
        Option::None
    }
}

pub fn parse_freshness_policy(s: &str) -> (r: Option<FreshnessPolicy>)
    ensures
        r == policy_of(s@),
{
    if str_eq(s, "permissive") {
        Option::Some(FreshnessPolicy::Permissive)
    } else if str_eq(s, "advisory") {
        Option::Some(FreshnessPolicy::Advisory)
    } else if str_eq(s, "strict") {
        Option::Some(FreshnessPolicy::Strict)
    } else {
        Option::None
    }
}

} // verus!
