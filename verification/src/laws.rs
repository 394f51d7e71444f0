use vstd::prelude::*;
use crate::ranking::{RankingReasons, SearchResult};
use crate::shared::{aligned_reasons, first_occurrence, same_search_key};
use crate::store::{
    bs_key_is, interrupted_version, lemma_filter_empty, lemma_filter_step, sym_scope_is, SymbolRow,
};
use crate::strutil::trimmed;
use crate::types::{BranchState, IndexJob};

verus! {

// ---------------------------------------------------------------------------
// Ref precedence.
// ---------------------------------------------------------------------------

/// An explicit ref argument always wins: whatever the VCS or the project
/// default say, the resolved ref is the requested one.
pub proof fn law_explicit_ref_wins(
    requested: Seq<char>,
    head_branch: Option<Seq<char>>,
    default_ref: Option<Seq<char>>,
)
    ensures
        crate::freshness::resolved_ref(Option::Some(requested), head_branch, default_ref)
            == requested,
{
}

/// Without a request, a VCS head, or a non-blank default, the resolved ref is
/// the literal `live`.
pub proof fn law_ref_falls_back_to_live(default_ref: Option<Seq<char>>)
    requires
        default_ref is Some ==> trimmed(default_ref->0).len() == 0,
    ensures
        crate::freshness::resolved_ref(Option::None, Option::None, default_ref) == "live"@,
{
}

// ---------------------------------------------------------------------------
// Nothing is counted that is not there: symbol_count is zero exactly when no
// row of the scope exists.
// ---------------------------------------------------------------------------

/// `symbol_count(repo, ref) == 0` holds exactly when no stored symbol row
/// belongs to `(repo, ref)`.
pub proof fn law_symbol_count_zero(rows: Seq<SymbolRow>, repo: Seq<char>, ref_name: Seq<char>)
    ensures
        (rows.filter(|row: SymbolRow| sym_scope_is(row.rec, repo, ref_name)).len() == 0) <==> (
        forall|i: int| 0 <= i < rows.len() ==> !sym_scope_is((#[trigger] rows[i]).rec, repo, ref_name)),
{
    let p = |row: SymbolRow| sym_scope_is(row.rec, repo, ref_name);
    if rows.filter(p).len() == 0 {
        assert forall|i: int| 0 <= i < rows.len() implies !sym_scope_is(
            (#[trigger] rows[i]).rec,
            repo,
            ref_name,
        ) by {
            if p(rows[i]) {
                rows.lemma_filter_contains(p, i);
                assert(rows.filter(p).contains(rows[i]));
            }
        }
    } else {
        rows.lemma_filter_pred(p, 0);
        crate::store::lemma_filter_subset(rows, p);
        assert(rows.filter(p).contains(rows.filter(p)[0]));
        assert(rows.contains(rows.filter(p)[0]));
        let i = choose|i: int| 0 <= i < rows.len() && rows[i] == rows.filter(p)[0];
        assert(sym_scope_is(rows[i].rec, repo, ref_name));
    }
}

// ---------------------------------------------------------------------------
// Deduplication.
// ---------------------------------------------------------------------------

/// After dedup no two survivors share a key: each survivor is the first
/// occurrence of its key, and survivors keep their original order.
pub proof fn law_dedup_keys_distinct(
    results: Seq<SearchResult>,
    kept: Seq<SearchResult>,
    kept_indices: Seq<usize>,
)
    requires
        kept.len() == kept_indices.len(),
        forall|k: int|
            0 <= k < kept_indices.len() ==> 0 <= #[trigger] kept_indices[k] < results.len()
                && kept[k] == results[kept_indices[k] as int] && first_occurrence(
                results,
                kept_indices[k] as int,
            ),
        forall|k: int, l: int|
            #![trigger kept_indices[k], kept_indices[l]]
            0 <= k < l < kept_indices.len() ==> kept_indices[k] < kept_indices[l],
    ensures
        forall|k: int, l: int|
            #![trigger kept[k], kept[l]]
            0 <= k < l < kept.len() ==> !same_search_key(kept[k], kept[l]),
{
    reveal(first_occurrence);
    assert forall|k: int, l: int|
        #![trigger kept[k], kept[l]]
        0 <= k < l < kept.len() implies !same_search_key(kept[k], kept[l]) by {
        let a = kept_indices[k] as int;
        let b = kept_indices[l] as int;
        assert(a < b);
        assert(first_occurrence(results, b));
        assert(!same_search_key(results[a], results[b]));
    }
}

/// Deduplicating a list whose keys are already pairwise distinct keeps every
/// row and suppresses none.
pub proof fn law_dedup_idempotent(
    results: Seq<SearchResult>,
    kept: Seq<SearchResult>,
    kept_indices: Seq<usize>,
    suppressed: int,
)
    requires
        forall|k: int, l: int|
            #![trigger results[k], results[l]]
            0 <= k < l < results.len() ==> !same_search_key(results[k], results[l]),
        kept.len() == kept_indices.len(),
        suppressed == results.len() - kept.len(),
        forall|k: int|
            0 <= k < kept_indices.len() ==> 0 <= #[trigger] kept_indices[k] < results.len()
                && kept[k] == results[kept_indices[k] as int] && first_occurrence(
                results,
                kept_indices[k] as int,
            ),
        forall|k: int, l: int|
            #![trigger kept_indices[k], kept_indices[l]]
            0 <= k < l < kept_indices.len() ==> kept_indices[k] < kept_indices[l],
        forall|i: int|
            0 <= i < results.len() && first_occurrence(results, i) ==> exists|k: int|
                0 <= k < kept_indices.len() && #[trigger] kept_indices[k] == i,
    ensures
        suppressed == 0,
        kept =~= results,
{
    reveal(first_occurrence);
    assert forall|i: int| 0 <= i < results.len() implies first_occurrence(results, i) by {
        assert forall|j: int| 0 <= j < i implies !same_search_key(
            #[trigger] results[j],
            results[i],
        ) by {
            if same_search_key(results[j], results[i]) {
                crate::shared::lemma_search_key_symmetric(results[j], results[i]);
            }
        }
    }
    assert forall|i: int| 0 <= i < results.len() implies #[trigger] index_covered(
        kept_indices,
        i,
    ) by {
        assert(first_occurrence(results, i));
        let k = choose|k: int|
            0 <= k < kept_indices.len() && #[trigger] kept_indices[k] == i;
        assert(kept_indices[k] == i);
    }
    lemma_indices_cover(results.len() as int, kept_indices);
    assert forall|k: int| 0 <= k < kept.len() implies kept[k] == results[k] by {
        assert(kept_indices[k] == k);
    }
}

/// Some position of `ks` holds the value `i`.
pub open spec fn index_covered(ks: Seq<usize>, i: int) -> bool {
    exists|a: int| 0 <= a < ks.len() && #[trigger] ks[a] == i
}

/// A strictly increasing sequence of indices below `n` that covers every
/// index below `n` is the identity on `0..n`.
proof fn lemma_indices_cover(n: int, ks: Seq<usize>)
    requires
        n >= 0,
        forall|k: int| 0 <= k < ks.len() ==> 0 <= #[trigger] ks[k] < n,
        forall|k: int, l: int|
            #![trigger ks[k], ks[l]]
            0 <= k < l < ks.len() ==> ks[k] < ks[l],
        forall|i: int| 0 <= i < n ==> #[trigger] index_covered(ks, i),
    ensures
        ks.len() == n,
        forall|k: int| 0 <= k < ks.len() ==> #[trigger] ks[k] == k,
{
    assert forall|k: int| 0 <= k < ks.len() implies #[trigger] ks[k] == k by {
        lemma_identity_at(ks, n, k);
    }
    if ks.len() > n {
        assert(ks[n] == n);
    }
    if ks.len() < n {
        let i = ks.len() as int;
        assert(0 <= i < n);
        assert(index_covered(ks, i));
        let k = choose|k: int| 0 <= k < ks.len() && #[trigger] ks[k] == i;
        assert(ks[k] == k);
    }
}

proof fn lemma_identity_at(ks: Seq<usize>, n: int, k: int)
    requires
        0 <= k < ks.len(),
        forall|a: int| 0 <= a < ks.len() ==> 0 <= #[trigger] ks[a] < n,
        forall|a: int, b: int|
            #![trigger ks[a], ks[b]]
            0 <= a < b < ks.len() ==> ks[a] < ks[b],
        forall|i: int| 0 <= i < n ==> #[trigger] index_covered(ks, i),
    ensures
        ks[k] == k,
    decreases k,
{
    assert forall|j: int| 0 <= j < k implies #[trigger] ks[j] == j by {
        lemma_identity_at(ks, n, j);
    }
    lemma_increasing_lower_at(ks, k);
    if ks[k] > k {
        assert(0 <= k < n);
        assert(index_covered(ks, k));
        let a = choose|a: int| 0 <= a < ks.len() && #[trigger] ks[a] == k;
        if a < k {
            assert(ks[a] == a);
        } else if a > k {
            assert(ks[k] < ks[a]);
        }
        assert(false);
    }
}

proof fn lemma_increasing_lower_at(ks: Seq<usize>, k: int)
    requires
        0 <= k < ks.len(),
        forall|a: int, b: int|
            #![trigger ks[a], ks[b]]
            0 <= a < b < ks.len() ==> ks[a] < ks[b],
    ensures
        ks[k] >= k,
    decreases k,
{
    if k > 0 {
        lemma_increasing_lower_at(ks, k - 1);
        assert(ks[k - 1] < ks[k]);
    }
}

// ---------------------------------------------------------------------------
// Ranking-reason alignment.
// ---------------------------------------------------------------------------

/// When every kept index is in range, the aligned reasons are renumbered by
/// surviving position: `reasons[i].result_index == i` for all `i`.
pub proof fn law_reasons_renumbered(rs: Seq<RankingReasons>, ks: Seq<usize>)
    requires
        ks.len() <= usize::MAX,
        forall|k: int| 0 <= k < ks.len() ==> (#[trigger] ks[k]) < rs.len(),
    ensures
        aligned_reasons(rs, ks).len() == ks.len(),
        forall|i: int|
            0 <= i < aligned_reasons(rs, ks).len() ==> (#[trigger] aligned_reasons(
                rs,
                ks,
            )[i]).result_index == i,
    decreases ks.len(),
{
    if ks.len() > 0 {
        assert(forall|k: int|
            0 <= k < ks.drop_last().len() ==> (#[trigger] ks.drop_last()[k]) == ks[k]);
        law_reasons_renumbered(rs, ks.drop_last());
        let whole = aligned_reasons(rs, ks);
        let prefix = aligned_reasons(rs, ks.drop_last());
        assert(ks.last() < rs.len());
        assert(whole == prefix.push(
            RankingReasons { result_index: (ks.len() - 1) as usize, ..rs[ks.last() as int] },
        ));
        assert forall|i: int| 0 <= i < whole.len() implies (#[trigger] whole[i]).result_index
            == i by {
            if i < prefix.len() {
                assert(whole[i] == prefix[i]);
            } else {
                assert(whole[i] == RankingReasons {
                    result_index: (ks.len() - 1) as usize,
                    ..rs[ks.last() as int]
                });
            }
        }
    }
}

// ---------------------------------------------------------------------------
// Admission control.
// ---------------------------------------------------------------------------

/// While one job of a project is the only active one in the table, the
/// project has an active job — so a second `index_repo` or `sync_repo` is
/// refused with `index_in_progress` — and the first-active characterisation
/// that `index_status` and health report can only name that job.
pub proof fn law_admitted_job_is_reported(jobs: Seq<IndexJob>, pid: Seq<char>, i: int)
    requires
        0 <= i < jobs.len(),
        jobs[i].project_id@ == pid,
        crate::store::job_active(jobs[i]),
        forall|k: int|
            0 <= k < jobs.len() && k != i ==> !((#[trigger] jobs[k]).project_id@ == pid
                && crate::store::job_active(jobs[k])),
    ensures
        exists|k: int|
            0 <= k < jobs.len() && (#[trigger] jobs[k]).project_id@ == pid
                && crate::store::job_active(jobs[k]),
        forall|j: int|
            (0 <= j < jobs.len() && (#[trigger] jobs[j]).project_id@ == pid
                && crate::store::job_active(jobs[j])) ==> j == i,
{
    assert(jobs[i].project_id@ == pid && crate::store::job_active(jobs[i]));
}

// ---------------------------------------------------------------------------
// Startup sweep idempotence.
// ---------------------------------------------------------------------------

/// The effect `mark_interrupted_jobs` promises of one run over the job table.
pub open spec fn mark_effect(pre: Seq<IndexJob>, post: Seq<IndexJob>, count: int) -> bool {
    &&& post.len() == pre.len()
    &&& (forall|i: int|
        0 <= i < pre.len() ==> (if (#[trigger] pre[i]).status@ == "running"@ {
            interrupted_version(pre[i], post[i])
        } else {
            post[i] == pre[i]
        }))
    &&& count == pre.filter(|j: IndexJob| j.status@ == "running"@).len()
}

/// Running the startup sweep twice changes nothing more: the second run
/// leaves every row as the first run left it and reports zero.
pub proof fn law_mark_interrupted_idempotent(
    pre: Seq<IndexJob>,
    mid: Seq<IndexJob>,
    post: Seq<IndexJob>,
    first_count: int,
    second_count: int,
)
    requires
        mark_effect(pre, mid, first_count),
        mark_effect(mid, post, second_count),
    ensures
        post =~= mid,
        second_count == 0,
{
    assert forall|i: int| 0 <= i < mid.len() implies (#[trigger] mid[i]).status@ != "running"@ by {
        reveal_strlit("running");
        reveal_strlit("interrupted");
        assert("running"@.len() == 7 && "interrupted"@.len() == 11);
        if pre[i].status@ == "running"@ {
            assert(interrupted_version(pre[i], mid[i]));
        }
    }
    assert forall|i: int| 0 <= i < post.len() implies #[trigger] post[i] == mid[i] by {}
    lemma_filter_no_match(mid, |j: IndexJob| j.status@ == "running"@);
}

proof fn lemma_filter_no_match<A>(s: Seq<A>, p: spec_fn(A) -> bool)
    requires
        forall|i: int| 0 <= i < s.len() ==> !p(#[trigger] s[i]),
    ensures
        s.filter(p).len() == 0,
    decreases s.len(),
{
    if s.len() == 0 {
        lemma_filter_empty(s, p);
    } else {
        lemma_filter_step(s, p);
        assert(!p(s.last()));
        lemma_filter_no_match(s.drop_last(), p);
    }
}

// ---------------------------------------------------------------------------
// Branch-state upsert idempotence.
// ---------------------------------------------------------------------------

/// The effect `upsert_branch_state` promises of one run over the table.
pub open spec fn upsert_effect(
    pre: Seq<BranchState>,
    post: Seq<BranchState>,
    entry: BranchState,
) -> bool {
    &&& crate::store::bs_contains_key(post, entry.repo@, entry.ref_name@)
    &&& (forall|j: int|
        0 <= j < post.len() && bs_key_is(#[trigger] post[j], entry.repo@, entry.ref_name@)
            ==> post[j] == entry)
    &&& (if crate::store::bs_contains_key(pre, entry.repo@, entry.ref_name@) {
        post.len() == pre.len()
    } else {
        post == pre.push(entry)
    })
    &&& (forall|j: int|
        0 <= j < pre.len() && !bs_key_is(#[trigger] pre[j], entry.repo@, entry.ref_name@)
            ==> post[j] == pre[j])
    &&& (forall|j: int|
        0 <= j < pre.len() && bs_key_is(#[trigger] pre[j], entry.repo@, entry.ref_name@)
            ==> post[j] == entry)
}

/// Upserting the same entry twice gives the same table as upserting it once.
pub proof fn law_upsert_idempotent(
    pre: Seq<BranchState>,
    mid: Seq<BranchState>,
    post: Seq<BranchState>,
    entry: BranchState,
)
    requires
        upsert_effect(pre, mid, entry),
        upsert_effect(mid, post, entry),
    ensures
        post =~= mid,
{
    assert(crate::store::bs_contains_key(mid, entry.repo@, entry.ref_name@));
    assert(post.len() == mid.len());
    assert forall|j: int| 0 <= j < post.len() implies #[trigger] post[j] == mid[j] by {
        if bs_key_is(mid[j], entry.repo@, entry.ref_name@) {
            assert(mid[j] == entry);
            assert(post[j] == entry);
        } else {
            assert(post[j] == mid[j]);
        }
    }
}

} // verus!
