use vstd::prelude::*;
use crate::store::clone_opt_string;
use crate::strutil::{
    contains_str, lower_seq, seq_contains_seq, seq_le, str_eq, str_lt, to_ascii_lower,
};

verus! {

/// One hit of the search pipeline. Scores are integer rank points: the base
/// score the text index assigns plus the rule-based boosts below.
pub struct SearchResult {
    pub result_id: String,
    pub symbol_id: Option<String>,
    pub symbol_stable_id: Option<String>,
    pub result_type: String,
    pub path: String,
    pub line_start: u32,
    pub line_end: u32,
    pub kind: Option<String>,
    pub name: Option<String>,
    pub qualified_name: Option<String>,
    pub language: String,
    pub signature: Option<String>,
    pub visibility: Option<String>,
    pub score: i64,
    pub snippet: Option<String>,
}

/// One hit of the locate pipeline.
pub struct LocateResult {
    pub symbol_id: String,
    pub symbol_stable_id: String,
    pub path: String,
    pub line_start: u32,
    pub line_end: u32,
    pub kind: String,
    pub name: String,
    pub qualified_name: String,
    pub signature: Option<String>,
    pub language: String,
    pub visibility: Option<String>,
    pub score: i64,
}

/// Scoring components recorded per result when explanations are on.
pub struct RankingReasons {
    pub result_index: usize,
    pub exact_match_boost: i64,
    pub qualified_name_boost: i64,
    pub path_affinity: i64,
    pub definition_boost: i64,
    pub kind_match: i64,
    pub bm25_score: i64,
    pub final_score: i64,
}

/// The reduced projection emitted at the `basic` explanation level.
pub struct BasicRankingReasons {
    pub result_index: usize,
    pub exact_match: i64,
    pub path_boost: i64,
    pub semantic_similarity: i64,
    pub final_score: i64,
}

impl SearchResult {
    /// A field-for-field copy of the value.
    pub fn duplicate(&self) -> (r: SearchResult)
        ensures
            r == *self,
    {
        SearchResult {
            result_id: self.result_id.clone(),
            symbol_id: clone_opt_string(&self.symbol_id),
            symbol_stable_id: clone_opt_string(&self.symbol_stable_id),
            result_type: self.result_type.clone(),
            path: self.path.clone(),
            line_start: self.line_start,
            line_end: self.line_end,
            kind: clone_opt_string(&self.kind),
            name: clone_opt_string(&self.name),
            qualified_name: clone_opt_string(&self.qualified_name),
            language: self.language.clone(),
            signature: clone_opt_string(&self.signature),
            visibility: clone_opt_string(&self.visibility),
            score: self.score,
            snippet: clone_opt_string(&self.snippet),
        }
    }
}

impl LocateResult {
    /// A field-for-field copy of the value.
    pub fn duplicate(&self) -> (r: LocateResult)
        ensures
            r == *self,
    {
        LocateResult {
            symbol_id: self.symbol_id.clone(),
            symbol_stable_id: self.symbol_stable_id.clone(),
            path: self.path.clone(),
            line_start: self.line_start,
            line_end: self.line_end,
            kind: self.kind.clone(),
            name: self.name.clone(),
            qualified_name: self.qualified_name.clone(),
            signature: clone_opt_string(&self.signature),
            language: self.language.clone(),
            visibility: clone_opt_string(&self.visibility),
            score: self.score,
        }
    }
}

impl RankingReasons {
    /// A field-for-field copy of the value.
    pub fn duplicate(&self) -> (r: RankingReasons)
        ensures
            r == *self,
    {
        RankingReasons {
            result_index: self.result_index,
            exact_match_boost: self.exact_match_boost,
            qualified_name_boost: self.qualified_name_boost,
            path_affinity: self.path_affinity,
            definition_boost: self.definition_boost,
            kind_match: self.kind_match,
            bm25_score: self.bm25_score,
            final_score: self.final_score,
        }
    }
}

// ---------------------------------------------------------------------------
// Rule-based reranking.
// ---------------------------------------------------------------------------

/// The boost a result earns against the lower-cased query: exact name match,
/// qualified-name containment, definition preference, and path affinity.
pub open spec fn boost_of(r: SearchResult, ql: Seq<char>) -> int {
    (if r.name is Some && lower_seq(r.name->0@) == ql {
        5int
    } else {
        0int
    }) + (if r.qualified_name is Some && seq_contains_seq(lower_seq(r.qualified_name->0@), ql) {
        2int
    } else {
        0int
    }) + (if r.result_type@ == "symbol"@ {
        1int
    } else {
        0int
    }) + (if seq_contains_seq(lower_seq(r.path@), ql) {
        1int
    } else {
        0int
    })
}

/// The score after boosting, saturating at the top of the range.
pub open spec fn boosted_score(r: SearchResult, ql: Seq<char>) -> i64 {
    if r.score + boost_of(r, ql) <= i64::MAX {
        (r.score + boost_of(r, ql)) as i64
    } else {
        i64::MAX
    }
}

/// The result with its boost applied; every other field is kept.
pub open spec fn boosted(r: SearchResult, ql: Seq<char>) -> SearchResult {
    SearchResult { score: boosted_score(r, ql), ..r }
}

/// `a` may stand at or before `b`: higher score first, ties broken by
/// ascending `result_id`.
pub open spec fn rank_le(a: SearchResult, b: SearchResult) -> bool {
    a.score > b.score || (a.score == b.score && seq_le(a.result_id@, b.result_id@))
}

fn rank_le_exec(a: &SearchResult, b: &SearchResult) -> (r: bool)
    ensures
        r == rank_le(*a, *b),
{
    if a.score > b.score {
        true
    } else if a.score == b.score {
        if str_eq(a.result_id.as_str(), b.result_id.as_str()) {
            true
        } else {
            str_lt(a.result_id.as_str(), b.result_id.as_str())
        }
    } else {
        false
    }
}

proof fn lemma_rank_le_total(a: SearchResult, b: SearchResult)
    ensures
        rank_le(a, b) || rank_le(b, a),
{
    if a.score == b.score {
        crate::store::lemma_seq_le_total(a.result_id@, b.result_id@);
    }
}

proof fn lemma_rank_le_trans(a: SearchResult, b: SearchResult, c: SearchResult)
    requires
        rank_le(a, b),
        rank_le(b, c),
    ensures
        rank_le(a, c),
{
    if a.score == b.score && b.score == c.score {
        crate::store::lemma_seq_le_trans(a.result_id@, b.result_id@, c.result_id@);
    }
}

fn apply_boost(r: &SearchResult, query_lower: &str) -> (out: SearchResult)
    ensures
        out == boosted(*r, query_lower@),
{
    let mut b: i64 = 0;
    match &r.name {
        Option::Some(n) => {
            let nl = to_ascii_lower(n.as_str());
            if str_eq(nl.as_str(), query_lower) {
                b = b + 5;
            }
        },
        Option::None => {},
    }
    match &r.qualified_name {
        Option::Some(q) => {
            let qlo = to_ascii_lower(q.as_str());
            if contains_str(qlo.as_str(), query_lower) {
                b = b + 2;
            }
        },
        Option::None => {},
    }
    if str_eq(r.result_type.as_str(), "symbol") {
        b = b + 1;
    }
    let plo = to_ascii_lower(r.path.as_str());
    if contains_str(plo.as_str(), query_lower) {
        b = b + 1;
    }
    assert(b == boost_of(*r, query_lower@));
    let mut out = r.duplicate();
    if out.score <= i64::MAX - b {
        out.score = out.score + b;
    } else {
        out.score = i64::MAX;
    }
    out
}

/// Apply rule-based reranking boosts and re-sort: score descending, with a
/// stable tiebreak on ascending `result_id`.
pub fn rerank(results: &mut Vec<SearchResult>, query: &str)
    ensures
        final(results)@.len() == old(results)@.len(),
        final(results)@.to_multiset() == old(results)@.map_values(
            |r: SearchResult| boosted(r, lower_seq(query@)),
        ).to_multiset(),
        forall|i: int|
            0 <= i < final(results)@.len() - 1 ==> rank_le(
                #[trigger] final(results)@[i],
                final(results)@[i + 1],
            ),
{
    let query_lower = to_ascii_lower(query);
    let n = results.len();
    let mut work: Vec<SearchResult> = Vec::new();
    let mut i: usize = 0;
    while i < n
        invariant
            n == results@.len(),
            *results == *old(results),
            0 <= i <= n,
            query_lower@ == lower_seq(query@),
            work@ == results@.subrange(0, i as int).map_values(
                |r: SearchResult| boosted(r, lower_seq(query@)),
            ),
        decreases n - i,
    {
        let b = apply_boost(&results[i], query_lower.as_str());
        work.push(b);
        assert(results@.subrange(0, i + 1) =~= results@.subrange(0, i as int).push(
            results@[i as int],
        ));
        assert(work@ =~= results@.subrange(0, i + 1).map_values(
            |r: SearchResult| boosted(r, lower_seq(query@)),
        ));
        i = i + 1;
    }
    assert(results@.subrange(0, n as int) =~= results@);
    let ghost all = old(results)@.map_values(|r: SearchResult| boosted(r, lower_seq(query@)));
    assert(work@ == all);
    let mut out: Vec<SearchResult> = Vec::new();
    proof {
        out@.to_multiset_ensures();
        assert forall|x: SearchResult| out@.to_multiset().count(x) == 0 by {
            if out@.to_multiset().count(x) > 0 {
                assert(out@.contains(x));
            }
        }
        assert(out@.to_multiset().add(work@.to_multiset()) =~= all.to_multiset());
    }
    while work.len() > 0
        invariant
            out@.to_multiset().add(work@.to_multiset()) == all.to_multiset(),
            out@.len() + work@.len() == all.len(),
            forall|k: int|
                0 <= k < out@.len() - 1 ==> rank_le(#[trigger] out@[k], out@[k + 1]),
            forall|k: int, l: int|
                0 <= k < out@.len() && 0 <= l < work@.len() ==> rank_le(
                    #[trigger] out@[k],
                    #[trigger] work@[l],
                ),
        decreases work@.len(),
    {
        let mut mx: usize = 0;
        let mut t: usize = 1;
        while t < work.len()
            invariant
                1 <= work@.len(),
                0 <= mx < work@.len(),
                1 <= t <= work@.len(),
                forall|k: int| 0 <= k < t ==> rank_le(work@[mx as int], #[trigger] work@[k]),
            decreases work@.len() - t,
        {
            if !rank_le_exec(&work[mx], &work[t]) {
                proof {
                    lemma_rank_le_total(work@[mx as int], work@[t as int]);
                    assert forall|k: int| 0 <= k < t + 1 implies rank_le(
                        work@[t as int],
                        #[trigger] work@[k],
                    ) by {
                        if k < t {
                            lemma_rank_le_trans(work@[t as int], work@[mx as int], work@[k]);
                        } else {
                            lemma_rank_le_total(work@[t as int], work@[t as int]);
                        }
                    }
                }
                mx = t;
            }
            t = t + 1;
        }
        let ghost old_work = work@;
        let ghost old_out = out@;
        let item = work.remove(mx);
        out.push(item);
        proof {
            old_work.to_multiset_ensures();
            old_out.to_multiset_ensures();
            assert(work@.to_multiset() =~= old_work.to_multiset().remove(old_work[mx as int]));
            assert(out@.to_multiset() =~= old_out.to_multiset().insert(old_work[mx as int]));
            assert(out@.to_multiset().add(work@.to_multiset()) =~= old_out.to_multiset().add(
                old_work.to_multiset(),
            ));
            assert forall|k: int, l: int|
                0 <= k < out@.len() && 0 <= l < work@.len() implies rank_le(
                #[trigger] out@[k],
                #[trigger] work@[l],
            ) by {
                let w = if l < mx {
                    old_work[l]
                } else {
                    old_work[l + 1]
                };
                assert(work@[l] == w);
                if k < old_out.len() {
                    assert(rank_le(old_out[k], w));
                } else {
                    assert(out@[k] == old_work[mx as int]);
                }
            }
            assert forall|k: int| 0 <= k < out@.len() - 1 implies rank_le(
                #[trigger] out@[k],
                out@[k + 1],
            ) by {
                if k + 1 < old_out.len() {
                } else {
                    assert(out@[k + 1] == old_work[mx as int]);
                    assert(old_work.contains(old_work[mx as int]));
                }
            }
        }
    }
    proof {
        work@.to_multiset_ensures();
        assert forall|x: SearchResult| work@.to_multiset().count(x) == 0 by {
            if work@.to_multiset().count(x) > 0 {
                assert(work@.contains(x));
            }
        }
        assert(out@.to_multiset() =~= all.to_multiset());
    }
    *results = out;
}

/// The scoring components of one reranked row against the lower-cased query:
/// the boosts by their fixed rules, the final score as the row carries it,
/// and the base score as what remains once the boosts are taken off.
pub open spec fn reasons_of(r: SearchResult, ql: Seq<char>, idx: usize) -> RankingReasons {
    RankingReasons {
        result_index: idx,
        exact_match_boost: if r.name is Some && lower_seq(r.name->0@) == ql {
            5int as i64
        } else {
            0
        },
        qualified_name_boost: if r.qualified_name is Some && seq_contains_seq(
            lower_seq(r.qualified_name->0@),
            ql,
        ) {
            2int as i64
        } else {
            0
        },
        path_affinity: if seq_contains_seq(lower_seq(r.path@), ql) {
            1int as i64
        } else {
            0
        },
        definition_boost: if r.result_type@ == "symbol"@ {
            1int as i64
        } else {
            0
        },
        kind_match: 0,
        bm25_score: if r.score - boost_of(r, ql) >= i64::MIN {
            (r.score - boost_of(r, ql)) as i64
        } else {
            r.score
        },
        final_score: r.score,
    }
}

/// The scoring components of one reranked row, recovered from its fields: the
/// row's score already carries the boosts, so the base score is what remains
/// after they are taken off.
pub fn reasons_for(r: &SearchResult, query: &str, idx: usize) -> (out: RankingReasons)
    ensures
        out == reasons_of(*r, lower_seq(query@), idx),
{
    let ql = to_ascii_lower(query);
    let query_lower = ql.as_str();
    let exact: i64 = match &r.name {
        Option::Some(n) => {
            let nl = to_ascii_lower(n.as_str());
            if str_eq(nl.as_str(), query_lower) {
                5
            } else {
                0
            }
        },
        Option::None => 0,
    };
    let qual: i64 = match &r.qualified_name {
        Option::Some(q) => {
            let qlo = to_ascii_lower(q.as_str());
            if contains_str(qlo.as_str(), query_lower) {
                2
            } else {
                0
            }
        },
        Option::None => 0,
    };
    let definition: i64 = if str_eq(r.result_type.as_str(), "symbol") {
        1
    } else {
        0
    };
    let plo = to_ascii_lower(r.path.as_str());
    let path_aff: i64 = if contains_str(plo.as_str(), query_lower) {
        1
    } else {
        0
    };
    let total_boost = exact + qual + definition + path_aff;
    proof {
        assert(total_boost as int == boost_of(*r, query_lower@));
    }
    let base: i64 = if r.score >= i64::MIN + total_boost {
        r.score - total_boost
    } else {
        r.score
    };
    RankingReasons {
        result_index: idx,
        exact_match_boost: exact,
        qualified_name_boost: qual,
        path_affinity: path_aff,
        definition_boost: definition,
        kind_match: 0,
        bm25_score: base,
        final_score: r.score,
    }
}

/// The reduced per-result rows the `basic` explanation level reports:
/// `semantic_similarity` carries the base score and `path_boost` the path
/// affinity component.
pub open spec fn basic_of(r: RankingReasons) -> BasicRankingReasons {
    BasicRankingReasons {
        result_index: r.result_index,
        exact_match: r.exact_match_boost,
        path_boost: r.path_affinity,
        semantic_similarity: r.bm25_score,
        final_score: r.final_score,
    }
}

/// Project full ranking reasons to the `basic` shape, row for row.
pub fn to_basic_ranking_reasons(reasons: &Vec<RankingReasons>) -> (r: Vec<BasicRankingReasons>)
    ensures
        r@ == reasons@.map_values(|x: RankingReasons| basic_of(x)),
{
    let n = reasons.len();
    let mut out: Vec<BasicRankingReasons> = Vec::new();
    let mut i: usize = 0;
    while i < n
        invariant
            n == reasons@.len(),
            0 <= i <= n,
            out@ == reasons@.subrange(0, i as int).map_values(|x: RankingReasons| basic_of(x)),
        decreases n - i,
    {
        let x = &reasons[i];
        out.push(BasicRankingReasons {
            result_index: x.result_index,
            exact_match: x.exact_match_boost,
            path_boost: x.path_affinity,
            semantic_similarity: x.bm25_score,
            final_score: x.final_score,
        });
        assert(reasons@.subrange(0, i + 1) =~= reasons@.subrange(0, i as int).push(
            reasons@[i as int],
        ));
        assert(out@ =~= reasons@.subrange(0, i + 1).map_values(
            |x: RankingReasons| basic_of(x),
        ));
        i = i + 1;
    }
    assert(reasons@.subrange(0, n as int) =~= reasons@);
    out
}

} // verus!
