use vstd::prelude::*;
use crate::hashing::{blake3_hex, content_hash_hex};
use crate::strutil::{seq_le, seq_lt, str_eq, str_lt};
use crate::types::{BranchState, FileRecord, IndexJob, Project, SymbolRecord};

verus! {

// ---------------------------------------------------------------------------
// Key predicates.
// ---------------------------------------------------------------------------

pub open spec fn bs_key_is(e: BranchState, repo: Seq<char>, ref_name: Seq<char>) -> bool {
    e.repo@ == repo && e.ref_name@ == ref_name
}

pub open spec fn sym_key_is(
    e: SymbolRecord,
    repo: Seq<char>,
    ref_name: Seq<char>,
    path: Seq<char>,
    symbol_id: Seq<char>,
) -> bool {
    e.repo@ == repo && e.ref_name@ == ref_name && e.path@ == path && e.symbol_id@ == symbol_id
}

pub open spec fn sym_scope_is(e: SymbolRecord, repo: Seq<char>, ref_name: Seq<char>) -> bool {
    e.repo@ == repo && e.ref_name@ == ref_name
}

pub open spec fn sym_file_is(
    e: SymbolRecord,
    repo: Seq<char>,
    ref_name: Seq<char>,
    path: Seq<char>,
) -> bool {
    e.repo@ == repo && e.ref_name@ == ref_name && e.path@ == path
}

pub open spec fn file_key_is(
    e: FileRecord,
    repo: Seq<char>,
    ref_name: Seq<char>,
    path: Seq<char>,
) -> bool {
    e.repo@ == repo && e.ref_name@ == ref_name && e.path@ == path
}

pub open spec fn file_scope_is(e: FileRecord, repo: Seq<char>, ref_name: Seq<char>) -> bool {
    e.repo@ == repo && e.ref_name@ == ref_name
}

/// A job in a non-terminal status.
pub open spec fn job_active(j: IndexJob) -> bool {
    j.status@ == "queued"@ || j.status@ == "running"@
}

// ---------------------------------------------------------------------------
// Small facts about `Seq::filter`, which vstd keeps opaque.
// ---------------------------------------------------------------------------

pub proof fn lemma_filter_empty<A>(s: Seq<A>, p: spec_fn(A) -> bool)
    requires
        s.len() == 0,
    ensures
        s.filter(p) == Seq::<A>::empty(),
{
    reveal(Seq::filter);
    assert(s.filter(p) =~= Seq::<A>::empty());
}

pub proof fn lemma_filter_step<A>(s: Seq<A>, p: spec_fn(A) -> bool)
    requires
        s.len() > 0,
    ensures
        s.filter(p) == (if p(s.last()) {
            s.drop_last().filter(p).push(s.last())
        } else {
            s.drop_last().filter(p)
        }),
{
    reveal(Seq::filter);
}

pub proof fn lemma_filter_subset<A>(s: Seq<A>, p: spec_fn(A) -> bool)
    ensures
        forall|x: A| #[trigger] s.filter(p).contains(x) ==> s.contains(x),
    decreases s.len(),
{
    reveal(Seq::filter);
    if s.len() > 0 {
        lemma_filter_subset(s.drop_last(), p);
        assert forall|x: A| #[trigger] s.filter(p).contains(x) implies s.contains(x) by {
            let f = s.filter(p);
            let fd = s.drop_last().filter(p);
            if p(s.last()) && x == s.last() {
                assert(s[s.len() - 1] == x);
            } else {
                let k = choose|k: int| 0 <= k < f.len() && f[k] == x;
                if p(s.last()) {
                    if k < fd.len() {
                        assert(fd[k] == x);
                        assert(fd.contains(x));
                    } else {
                        assert(x == s.last());
                    }
                } else {
                    assert(fd.contains(x));
                }
                if fd.contains(x) {
                    assert(s.drop_last().contains(x));
                    let m = choose|m: int|
                        0 <= m < s.drop_last().len() && s.drop_last()[m] == x;
                    assert(s[m] == x);
                }
            }
        }
    }
}

// ---------------------------------------------------------------------------
// The relational store: the tables of `state.db`, modelled as sequences whose
// well-formedness invariant is what the schema's unique keys enforced.
// ---------------------------------------------------------------------------

/// One row of the symbol_relations table: the record's columns plus the
/// content hash the writer derives from the symbol body.
pub struct SymbolRow {
    pub rec: SymbolRecord,
    pub content_hash: String,
}

/// The record as the table stores it: every column but the body itself.
pub open spec fn stored_sym(sym: SymbolRecord) -> SymbolRecord {
    SymbolRecord { content: Option::None, ..sym }
}

/// The hash column derived from a symbol's body.
pub open spec fn sym_hash(sym: SymbolRecord) -> Seq<char> {
    match sym.content {
        Option::Some(c) => blake3_hex(vstd::utf8::encode_utf8(c@)),
        Option::None => Seq::empty(),
    }
}

pub struct StateDb {
    pub branch_states: Vec<BranchState>,
    pub symbols: Vec<SymbolRow>,
    pub jobs: Vec<IndexJob>,
    pub projects: Vec<Project>,
    pub files: Vec<FileRecord>,
}

impl StateDb {
    /// Each table's primary key identifies at most one row.
    pub open spec fn wf(&self) -> bool {
        &&& (forall|i: int, j: int|
            #![trigger self.branch_states@[i], self.branch_states@[j]]
            0 <= i < j < self.branch_states@.len() ==> !bs_key_is(
                self.branch_states@[i],
                self.branch_states@[j].repo@,
                self.branch_states@[j].ref_name@,
            ))
        &&& (forall|i: int, j: int|
            #![trigger self.symbols@[i], self.symbols@[j]]
            0 <= i < j < self.symbols@.len() ==> !sym_key_is(
                self.symbols@[i].rec,
                self.symbols@[j].rec.repo@,
                self.symbols@[j].rec.ref_name@,
                self.symbols@[j].rec.path@,
                self.symbols@[j].rec.symbol_id@,
            ))
        &&& (forall|i: int, j: int|
            0 <= i < j < self.jobs@.len() ==> #[trigger] self.jobs@[i].job_id@
                != #[trigger] self.jobs@[j].job_id@)
        &&& (forall|i: int, j: int|
            0 <= i < j < self.projects@.len() ==> #[trigger] self.projects@[i].project_id@
                != #[trigger] self.projects@[j].project_id@)
        &&& (forall|i: int, j: int|
            #![trigger self.files@[i], self.files@[j]]
            0 <= i < j < self.files@.len() ==> !file_key_is(
                self.files@[i],
                self.files@[j].repo@,
                self.files@[j].ref_name@,
                self.files@[j].path@,
            ))
    }

    pub fn new() -> (r: StateDb)
        ensures
            r.wf(),
            r.branch_states@.len() == 0,
            r.symbols@.len() == 0,
            r.jobs@.len() == 0,
            r.projects@.len() == 0,
            r.files@.len() == 0,
    {
        StateDb {
            branch_states: Vec::new(),
            symbols: Vec::new(),
            jobs: Vec::new(),
            projects: Vec::new(),
            files: Vec::new(),
        }
    }

    // -----------------------------------------------------------------------
    // branch_state
    // -----------------------------------------------------------------------

    /// Insert or replace the row keyed `(entry.repo, entry.ref_name)`.
    pub fn upsert_branch_state(&mut self, entry: &BranchState)
        requires
            old(self).wf(),
        ensures
            final(self).wf(),
            final(self).symbols == old(self).symbols,
            final(self).jobs == old(self).jobs,
            final(self).projects == old(self).projects,
            final(self).files == old(self).files,
            bs_contains_key(final(self).branch_states@, entry.repo@, entry.ref_name@),
            forall|j: int|
                0 <= j < final(self).branch_states@.len() && bs_key_is(
                    #[trigger] final(self).branch_states@[j],
                    entry.repo@,
                    entry.ref_name@,
                ) ==> final(self).branch_states@[j] == *entry,
            (if bs_contains_key(old(self).branch_states@, entry.repo@, entry.ref_name@) {
                final(self).branch_states@.len() == old(self).branch_states@.len()
            } else {
                final(self).branch_states@ == old(self).branch_states@.push(*entry)
            }),
            forall|j: int|
                0 <= j < old(self).branch_states@.len() && !bs_key_is(
                    #[trigger] old(self).branch_states@[j],
                    entry.repo@,
                    entry.ref_name@,
                ) ==> final(self).branch_states@[j] == old(self).branch_states@[j],
            forall|j: int|
                0 <= j < old(self).branch_states@.len() && bs_key_is(
                    #[trigger] old(self).branch_states@[j],
                    entry.repo@,
                    entry.ref_name@,
                ) ==> final(self).branch_states@[j] == *entry,
    {
        let n = self.branch_states.len();
        let mut i: usize = 0;
        while i < n
            invariant
                *self == *old(self),
                old(self).wf(),
                n == self.branch_states@.len(),
                0 <= i <= n,
                forall|j: int|
                    0 <= j < i ==> !bs_key_is(
                        #[trigger] self.branch_states@[j],
                        entry.repo@,
                        entry.ref_name@,
                    ),
        decreases n - i,
        {
            if str_eq(self.branch_states[i].repo.as_str(), entry.repo.as_str()) && str_eq(
                self.branch_states[i].ref_name.as_str(),
                entry.ref_name.as_str(),
            ) {
                self.branch_states.set(i, entry.duplicate());
                assert(bs_key_is(self.branch_states@[i as int], entry.repo@, entry.ref_name@));
                return ;
            }
            i = i + 1;
        }
        self.branch_states.push(entry.duplicate());
        assert(bs_key_is(self.branch_states@[n as int], entry.repo@, entry.ref_name@));
    }

    /// The row keyed `(repo, ref_name)`, if any.
    pub fn get_branch_state(&self, repo: &str, ref_name: &str) -> (r: Option<BranchState>)
        requires
            self.wf(),
        ensures
            match r {
                Option::Some(e) => exists|j: int|
                    0 <= j < self.branch_states@.len() && #[trigger] self.branch_states@[j] == e
                        && bs_key_is(e, repo@, ref_name@),
                Option::None => !bs_contains_key(self.branch_states@, repo@, ref_name@),
            },
    {
        let n = self.branch_states.len();
        let mut i: usize = 0;
        while i < n
            invariant
                n == self.branch_states@.len(),
                0 <= i <= n,
                forall|j: int|
                    0 <= j < i ==> !bs_key_is(
                        #[trigger] self.branch_states@[j],
                        repo@,
                        ref_name@,
                    ),
        decreases n - i,
        {
            if str_eq(self.branch_states[i].repo.as_str(), repo) && str_eq(
                self.branch_states[i].ref_name.as_str(),
                ref_name,
            ) {
                return Option::Some(self.branch_states[i].duplicate());
            }
            i = i + 1;
        }
        Option::None
    }

    /// Delete the row keyed `(repo, ref_name)`; absent keys are a no-op.
    pub fn delete_branch_state(&mut self, repo: &str, ref_name: &str)
        requires
            old(self).wf(),
        ensures
            final(self).wf(),
            final(self).symbols == old(self).symbols,
            final(self).jobs == old(self).jobs,
            final(self).projects == old(self).projects,
            final(self).files == old(self).files,
            final(self).branch_states@ == old(self).branch_states@.filter(
                |e: BranchState| !bs_key_is(e, repo@, ref_name@),
            ),
    {
        let n = self.branch_states.len();
        let mut out: Vec<BranchState> = Vec::new();
        let mut i: usize = 0;
        proof {
            lemma_filter_empty(
                self.branch_states@.subrange(0, 0),
                |e: BranchState| !bs_key_is(e, repo@, ref_name@),
            );
        }
        while i < n
            invariant
                *self == *old(self),
                old(self).wf(),
                n == self.branch_states@.len(),
                0 <= i <= n,
                out@ == self.branch_states@.subrange(0, i as int).filter(
                    |e: BranchState| !bs_key_is(e, repo@, ref_name@),
                ),
        decreases n - i,
        {
            let keep = !(str_eq(self.branch_states[i].repo.as_str(), repo) && str_eq(
                self.branch_states[i].ref_name.as_str(),
                ref_name,
            ));
            if keep {
                out.push(self.branch_states[i].duplicate());
            }
            proof {
                let p = |e: BranchState| !bs_key_is(e, repo@, ref_name@);
                let s = self.branch_states@.subrange(0, i + 1);
                assert(s.drop_last() =~= self.branch_states@.subrange(0, i as int));
                assert(s.last() == self.branch_states@[i as int]);
                lemma_filter_step(s, p);
            }
            i = i + 1;
        }
        assert(self.branch_states@.subrange(0, n as int) =~= self.branch_states@);
        self.branch_states = out;
        proof {
            let p = |e: BranchState| !bs_key_is(e, repo@, ref_name@);
            let s = old(self).branch_states@;
            assert forall|a: int, b: int|
                0 <= a < b < final(self).branch_states@.len() implies !bs_key_is(
                final(self).branch_states@[a],
                final(self).branch_states@[b].repo@,
                final(self).branch_states@[b].ref_name@,
            ) by {
                lemma_filter_still_unique_bs(s, p, a, b);
            }
        }
    }

    /// Every row of the given repo, in table order.
    pub fn list_branch_states(&self, repo: &str) -> (r: Vec<BranchState>)
        requires
            self.wf(),
        ensures
            r@ == self.branch_states@.filter(|e: BranchState| e.repo@ == repo@),
    {
        let n = self.branch_states.len();
        let mut out: Vec<BranchState> = Vec::new();
        let mut i: usize = 0;
        proof {
            lemma_filter_empty(
                self.branch_states@.subrange(0, 0),
                |e: BranchState| e.repo@ == repo@,
            );
        }
        while i < n
            invariant
                n == self.branch_states@.len(),
                0 <= i <= n,
                out@ == self.branch_states@.subrange(0, i as int).filter(
                    |e: BranchState| e.repo@ == repo@,
                ),
        decreases n - i,
        {
            if str_eq(self.branch_states[i].repo.as_str(), repo) {
                out.push(self.branch_states[i].duplicate());
            }
            proof {
                let p = |e: BranchState| e.repo@ == repo@;
                let s = self.branch_states@.subrange(0, i + 1);
                assert(s.drop_last() =~= self.branch_states@.subrange(0, i as int));
                assert(s.last() == self.branch_states@[i as int]);
                lemma_filter_step(s, p);
            }
            i = i + 1;
        }
        assert(self.branch_states@.subrange(0, n as int) =~= self.branch_states@);
        out
    }
}

pub open spec fn bs_contains_key(s: Seq<BranchState>, repo: Seq<char>, ref_name: Seq<char>) -> bool {
    exists|j: int| 0 <= j < s.len() && bs_key_is(#[trigger] s[j], repo, ref_name)
}

proof fn lemma_filter_still_unique_bs(
    s: Seq<BranchState>,
    p: spec_fn(BranchState) -> bool,
    a: int,
    b: int,
)
    requires
        forall|i: int, j: int|
            #![trigger s[i], s[j]]
            0 <= i < j < s.len() ==> !bs_key_is(s[i], s[j].repo@, s[j].ref_name@),
        0 <= a < b < s.filter(p).len(),
    ensures
        !bs_key_is(s.filter(p)[a], s.filter(p)[b].repo@, s.filter(p)[b].ref_name@),
    decreases s.len(),
{
    if s.len() > 0 {
        let f = s.filter(p);
        let fd = s.drop_last().filter(p);
        lemma_filter_step(s, p);
        if p(s.last()) {
            if b < fd.len() {
                lemma_filter_still_unique_bs(s.drop_last(), p, a, b);
            } else {
                assert(f[b] == s.last());
                assert(f[a] == fd[a]);
                lemma_filter_subset(s.drop_last(), p);
                assert(fd.contains(fd[a]));
                assert(s.drop_last().contains(fd[a]));
                let k = choose|k: int| 0 <= k < s.drop_last().len() && s.drop_last()[k] == fd[a];
                assert(s[k] == fd[a]);
                assert(!bs_key_is(s[k], s[s.len() - 1].repo@, s[s.len() - 1].ref_name@));
            }
        } else {
            lemma_filter_still_unique_bs(s.drop_last(), p, a, b);
        }
    }
}


impl StateDb {
    // -----------------------------------------------------------------------
    // symbol_relations
    // -----------------------------------------------------------------------

    /// Insert or replace the row keyed `(repo, ref_name, path, symbol_id)`.
    /// The stored row drops the body and keeps its BLAKE3 hash instead.
    pub fn insert_symbol(&mut self, sym: &SymbolRecord)
        requires
            old(self).wf(),
        ensures
            final(self).wf(),
            final(self).branch_states == old(self).branch_states,
            final(self).jobs == old(self).jobs,
            final(self).projects == old(self).projects,
            final(self).files == old(self).files,
            sym_table_contains_key(
                final(self).symbols@,
                sym.repo@,
                sym.ref_name@,
                sym.path@,
                sym.symbol_id@,
            ),
            forall|j: int|
                0 <= j < final(self).symbols@.len() && sym_key_is(
                    (#[trigger] final(self).symbols@[j]).rec,
                    sym.repo@,
                    sym.ref_name@,
                    sym.path@,
                    sym.symbol_id@,
                ) ==> final(self).symbols@[j].rec == stored_sym(*sym)
                    && final(self).symbols@[j].content_hash@ == sym_hash(*sym),
            (if sym_table_contains_key(
                old(self).symbols@,
                sym.repo@,
                sym.ref_name@,
                sym.path@,
                sym.symbol_id@,
            ) {
                final(self).symbols@.len() == old(self).symbols@.len()
            } else {
                final(self).symbols@.len() == old(self).symbols@.len() + 1
            }),
            forall|j: int|
                0 <= j < old(self).symbols@.len() && !sym_key_is(
                    (#[trigger] old(self).symbols@[j]).rec,
                    sym.repo@,
                    sym.ref_name@,
                    sym.path@,
                    sym.symbol_id@,
                ) ==> final(self).symbols@[j] == old(self).symbols@[j],
    {
        let hash: String = match &sym.content {
            Option::Some(c) => content_hash_hex(c.as_str()),
            Option::None => String::new(),
        };
        assert(hash@ == sym_hash(*sym));
        let n = self.symbols.len();
        let mut i: usize = 0;
        while i < n
            invariant
                *self == *old(self),
                old(self).wf(),
                n == self.symbols@.len(),
                0 <= i <= n,
                hash@ == sym_hash(*sym),
                forall|j: int|
                    0 <= j < i ==> !sym_key_is(
                        (#[trigger] self.symbols@[j]).rec,
                        sym.repo@,
                        sym.ref_name@,
                        sym.path@,
                        sym.symbol_id@,
                    ),
            decreases n - i,
        {
            if str_eq(self.symbols[i].rec.repo.as_str(), sym.repo.as_str()) && str_eq(
                self.symbols[i].rec.ref_name.as_str(),
                sym.ref_name.as_str(),
            ) && str_eq(self.symbols[i].rec.path.as_str(), sym.path.as_str()) && str_eq(
                self.symbols[i].rec.symbol_id.as_str(),
                sym.symbol_id.as_str(),
            ) {
                let mut stored = sym.duplicate();
                stored.content = Option::None;
                assert(stored == stored_sym(*sym));
                let row = SymbolRow { rec: stored, content_hash: hash.clone() };
                self.symbols.set(i, row);
                assert(sym_key_is(
                    self.symbols@[i as int].rec,
                    sym.repo@,
                    sym.ref_name@,
                    sym.path@,
                    sym.symbol_id@,
                ));
                return ;
            }
            i = i + 1;
        }
        let mut stored = sym.duplicate();
        stored.content = Option::None;
        assert(stored == stored_sym(*sym));
        let row = SymbolRow { rec: stored, content_hash: hash };
        self.symbols.push(row);
        assert(sym_key_is(
            self.symbols@[n as int].rec,
            sym.repo@,
            sym.ref_name@,
            sym.path@,
            sym.symbol_id@,
        ));
    }

    /// The rows of `(repo, ref_name, path)` whose line range overlaps
    /// `[line_start, line_end]`, in table order.
    pub fn find_symbols_by_location(
        &self,
        repo: &str,
        ref_name: &str,
        path: &str,
        line_start: u32,
        line_end: u32,
    ) -> (r: Vec<SymbolRecord>)
        requires
            self.wf(),
        ensures
            r@ == self.symbols@.filter(
                |row: SymbolRow|
                    sym_file_is(row.rec, repo@, ref_name@, path@) && row.rec.line_start <= line_end
                        && row.rec.line_end >= line_start,
            ).map_values(|row: SymbolRow| row.rec),
    {
        let ghost p = |row: SymbolRow|
            sym_file_is(row.rec, repo@, ref_name@, path@) && row.rec.line_start <= line_end
                && row.rec.line_end >= line_start;
        let n = self.symbols.len();
        let mut out: Vec<SymbolRecord> = Vec::new();
        let mut i: usize = 0;
        proof {
            lemma_filter_empty(self.symbols@.subrange(0, 0), p);
            assert(out@ =~= self.symbols@.subrange(0, 0).filter(p).map_values(
                |row: SymbolRow| row.rec,
            ));
        }
        while i < n
            invariant
                n == self.symbols@.len(),
                0 <= i <= n,
                out@ == self.symbols@.subrange(0, i as int).filter(p).map_values(
                    |row: SymbolRow| row.rec,
                ),
                p == (|row: SymbolRow|
                    sym_file_is(row.rec, repo@, ref_name@, path@) && row.rec.line_start <= line_end
                        && row.rec.line_end >= line_start),
            decreases n - i,
        {
            let row = &self.symbols[i];
            if str_eq(row.rec.repo.as_str(), repo) && str_eq(row.rec.ref_name.as_str(), ref_name)
                && str_eq(row.rec.path.as_str(), path) && row.rec.line_start <= line_end
                && row.rec.line_end >= line_start {
                out.push(row.rec.duplicate());
            }
            proof {
                let sseq = self.symbols@.subrange(0, i + 1);
                assert(sseq.drop_last() =~= self.symbols@.subrange(0, i as int));
                assert(sseq.last() == self.symbols@[i as int]);
                lemma_filter_step(sseq, p);
                if p(sseq.last()) {
                    assert(out@ =~= sseq.filter(p).map_values(|row: SymbolRow| row.rec));
                } else {
                    assert(out@ =~= sseq.filter(p).map_values(|row: SymbolRow| row.rec));
                }
            }
            i = i + 1;
        }
        assert(self.symbols@.subrange(0, n as int) =~= self.symbols@);
        out
    }

    /// Delete every row keyed by `(repo, ref_name, path)`.
    pub fn delete_symbols_for_file(&mut self, repo: &str, ref_name: &str, path: &str)
        requires
            old(self).wf(),
        ensures
            final(self).wf(),
            final(self).branch_states == old(self).branch_states,
            final(self).jobs == old(self).jobs,
            final(self).projects == old(self).projects,
            final(self).files == old(self).files,
            final(self).symbols@ == old(self).symbols@.filter(
                |row: SymbolRow| !sym_file_is(row.rec, repo@, ref_name@, path@),
            ),
    {
        let ghost p = |row: SymbolRow| !sym_file_is(row.rec, repo@, ref_name@, path@);
        let n = self.symbols.len();
        let mut out: Vec<SymbolRow> = Vec::new();
        let mut i: usize = 0;
        proof {
            lemma_filter_empty(self.symbols@.subrange(0, 0), p);
        }
        while i < n
            invariant
                *self == *old(self),
                old(self).wf(),
                n == self.symbols@.len(),
                0 <= i <= n,
                out@ == self.symbols@.subrange(0, i as int).filter(p),
                p == (|row: SymbolRow| !sym_file_is(row.rec, repo@, ref_name@, path@)),
            decreases n - i,
        {
            let row = &self.symbols[i];
            let keep = !(str_eq(row.rec.repo.as_str(), repo) && str_eq(
                row.rec.ref_name.as_str(),
                ref_name,
            ) && str_eq(row.rec.path.as_str(), path));
            if keep {
                out.push(self.symbols[i].duplicate());
            }
            proof {
                let sseq = self.symbols@.subrange(0, i + 1);
                assert(sseq.drop_last() =~= self.symbols@.subrange(0, i as int));
                assert(sseq.last() == self.symbols@[i as int]);
                lemma_filter_step(sseq, p);
            }
            i = i + 1;
        }
        assert(self.symbols@.subrange(0, n as int) =~= self.symbols@);
        self.symbols = out;
        proof {
            let sseq = old(self).symbols@;
            assert forall|a: int, b: int|
                0 <= a < b < final(self).symbols@.len() implies !sym_key_is(
                final(self).symbols@[a].rec,
                final(self).symbols@[b].rec.repo@,
                final(self).symbols@[b].rec.ref_name@,
                final(self).symbols@[b].rec.path@,
                final(self).symbols@[b].rec.symbol_id@,
            ) by {
                lemma_filter_still_unique_sym(sseq, p, a, b);
            }
        }
    }

    /// How many rows `(repo, ref_name)` holds.
    pub fn symbol_count(&self, repo: &str, ref_name: &str) -> (r: u64)
        requires
            self.wf(),
        ensures
            r == self.symbols@.filter(
                |row: SymbolRow| sym_scope_is(row.rec, repo@, ref_name@),
            ).len(),
    {
        let ghost p = |row: SymbolRow| sym_scope_is(row.rec, repo@, ref_name@);
        let n = self.symbols.len();
        let mut count: u64 = 0;
        let mut i: usize = 0;
        proof {
            lemma_filter_empty(self.symbols@.subrange(0, 0), p);
        }
        while i < n
            invariant
                n == self.symbols@.len(),
                0 <= i <= n,
                count == self.symbols@.subrange(0, i as int).filter(p).len(),
                count <= i,
                p == (|row: SymbolRow| sym_scope_is(row.rec, repo@, ref_name@)),
            decreases n - i,
        {
            let row = &self.symbols[i];
            proof {
                let sseq = self.symbols@.subrange(0, i + 1);
                assert(sseq.drop_last() =~= self.symbols@.subrange(0, i as int));
                assert(sseq.last() == self.symbols@[i as int]);
                lemma_filter_step(sseq, p);
            }
            if str_eq(row.rec.repo.as_str(), repo) && str_eq(row.rec.ref_name.as_str(), ref_name) {
                count = count + 1;
            }
            i = i + 1;
        }
        assert(self.symbols@.subrange(0, n as int) =~= self.symbols@);
        count
    }

    // -----------------------------------------------------------------------
    // jobs
    // -----------------------------------------------------------------------

    /// Record a new job row; its id must be fresh.
    pub fn create_job(&mut self, job: &IndexJob)
        requires
            old(self).wf(),
            forall|j: int|
                0 <= j < old(self).jobs@.len() ==> (#[trigger] old(self).jobs@[j]).job_id@
                    != job.job_id@,
        ensures
            final(self).wf(),
            final(self).branch_states == old(self).branch_states,
            final(self).symbols == old(self).symbols,
            final(self).projects == old(self).projects,
            final(self).files == old(self).files,
            final(self).jobs@ == old(self).jobs@.push(*job),
    {
        self.jobs.push(job.duplicate());
    }

    /// The first job of the project in a non-terminal status, if any.
    pub fn get_active_job(&self, project_id: &str) -> (r: Option<IndexJob>)
        requires
            self.wf(),
        ensures
            match r {
                Option::Some(j) => exists|i: int|
                    0 <= i < self.jobs@.len() && #[trigger] self.jobs@[i] == j && j.project_id@
                        == project_id@ && job_active(j) && (forall|k: int|
                        0 <= k < i ==> !(#[trigger] self.jobs@[k].project_id@ == project_id@
                            && job_active(self.jobs@[k]))),
                Option::None => forall|k: int|
                    0 <= k < self.jobs@.len() ==> !(#[trigger] self.jobs@[k].project_id@
                        == project_id@ && job_active(self.jobs@[k])),
            },
    {
        let n = self.jobs.len();
        let mut i: usize = 0;
        while i < n
            invariant
                n == self.jobs@.len(),
                0 <= i <= n,
                forall|k: int|
                    0 <= k < i ==> !(#[trigger] self.jobs@[k].project_id@ == project_id@
                        && job_active(self.jobs@[k])),
            decreases n - i,
        {
            let j = &self.jobs[i];
            if str_eq(j.project_id.as_str(), project_id) && (str_eq(j.status.as_str(), "queued")
                || str_eq(j.status.as_str(), "running")) {
                return Option::Some(j.duplicate());
            }
            i = i + 1;
        }
        Option::None
    }

    /// Up to `limit` of the project's jobs, most recently updated first.
    pub fn get_recent_jobs(&self, project_id: &str, limit: usize) -> (r: Vec<IndexJob>)
        requires
            self.wf(),
        ensures
            ({
                let all = self.jobs@.filter(|j: IndexJob| j.project_id@ == project_id@);
                &&& r@.len() == (if limit <= all.len() {
                    limit as int
                } else {
                    all.len() as int
                })
                &&& (forall|i: int| 0 <= i < r@.len() ==> all.contains(#[trigger] r@[i]))
                &&& (forall|i: int|
                    0 <= i < r@.len() - 1 ==> seq_le(
                        (#[trigger] r@[i + 1]).updated_at@,
                        r@[i].updated_at@,
                    ))
                &&& (limit >= all.len() ==> r@.to_multiset() == all.to_multiset())
            }),
    {
        let ghost p = |j: IndexJob| j.project_id@ == project_id@;
        let ghost all = self.jobs@.filter(p);
        let n = self.jobs.len();
        let mut work: Vec<IndexJob> = Vec::new();
        let mut i: usize = 0;
        proof {
            lemma_filter_empty(self.jobs@.subrange(0, 0), p);
        }
        while i < n
            invariant
                n == self.jobs@.len(),
                0 <= i <= n,
                work@ == self.jobs@.subrange(0, i as int).filter(p),
                p == (|j: IndexJob| j.project_id@ == project_id@),
            decreases n - i,
        {
            proof {
                let sseq = self.jobs@.subrange(0, i + 1);
                assert(sseq.drop_last() =~= self.jobs@.subrange(0, i as int));
                assert(sseq.last() == self.jobs@[i as int]);
                lemma_filter_step(sseq, p);
            }
            if str_eq(self.jobs[i].project_id.as_str(), project_id) {
                work.push(self.jobs[i].duplicate());
            }
            i = i + 1;
        }
        assert(self.jobs@.subrange(0, n as int) =~= self.jobs@);
        assert(work@ == all);
        proof {
            assert(forall|k: int| 0 <= k < work@.len() ==> all.contains(#[trigger] work@[k]));
        }
        let mut out: Vec<IndexJob> = Vec::new();
        proof {
            out@.to_multiset_ensures();
            assert forall|x: IndexJob| out@.to_multiset().count(x) == 0 by {
                if out@.to_multiset().count(x) > 0 {
                    assert(out@.contains(x));
                }
            }
            assert(out@.to_multiset().add(work@.to_multiset()) =~= all.to_multiset());
        }
        while out.len() < limit && work.len() > 0
            invariant
                out@.len() <= limit,
                out@.len() + work@.len() == all.len(),
                out@.to_multiset().add(work@.to_multiset()) == all.to_multiset(),
                forall|k: int| 0 <= k < out@.len() ==> all.contains(#[trigger] out@[k]),
                forall|k: int| 0 <= k < work@.len() ==> all.contains(#[trigger] work@[k]),
                forall|k: int|
                    0 <= k < out@.len() - 1 ==> seq_le(
                        (#[trigger] out@[k + 1]).updated_at@,
                        out@[k].updated_at@,
                    ),
                forall|k: int, l: int|
                    0 <= k < out@.len() && 0 <= l < work@.len() ==> seq_le(
                        (#[trigger] work@[l]).updated_at@,
                        (#[trigger] out@[k]).updated_at@,
                    ),
            decreases work@.len(),
        {
            let mut mx: usize = 0;
            let mut t: usize = 1;
            while t < work.len()
                invariant
                    1 <= work@.len(),
                    0 <= mx < work@.len(),
                    1 <= t <= work@.len(),
                    forall|k: int|
                        0 <= k < t ==> seq_le(
                            (#[trigger] work@[k]).updated_at@,
                            work@[mx as int].updated_at@,
                        ),
                decreases work@.len() - t,
            {
                if str_lt(work[mx].updated_at.as_str(), work[t].updated_at.as_str()) {
                    proof {
                        lemma_seq_le_total(work@[mx as int].updated_at@, work@[t as int].updated_at@);
                        assert forall|k: int| 0 <= k < t + 1 implies seq_le(
                            (#[trigger] work@[k]).updated_at@,
                            work@[t as int].updated_at@,
                        ) by {
                            if k < t {
                                lemma_seq_le_trans(
                                    work@[k].updated_at@,
                                    work@[mx as int].updated_at@,
                                    work@[t as int].updated_at@,
                                );
                            }
                        }
                    }
                    mx = t;
                } else {
                    proof {
                        lemma_seq_le_total(work@[t as int].updated_at@, work@[mx as int].updated_at@);
                    }
                }
                t = t + 1;
            }
            let ghost old_work = work@;
            let ghost old_out = out@;
            let item = work.remove(mx);
            out.push(item);
            proof {
                old_work.to_multiset_ensures();
                old_out.to_multiset_ensures();
                assert(work@.to_multiset() =~= old_work.to_multiset().remove(
                    old_work[mx as int],
                ));
                assert(out@.to_multiset() =~= old_out.to_multiset().insert(old_work[mx as int]));
                assert(out@.to_multiset().add(work@.to_multiset()) =~= old_out.to_multiset().add(
                    old_work.to_multiset(),
                ));
                assert(old_work.contains(old_work[mx as int]));
                assert(all.contains(old_work[mx as int]));
                assert forall|k: int| 0 <= k < work@.len() implies all.contains(
                    #[trigger] work@[k],
                ) by {
                    if k < mx {
                        assert(work@[k] == old_work[k]);
                    } else {
                        assert(work@[k] == old_work[k + 1]);
                    }
                }
                assert forall|k: int, l: int|
                    0 <= k < out@.len() && 0 <= l < work@.len() implies seq_le(
                    (#[trigger] work@[l]).updated_at@,
                    (#[trigger] out@[k]).updated_at@,
                ) by {
                    let w = if l < mx {
                        old_work[l]
                    } else {
                        old_work[l + 1]
                    };
                    assert(work@[l] == w);
                    if k < old_out.len() {
                        assert(seq_le(w.updated_at@, old_out[k].updated_at@));
                    } else {
                        assert(out@[k] == old_work[mx as int]);
                        assert(seq_le(w.updated_at@, old_work[mx as int].updated_at@));
                    }
                }
            }
        }
        proof {
            if limit >= all.len() {
                work@.to_multiset_ensures();
                assert forall|x: IndexJob| work@.to_multiset().count(x) == 0 by {
                    if work@.to_multiset().count(x) > 0 {
                        assert(work@.contains(x));
                    }
                }
                assert(out@.to_multiset() =~= all.to_multiset());
            }
        }
        out
    }

    /// Move every `running` job to `interrupted`; returns how many moved.
    pub fn mark_interrupted_jobs(&mut self) -> (r: u64)
        requires
            old(self).wf(),
        ensures
            final(self).wf(),
            final(self).branch_states == old(self).branch_states,
            final(self).symbols == old(self).symbols,
            final(self).projects == old(self).projects,
            final(self).files == old(self).files,
            final(self).jobs@.len() == old(self).jobs@.len(),
            forall|i: int|
                0 <= i < old(self).jobs@.len() ==> (
                if (#[trigger] old(self).jobs@[i]).status@ == "running"@ {
                    interrupted_version(old(self).jobs@[i], final(self).jobs@[i])
                } else {
                    final(self).jobs@[i] == old(self).jobs@[i]
                }),
            r == old(self).jobs@.filter(|j: IndexJob| j.status@ == "running"@).len(),
    {
        let ghost p = |j: IndexJob| j.status@ == "running"@;
        let n = self.jobs.len();
        let mut count: u64 = 0;
        let mut i: usize = 0;
        proof {
            lemma_filter_empty(self.jobs@.subrange(0, 0), p);
        }
        while i < n
            invariant
                old(self).wf(),
                n == self.jobs@.len(),
                n == old(self).jobs@.len(),
                0 <= i <= n,
                count <= i,
                self.branch_states == old(self).branch_states,
                self.symbols == old(self).symbols,
                self.projects == old(self).projects,
                self.files == old(self).files,
                forall|k: int|
                    0 <= k < i ==> (
                    if (#[trigger] old(self).jobs@[k]).status@ == "running"@ {
                        interrupted_version(old(self).jobs@[k], self.jobs@[k])
                    } else {
                        self.jobs@[k] == old(self).jobs@[k]
                    }),
                forall|k: int| i <= k < n ==> self.jobs@[k] == (#[trigger] old(self).jobs@[k]),
                count == old(self).jobs@.subrange(0, i as int).filter(p).len(),
                p == (|j: IndexJob| j.status@ == "running"@),
            decreases n - i,
        {
            proof {
                let sseq = old(self).jobs@.subrange(0, i + 1);
                assert(sseq.drop_last() =~= old(self).jobs@.subrange(0, i as int));
                assert(sseq.last() == old(self).jobs@[i as int]);
                lemma_filter_step(sseq, p);
            }
            if str_eq(self.jobs[i].status.as_str(), "running") {
                let mut updated = self.jobs[i].duplicate();
                updated.status = String::from_str("interrupted");
                self.jobs.set(i, updated);
                count = count + 1;
            }
            i = i + 1;
        }
        assert(old(self).jobs@.subrange(0, n as int) =~= old(self).jobs@);
        proof {
            assert forall|a: int, b: int|
                0 <= a < b < self.jobs@.len() implies self.jobs@[a].job_id@
                != self.jobs@[b].job_id@ by {
                assert(self.jobs@[a].job_id@ == old(self).jobs@[a].job_id@);
                assert(self.jobs@[b].job_id@ == old(self).jobs@[b].job_id@);
            }
        }
        count
    }

    /// The jobs left in `interrupted` status, in table order.
    pub fn get_interrupted_jobs(&self) -> (r: Vec<IndexJob>)
        requires
            self.wf(),
        ensures
            r@ == self.jobs@.filter(|j: IndexJob| j.status@ == "interrupted"@),
    {
        let ghost p = |j: IndexJob| j.status@ == "interrupted"@;
        let n = self.jobs.len();
        let mut out: Vec<IndexJob> = Vec::new();
        let mut i: usize = 0;
        proof {
            lemma_filter_empty(self.jobs@.subrange(0, 0), p);
        }
        while i < n
            invariant
                n == self.jobs@.len(),
                0 <= i <= n,
                out@ == self.jobs@.subrange(0, i as int).filter(p),
                p == (|j: IndexJob| j.status@ == "interrupted"@),
            decreases n - i,
        {
            proof {
                let sseq = self.jobs@.subrange(0, i + 1);
                assert(sseq.drop_last() =~= self.jobs@.subrange(0, i as int));
                assert(sseq.last() == self.jobs@[i as int]);
                lemma_filter_step(sseq, p);
            }
            if str_eq(self.jobs[i].status.as_str(), "interrupted") {
                out.push(self.jobs[i].duplicate());
            }
            i = i + 1;
        }
        assert(self.jobs@.subrange(0, n as int) =~= self.jobs@);
        out
    }

    // -----------------------------------------------------------------------
    // projects
    // -----------------------------------------------------------------------

    /// Register a project; its id must be fresh.
    pub fn create_project(&mut self, project: &Project)
        requires
            old(self).wf(),
            forall|j: int|
                0 <= j < old(self).projects@.len() ==> (#[trigger] old(
                    self,
                ).projects@[j]).project_id@ != project.project_id@,
        ensures
            final(self).wf(),
            final(self).branch_states == old(self).branch_states,
            final(self).symbols == old(self).symbols,
            final(self).jobs == old(self).jobs,
            final(self).files == old(self).files,
            final(self).projects@ == old(self).projects@.push(*project),
    {
        self.projects.push(project.duplicate());
    }

    /// The project with the given id, if registered.
    pub fn get_project_by_id(&self, project_id: &str) -> (r: Option<Project>)
        requires
            self.wf(),
        ensures
            match r {
                Option::Some(p) => exists|i: int|
                    0 <= i < self.projects@.len() && #[trigger] self.projects@[i] == p
                        && p.project_id@ == project_id@,
                Option::None => forall|i: int|
                    0 <= i < self.projects@.len() ==> (#[trigger] self.projects@[i]).project_id@
                        != project_id@,
            },
    {
        let n = self.projects.len();
        let mut i: usize = 0;
        while i < n
            invariant
                n == self.projects@.len(),
                0 <= i <= n,
                forall|k: int|
                    0 <= k < i ==> (#[trigger] self.projects@[k]).project_id@ != project_id@,
            decreases n - i,
        {
            if str_eq(self.projects[i].project_id.as_str(), project_id) {
                return Option::Some(self.projects[i].duplicate());
            }
            i = i + 1;
        }
        Option::None
    }

    /// The first project rooted at the given path, if any.
    pub fn get_project_by_root(&self, repo_root: &str) -> (r: Option<Project>)
        requires
            self.wf(),
        ensures
            match r {
                Option::Some(p) => exists|i: int|
                    0 <= i < self.projects@.len() && #[trigger] self.projects@[i] == p
                        && p.repo_root@ == repo_root@,
                Option::None => forall|i: int|
                    0 <= i < self.projects@.len() ==> (#[trigger] self.projects@[i]).repo_root@
                        != repo_root@,
            },
    {
        let n = self.projects.len();
        let mut i: usize = 0;
        while i < n
            invariant
                n == self.projects@.len(),
                0 <= i <= n,
                forall|k: int|
                    0 <= k < i ==> (#[trigger] self.projects@[k]).repo_root@ != repo_root@,
            decreases n - i,
        {
            if str_eq(self.projects[i].repo_root.as_str(), repo_root) {
                return Option::Some(self.projects[i].duplicate());
            }
            i = i + 1;
        }
        Option::None
    }

    /// Every registered project, in registration order.
    pub fn list_projects(&self) -> (r: Vec<Project>)
        requires
            self.wf(),
        ensures
            r@ == self.projects@,
    {
        let n = self.projects.len();
        let mut out: Vec<Project> = Vec::new();
        let mut i: usize = 0;
        while i < n
            invariant
                n == self.projects@.len(),
                0 <= i <= n,
                out@ == self.projects@.subrange(0, i as int),
            decreases n - i,
        {
            out.push(self.projects[i].duplicate());
            assert(self.projects@.subrange(0, i + 1) =~= self.projects@.subrange(0, i as int).push(
                self.projects@[i as int],
            ));
            i = i + 1;
        }
        assert(self.projects@.subrange(0, n as int) =~= self.projects@);
        out
    }

    // -----------------------------------------------------------------------
    // files
    // -----------------------------------------------------------------------

    /// Insert or replace the file record keyed `(repo, ref_name, path)`.
    pub fn upsert_file(&mut self, file: &FileRecord)
        requires
            old(self).wf(),
        ensures
            final(self).wf(),
            final(self).branch_states == old(self).branch_states,
            final(self).symbols == old(self).symbols,
            final(self).jobs == old(self).jobs,
            final(self).projects == old(self).projects,
            exists|j: int|
                0 <= j < final(self).files@.len() && #[trigger] final(self).files@[j] == *file,
            forall|j: int|
                0 <= j < old(self).files@.len() && !file_key_is(
                    #[trigger] old(self).files@[j],
                    file.repo@,
                    file.ref_name@,
                    file.path@,
                ) ==> final(self).files@[j] == old(self).files@[j],
            (if file_table_contains_key(old(self).files@, file.repo@, file.ref_name@, file.path@) {
                final(self).files@.len() == old(self).files@.len()
            } else {
                final(self).files@ == old(self).files@.push(*file)
            }),
    {
        let n = self.files.len();
        let mut i: usize = 0;
        while i < n
            invariant
                *self == *old(self),
                old(self).wf(),
                n == self.files@.len(),
                0 <= i <= n,
                forall|j: int|
                    0 <= j < i ==> !file_key_is(
                        #[trigger] self.files@[j],
                        file.repo@,
                        file.ref_name@,
                        file.path@,
                    ),
            decreases n - i,
        {
            if str_eq(self.files[i].repo.as_str(), file.repo.as_str()) && str_eq(
                self.files[i].ref_name.as_str(),
                file.ref_name.as_str(),
            ) && str_eq(self.files[i].path.as_str(), file.path.as_str()) {
                self.files.set(i, file.duplicate());
                assert(file_key_is(self.files@[i as int], file.repo@, file.ref_name@, file.path@));
                return ;
            }
            i = i + 1;
        }
        self.files.push(file.duplicate());
        assert(file_key_is(self.files@[n as int], file.repo@, file.ref_name@, file.path@));
    }

    /// How many file records `(repo, ref_name)` holds.
    pub fn file_count(&self, repo: &str, ref_name: &str) -> (r: u64)
        requires
            self.wf(),
        ensures
            r == self.files@.filter(|f: FileRecord| file_scope_is(f, repo@, ref_name@)).len(),
    {
        let ghost p = |f: FileRecord| file_scope_is(f, repo@, ref_name@);
        let n = self.files.len();
        let mut count: u64 = 0;
        let mut i: usize = 0;
        proof {
            lemma_filter_empty(self.files@.subrange(0, 0), p);
        }
        while i < n
            invariant
                n == self.files@.len(),
                0 <= i <= n,
                count <= i,
                count == self.files@.subrange(0, i as int).filter(p).len(),
                p == (|f: FileRecord| file_scope_is(f, repo@, ref_name@)),
            decreases n - i,
        {
            proof {
                let sseq = self.files@.subrange(0, i + 1);
                assert(sseq.drop_last() =~= self.files@.subrange(0, i as int));
                assert(sseq.last() == self.files@[i as int]);
                lemma_filter_step(sseq, p);
            }
            if str_eq(self.files[i].repo.as_str(), repo) && str_eq(
                self.files[i].ref_name.as_str(),
                ref_name,
            ) {
                count = count + 1;
            }
            i = i + 1;
        }
        assert(self.files@.subrange(0, n as int) =~= self.files@);
        count
    }
}

pub open spec fn sym_table_contains_key(
    s: Seq<SymbolRow>,
    repo: Seq<char>,
    ref_name: Seq<char>,
    path: Seq<char>,
    symbol_id: Seq<char>,
) -> bool {
    exists|j: int|
        0 <= j < s.len() && sym_key_is((#[trigger] s[j]).rec, repo, ref_name, path, symbol_id)
}

pub open spec fn file_table_contains_key(
    s: Seq<FileRecord>,
    repo: Seq<char>,
    ref_name: Seq<char>,
    path: Seq<char>,
) -> bool {
    exists|j: int| 0 <= j < s.len() && file_key_is(#[trigger] s[j], repo, ref_name, path)
}

/// `b` is `a` moved to `interrupted` status, every other column kept.
pub open spec fn interrupted_version(a: IndexJob, b: IndexJob) -> bool {
    &&& b.status@ == "interrupted"@
    &&& b.job_id == a.job_id
    &&& b.project_id == a.project_id
    &&& b.ref_name == a.ref_name
    &&& b.mode == a.mode
    &&& b.head_commit == a.head_commit
    &&& b.sync_id == a.sync_id
    &&& b.changed_files == a.changed_files
    &&& b.duration_ms == a.duration_ms
    &&& b.error_message == a.error_message
    &&& b.retry_count == a.retry_count
    &&& b.progress_token == a.progress_token
    &&& b.files_scanned == a.files_scanned
    &&& b.files_indexed == a.files_indexed
    &&& b.symbols_extracted == a.symbols_extracted
    &&& b.created_at == a.created_at
    &&& b.updated_at == a.updated_at
}

proof fn lemma_filter_still_unique_sym(s: Seq<SymbolRow>, p: spec_fn(SymbolRow) -> bool, a: int, b: int)
    requires
        forall|i: int, j: int|
            #![trigger s[i], s[j]]
            0 <= i < j < s.len() ==> !sym_key_is(
                s[i].rec,
                s[j].rec.repo@,
                s[j].rec.ref_name@,
                s[j].rec.path@,
                s[j].rec.symbol_id@,
            ),
        0 <= a < b < s.filter(p).len(),
    ensures
        !sym_key_is(
            s.filter(p)[a].rec,
            s.filter(p)[b].rec.repo@,
            s.filter(p)[b].rec.ref_name@,
            s.filter(p)[b].rec.path@,
            s.filter(p)[b].rec.symbol_id@,
        ),
    decreases s.len(),
{
    if s.len() > 0 {
        let f = s.filter(p);
        let fd = s.drop_last().filter(p);
        lemma_filter_step(s, p);
        if p(s.last()) {
            if b < fd.len() {
                lemma_filter_still_unique_sym(s.drop_last(), p, a, b);
            } else {
                assert(f[b] == s.last());
                assert(f[a] == fd[a]);
                lemma_filter_subset(s.drop_last(), p);
                assert(fd.contains(fd[a]));
                assert(s.drop_last().contains(fd[a]));
                let k = choose|k: int| 0 <= k < s.drop_last().len() && s.drop_last()[k] == fd[a];
                assert(s[k] == fd[a]);
            }
        } else {
            lemma_filter_still_unique_sym(s.drop_last(), p, a, b);
        }
    }
}

pub proof fn lemma_seq_le_total(a: Seq<char>, b: Seq<char>)
    ensures
        seq_lt(a, b) || seq_le(b, a),
    decreases a.len() + b.len(),
{
    if b.len() == 0 {
        if a.len() == 0 {
            assert(a =~= b);
        } else {
            assert(seq_lt(b, a));
        }
    } else if a.len() == 0 {
        assert(seq_lt(a, b));
    } else if a[0] != b[0] {
        assert((a[0] as u32) != (b[0] as u32)) by {
            vstd::utf8::char_u32_cast(a[0], a[0] as u32);
            vstd::utf8::char_u32_cast(b[0], b[0] as u32);
        };
        if (a[0] as u32) < (b[0] as u32) {
            assert(seq_lt(a, b));
        } else {
            assert(seq_lt(b, a));
        }
    } else {
        lemma_seq_le_total(a.drop_first(), b.drop_first());
        if a.drop_first() == b.drop_first() {
            assert(a.drop_first().len() == a.len() - 1);
            assert(b.drop_first().len() == b.len() - 1);
            assert(a.len() == b.len());
            assert forall|i: int| 0 <= i < a.len() implies a[i] == b[i] by {
                if i >= 1 {
                    assert(a[i] == a.drop_first()[i - 1]);
                    assert(b[i] == b.drop_first()[i - 1]);
                }
            }
            assert(a =~= b);
        }
    }
}

pub proof fn lemma_seq_lt_trans(a: Seq<char>, b: Seq<char>, c: Seq<char>)
    requires
        seq_lt(a, b),
        seq_lt(b, c),
    ensures
        seq_lt(a, c),
    decreases a.len() + b.len() + c.len(),
{
    if a.len() == 0 {
    } else if a[0] == b[0] && b[0] == c[0] {
        lemma_seq_lt_trans(a.drop_first(), b.drop_first(), c.drop_first());
    }
}

pub proof fn lemma_seq_le_trans(a: Seq<char>, b: Seq<char>, c: Seq<char>)
    requires
        seq_le(a, b),
        seq_le(b, c),
    ensures
        seq_le(a, c),
{
    if a == b || b == c {
    } else {
        lemma_seq_lt_trans(a, b, c);
    }
}

impl BranchState {
    /// A field-for-field copy of the value.
    pub fn duplicate(&self) -> (r: BranchState)
        ensures
            r == *self,
    {
        BranchState {
            repo: self.repo.clone(),
            ref_name: self.ref_name.clone(),
            merge_base_commit: clone_opt_string(&self.merge_base_commit),
            last_indexed_commit: self.last_indexed_commit.clone(),
            overlay_dir: clone_opt_string(&self.overlay_dir),
            file_count: self.file_count,
            created_at: self.created_at.clone(),
            last_accessed_at: self.last_accessed_at.clone(),
        }
    }
}

impl SymbolRecord {
    /// A field-for-field copy of the value.
    pub fn duplicate(&self) -> (r: SymbolRecord)
        ensures
            r == *self,
    {
        SymbolRecord {
            repo: self.repo.clone(),
            ref_name: self.ref_name.clone(),
            commit: clone_opt_string(&self.commit),
            path: self.path.clone(),
            symbol_id: self.symbol_id.clone(),
            symbol_stable_id: self.symbol_stable_id.clone(),
            name: self.name.clone(),
            qualified_name: self.qualified_name.clone(),
            kind: self.kind,
            language: self.language.clone(),
            line_start: self.line_start,
            line_end: self.line_end,
            signature: clone_opt_string(&self.signature),
            parent_symbol_id: clone_opt_string(&self.parent_symbol_id),
            visibility: clone_opt_string(&self.visibility),
            content: clone_opt_string(&self.content),
        }
    }
}

impl SymbolRow {
    /// A field-for-field copy of the value.
    pub fn duplicate(&self) -> (r: SymbolRow)
        ensures
            r == *self,
    {
        SymbolRow { rec: self.rec.duplicate(), content_hash: self.content_hash.clone() }
    }
}

impl IndexJob {
    /// A field-for-field copy of the value.
    pub fn duplicate(&self) -> (r: IndexJob)
        ensures
            r == *self,
    {
        IndexJob {
            job_id: self.job_id.clone(),
            project_id: self.project_id.clone(),
            ref_name: self.ref_name.clone(),
            mode: self.mode.clone(),
            head_commit: clone_opt_string(&self.head_commit),
            sync_id: clone_opt_string(&self.sync_id),
            status: self.status.clone(),
            changed_files: self.changed_files,
            duration_ms: self.duration_ms,
            error_message: clone_opt_string(&self.error_message),
            retry_count: self.retry_count,
            progress_token: clone_opt_string(&self.progress_token),
            files_scanned: self.files_scanned,
            files_indexed: self.files_indexed,
            symbols_extracted: self.symbols_extracted,
            created_at: self.created_at.clone(),
            updated_at: self.updated_at.clone(),
        }
    }
}

impl Project {
    /// A field-for-field copy of the value.
    pub fn duplicate(&self) -> (r: Project)
        ensures
            r == *self,
    {
        Project {
            project_id: self.project_id.clone(),
            repo_root: self.repo_root.clone(),
            display_name: clone_opt_string(&self.display_name),
            default_ref: self.default_ref.clone(),
            vcs_mode: self.vcs_mode,
            schema_version: self.schema_version,
            parser_version: self.parser_version,
            created_at: self.created_at.clone(),
            updated_at: self.updated_at.clone(),
        }
    }
}

impl FileRecord {
    /// A field-for-field copy of the value.
    pub fn duplicate(&self) -> (r: FileRecord)
        ensures
            r == *self,
    {
        FileRecord {
            repo: self.repo.clone(),
            ref_name: self.ref_name.clone(),
            commit: clone_opt_string(&self.commit),
            path: self.path.clone(),
            filename: self.filename.clone(),
            language: self.language.clone(),
            content_hash: self.content_hash.clone(),
            size_bytes: self.size_bytes,
            updated_at: self.updated_at.clone(),
            content_head: self.content_head.clone(),
        }
    }
}

pub fn clone_opt_string(s: &Option<String>) -> (r: Option<String>)
    ensures
        r == *s,
{
    match s {
        Option::Some(x) => Option::Some(x.clone()),
        Option::None => Option::None,
    }
}

} // verus!
