//! A per-workspace code-intelligence service core: the state machine that
//! turns a symbol lookup, code search, or indexing command into an answer.
//!
//! The library is organised around four concerns. The loader classifies a
//! possibly-absent or incompatible on-disk index and gates every request on
//! that status. The ref resolver and freshness oracle decide which branch a
//! query is answered against and whether the index lags the working tree.
//! The query engine joins the text shards with the relational store, reranks,
//! deduplicates, and truncates payloads to a byte budget. The orchestration
//! path admits at most one indexing job per project and recovers interrupted
//! jobs at startup.
//!
//! Everything here is verified: each public function carries a contract, and
//! the crate states its cross-cutting guarantees as proof functions in
//! `laws`. The unverified shell around the library (transports, file and
//! process handling) lives outside this crate root and only converts between
//! plain values and the outside world.

pub mod dispatch;
pub mod engine;
pub mod fixture;
pub mod freshness;
pub mod hashing;
pub mod health;
pub mod intent;
pub mod json;
pub mod laws;
pub mod payload;
pub mod protocol;
pub mod ranking;
pub mod router;
pub mod shared;
pub mod snippets;
pub mod status;
pub mod store;
pub mod strutil;
pub mod types;

use vstd::prelude::*;

verus! {

/// Join a parent scope and a name into a qualified name, `parent::name`.
pub fn make_qualified(parent: Option<&str>, name: &str) -> (r: String)
    ensures
        match parent {
            Some(p) => r@ == p@ + "::"@ + name@,
            None => r@ == name@,
        },
{
    match parent {
        Some(p) => {
            let mut s = p.to_owned();
            s.append("::");
            s.append(name);
            s
        }
        None => name.to_owned(),
    }
}

} // verus!
