use vstd::prelude::*;
use crate::store::{clone_opt_string, lemma_filter_empty, lemma_filter_step};
use crate::strutil::{trim_spaces, trimmed};
use crate::types::{ExtractedSymbol, SnippetRecord, SymbolKind};

verus! {

/// The chunk type a symbol's body is indexed under; constants, variables and
/// type aliases produce no snippet.
pub open spec fn chunk_type_str(k: SymbolKind) -> Option<Seq<char>> {
    match k {
        SymbolKind::Function => Option::Some("function_body"@),
        SymbolKind::Method => Option::Some("method_body"@),
        SymbolKind::Class => Option::Some("class_body"@),
        SymbolKind::Struct => Option::Some("struct_body"@),
        SymbolKind::Trait => Option::Some("trait_body"@),
        SymbolKind::Interface => Option::Some("interface_body"@),
        SymbolKind::Module => Option::Some("module_body"@),
        _ => Option::None,
    }
}

/// The symbol yields a snippet: a non-blank body and a chunked kind.
pub open spec fn makes_snippet(s: ExtractedSymbol) -> bool {
    &&& s.body is Some
    &&& trimmed(s.body->0@).len() > 0
    &&& chunk_type_str(s.kind) is Some
}

/// The filter, as one predicate value shared by every contract.
pub open spec fn snippet_source_pred() -> spec_fn(ExtractedSymbol) -> bool {
    |s: ExtractedSymbol| makes_snippet(s)
}

/// `r` is the snippet record built from `s` for the given file.
pub open spec fn snippet_record_for(
    r: SnippetRecord,
    s: ExtractedSymbol,
    repo: Seq<char>,
    ref_name: Seq<char>,
    path: Seq<char>,
    commit: Option<Seq<char>>,
) -> bool {
    &&& r.repo@ == repo
    &&& r.ref_name@ == ref_name
    &&& (match commit {
        Option::Some(c) => r.commit matches Option::Some(rc) && rc@ == c,
        Option::None => r.commit is None,
    })
    &&& r.path@ == path
    &&& r.language == s.language
    &&& Option::Some(r.chunk_type@) == chunk_type_str(s.kind)
    &&& r.imports is None
    &&& r.line_start == s.line_start
    &&& r.line_end == s.line_end
    &&& r.content == s.body->0
}

/// Build snippet records from extracted symbols: each function, method,
/// class, struct, trait, interface or module body becomes one snippet.
pub fn build_snippet_records(
    extracted: &Vec<ExtractedSymbol>,
    repo: &str,
    ref_name: &str,
    path: &str,
    commit: Option<&str>,
) -> (r: Vec<SnippetRecord>)
    ensures
        ({
            let kept = extracted@.filter(snippet_source_pred());
            &&& r@.len() == kept.len()
            &&& forall|k: int|
                0 <= k < r@.len() ==> snippet_record_for(
                    #[trigger] r@[k],
                    kept[k],
                    repo@,
                    ref_name@,
                    path@,
                    crate::engine::opt_view(commit),
                )
        }),
{
    let ghost p = snippet_source_pred();
    let n = extracted.len();
    let mut out: Vec<SnippetRecord> = Vec::new();
    let mut i: usize = 0;
    proof {
        lemma_filter_empty(extracted@.subrange(0, 0), p);
    }
    while i < n
        invariant
            n == extracted@.len(),
            0 <= i <= n,
            p == snippet_source_pred(),
            out@.len() == extracted@.subrange(0, i as int).filter(p).len(),
            forall|k: int|
                0 <= k < out@.len() ==> snippet_record_for(
                    #[trigger] out@[k],
                    extracted@.subrange(0, i as int).filter(p)[k],
                    repo@,
                    ref_name@,
                    path@,
                    crate::engine::opt_view(commit),
                ),
        decreases n - i,
    {
        let sym = &extracted[i];
        proof {
            let sseq = extracted@.subrange(0, i + 1);
            assert(sseq.drop_last() =~= extracted@.subrange(0, i as int));
            assert(sseq.last() == extracted@[i as int]);
            lemma_filter_step(sseq, p);
        }
        let chunk: Option<&'static str> = match sym.kind {
            SymbolKind::Function => Option::Some("function_body"),
            SymbolKind::Method => Option::Some("method_body"),
            SymbolKind::Class => Option::Some("class_body"),
            SymbolKind::Struct => Option::Some("struct_body"),
            SymbolKind::Trait => Option::Some("trait_body"),
            SymbolKind::Interface => Option::Some("interface_body"),
            SymbolKind::Module => Option::Some("module_body"),
            _ => Option::None,
        };
        let body_ok: bool = match &sym.body {
            Option::Some(b) => {
                let t = trim_spaces(b.as_str());
                t.as_str().unicode_len() > 0
            },
            Option::None => false,
        };
        match (chunk, body_ok) {
            (Option::Some(chunk_type), true) => {
                assert(p(extracted@[i as int]));
                let body: String = match &sym.body {
                    Option::Some(b) => b.clone(),
                    Option::None => String::new(),
                };
                out.push(SnippetRecord {
                    repo: repo.to_owned(),
                    ref_name: ref_name.to_owned(),
                    commit: match commit {
                        Option::Some(c) => Option::Some(c.to_owned()),
                        Option::None => Option::None,
                    },
                    path: path.to_owned(),
                    language: sym.language.clone(),
                    chunk_type: chunk_type.to_owned(),
                    imports: Option::None,
                    line_start: sym.line_start,
                    line_end: sym.line_end,
                    content: body,
                });
            },
            _ => {
                assert(!p(extracted@[i as int]));
            },
        }
        i = i + 1;
    }
    assert(extracted@.subrange(0, n as int) =~= extracted@);
    out
}

} // verus!
