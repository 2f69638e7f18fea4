//! Symbols and fingerprints of TypeScript sources.
use vstd::prelude::*;
use vstd::string::StringExecFns;
use vstd::string::StringSliceAdditionalSpecFns;
use crate::ir::file::FileAnalysis;
use crate::ir::model::{Symbol, SymbolKind, SymbolView, symbols_view};
use crate::lang::{Language, ParseError};
use crate::lang::fingerprint::{lexical_hash, token_hash, structure_hash};
use crate::lang::symbols::{lemma_push_symbol, make_symbol, symbol_at};
use crate::syntax::{Grammar, SyntaxFailure, SyntaxNode, kind_is, parse_syntax, syntax_of, subtree_end, subtree_end_of};
use crate::text::{chars_of, lines_of, split_lines};

verus! {

/// The symbol of node `i` as a one-element sequence, or nothing.
pub open spec fn symbol_seq(s: Option<SymbolView>) -> Seq<SymbolView> {
    match s {
        Some(x) => seq![x],
        None => Seq::empty(),
    }
}

/// The symbols declared in the subtree of node `i`: functions, classes,
/// interfaces and type aliases (not looking inside them), exported when an
/// `export` statement encloses them.
pub open spec fn ts_symbols(t: Seq<SyntaxNode>, src: Seq<u8>, path: Seq<char>, i: int, limit: int, exported: bool) -> Seq<SymbolView>
    decreases limit - i, 0int,
{
    if i < 0 || i >= limit || limit > t.len() {
        Seq::empty()
    } else {
        let k = t[i].kind@;
        let e = subtree_end(t, i, limit);
        if k == "export_statement"@ {
            ts_symbols_children(t, src, path, i + 1, e, true)
        } else if k == "function_declaration"@ {
            symbol_seq(symbol_at(t, src, path, i, limit, SymbolKind::Function, exported))
        } else if k == "class_declaration"@ {
            symbol_seq(symbol_at(t, src, path, i, limit, SymbolKind::Class, exported))
        } else if k == "interface_declaration"@ {
            symbol_seq(symbol_at(t, src, path, i, limit, SymbolKind::Interface, exported))
        } else if k == "type_alias_declaration"@ {
            symbol_seq(symbol_at(t, src, path, i, limit, SymbolKind::TypeAlias, exported))
        } else {
            ts_symbols_children(t, src, path, i + 1, e, exported)
        }
    }
}

/// The symbols declared in the named sibling subtrees from `c` up to `e`.
pub open spec fn ts_symbols_children(t: Seq<SyntaxNode>, src: Seq<u8>, path: Seq<char>, c: int, e: int, exported: bool) -> Seq<SymbolView>
    decreases e - c, 1int,
{
    if c < 0 || c >= e || e > t.len() {
        Seq::empty()
    } else {
        (if t[c].named { ts_symbols(t, src, path, c, e, exported) } else { Seq::empty() })
            + ts_symbols_children(t, src, path, subtree_end(t, c, e), e, exported)
    }
}

/// The number of lines of `source`, as `str::lines` counts them.
pub open spec fn line_count(source: Seq<char>) -> nat {
    lines_of(source).len()
}

/// Counts the lines of `source`.
pub fn count_lines(source: &str) -> (res: usize)
    ensures
        res == line_count(source@),
{
    let cs = chars_of(source);
    let lines = split_lines(cs.as_slice());
    lines.len()
}

/// `a` is the analysis of the TypeScript file `path` with text `source` and
/// syntax tree `t`: its symbols, its line count as code lines, and its
/// three fingerprints.
pub open spec fn is_ts_analysis(a: FileAnalysis, t: Seq<SyntaxNode>, path: &str, source: &str) -> bool {
    &&& a.path@ == path@
    &&& a.language == Language::TypeScript
    &&& symbols_view(a.symbols@) == ts_symbols(t, source.spec_bytes(), path@, 0, t.len() as int, false)
    &&& a.references@.len() == 0
    &&& a.metrics.code_lines == line_count(source@)
    &&& a.metrics.comment_lines == 0
    &&& a.metrics.blank_lines == 0
    &&& a.metrics.cyclomatic_complexity == 0
    &&& a.lexical_hash == Some(lexical_hash_spec(t, source))
    &&& a.token_hash == Some(token_hash_spec(t, source))
    &&& a.ast_hash == Some(structure_hash_spec(t))
}

/// Parses the TypeScript file `path` with text `source`. With the bundled
/// grammar it always succeeds.
pub fn parse_file(path: &str, source: &str) -> (res: Result<FileAnalysis, ParseError>)
    ensures
        res is Ok,
        res matches Ok(a) ==> is_ts_analysis(a, syntax_of(Grammar::TypeScript, source.spec_bytes()), path, source),
{
    match parse_syntax(Grammar::TypeScript, source) {
        Ok(nodes) => Ok(analysis_of(&nodes, path, source)),
        Err(SyntaxFailure::Language(message)) => {
            let mut m = String::from_str("failed to load TypeScript parser: ");
            m.append(message.as_str());
            Err(ParseError::new(m))
        },
        Err(SyntaxFailure::Parse) => Err(ParseError::new(String::from_str("failed to parse TypeScript source"))),
    }
}

/// The analysis of the TypeScript file `path` whose text `source` has the
/// syntax tree `nodes`: its symbols, its line count as code lines, and its
/// three fingerprints.
pub fn analysis_of(nodes: &Vec<SyntaxNode>, path: &str, source: &str) -> (res: FileAnalysis)
    ensures
        is_ts_analysis(res, nodes@, path, source),
{
    let mut analysis = FileAnalysis::new(String::from_str(path), Language::TypeScript);
    analysis.metrics.code_lines = count_lines(source);
    analysis.lexical_hash = Some(lexical_hash(nodes, source));
    analysis.token_hash = Some(token_hash(nodes, source));
    analysis.ast_hash = Some(structure_hash(nodes));
    let mut symbols: Vec<Symbol> = Vec::new();
    if nodes.len() > 0 {
        collect_symbols(nodes, source.as_bytes(), path, 0, nodes.len(), false, &mut symbols);
    }
    assert(symbols_view(symbols@) =~= Seq::<SymbolView>::empty()
        + ts_symbols(nodes@, source.spec_bytes(), path@, 0, nodes.len() as int, false));
    analysis.symbols = symbols;
    analysis
}

/// The lexical fingerprint of a whole tree.
pub open spec fn lexical_hash_spec(t: Seq<SyntaxNode>, source: &str) -> u64 {
    crate::lang::fingerprint::fnv(crate::lang::fingerprint::OFFSET_BASIS,
        crate::lang::fingerprint::lexical_stream(t, source.spec_bytes(), 0, t.len() as int))
}

/// The token fingerprint of a whole tree.
pub open spec fn token_hash_spec(t: Seq<SyntaxNode>, source: &str) -> u64 {
    crate::lang::fingerprint::fnv(crate::lang::fingerprint::OFFSET_BASIS,
        crate::lang::fingerprint::token_stream(t, source.spec_bytes(), 0, t.len() as int))
}

/// The structure fingerprint of a whole tree.
pub open spec fn structure_hash_spec(t: Seq<SyntaxNode>) -> u64 {
    crate::lang::fingerprint::fnv(crate::lang::fingerprint::OFFSET_BASIS,
        crate::lang::fingerprint::structure_stream(t, 0, t.len() as int))
}

fn push_symbol(t: &Vec<SyntaxNode>, src: &[u8], path: &str, i: usize, limit: usize, kind: SymbolKind,
    exported: bool, out: &mut Vec<Symbol>)
    requires
        i < limit <= t.len(),
    ensures
        symbols_view(final(out)@) == symbols_view(old(out)@)
            + symbol_seq(symbol_at(t@, src@, path@, i as int, limit as int, kind, exported)),
{
    match make_symbol(t, src, path, i, limit, kind, exported) {
        Some(s) => {
            proof { lemma_push_symbol(out@, s); }
            out.push(s);
        },
        None => {
            assert(symbols_view(out@) =~= symbols_view(out@) + Seq::<SymbolView>::empty());
        },
    }
}

fn collect_symbols(t: &Vec<SyntaxNode>, src: &[u8], path: &str, i: usize, limit: usize, exported: bool,
    out: &mut Vec<Symbol>)
    requires
        i < limit <= t.len(),
    ensures
        symbols_view(final(out)@) == symbols_view(old(out)@) + ts_symbols(t@, src@, path@, i as int, limit as int, exported),
    decreases limit - i, 0int,
{
    let e = subtree_end_of(t, i, limit);
    let node = &t[i];
    if kind_is(node, "export_statement") {
        collect_children(t, src, path, i + 1, e, true, out);
    } else if kind_is(node, "function_declaration") {
        push_symbol(t, src, path, i, limit, SymbolKind::Function, exported, out);
    } else if kind_is(node, "class_declaration") {
        push_symbol(t, src, path, i, limit, SymbolKind::Class, exported, out);
    } else if kind_is(node, "interface_declaration") {
        push_symbol(t, src, path, i, limit, SymbolKind::Interface, exported, out);
    } else if kind_is(node, "type_alias_declaration") {
        push_symbol(t, src, path, i, limit, SymbolKind::TypeAlias, exported, out);
    } else {
        collect_children(t, src, path, i + 1, e, exported, out);
    }
}

fn collect_children(t: &Vec<SyntaxNode>, src: &[u8], path: &str, c0: usize, e: usize, exported: bool,
    out: &mut Vec<Symbol>)
    requires
        c0 <= e <= t.len(),
    ensures
        symbols_view(final(out)@) == symbols_view(old(out)@) + ts_symbols_children(t@, src@, path@, c0 as int, e as int, exported),
    decreases e - c0, 1int,
{
    let mut c = c0;
    while c < e
        invariant
            c0 <= c <= e <= t.len(),
            symbols_view(out@) + ts_symbols_children(t@, src@, path@, c as int, e as int, exported)
                == symbols_view(old(out)@) + ts_symbols_children(t@, src@, path@, c0 as int, e as int, exported),
        decreases e - c,
    {
        let next = subtree_end_of(t, c, e);
        let ghost before = symbols_view(out@);
        if t[c].named {
            collect_symbols(t, src, path, c, e, exported, out);
        }
        assert(symbols_view(out@) + ts_symbols_children(t@, src@, path@, next as int, e as int, exported)
            =~= before + ts_symbols_children(t@, src@, path@, c as int, e as int, exported));
        c = next;
    }
    assert(symbols_view(out@) =~= symbols_view(old(out)@) + ts_symbols_children(t@, src@, path@, c0 as int, e as int, exported));
}

} // verus!
