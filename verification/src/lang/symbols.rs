//! Building symbols from syntax-tree nodes.
use vstd::prelude::*;
use vstd::string::StringExecFns;
use crate::ir::model::{SourceSpan, SpanView, Symbol, SymbolKind, SymbolView, symbols_view};
use crate::syntax::{
    SyntaxNode, field_child, field_child_of, node_text, text_of, utf8_text, utf8_text_of,
};
use crate::text::{trim, trim_str};

verus! {

/// A zero-based row or column turned one-based, as `as u32 + 1` computes it
/// (wrapping at the top of `u32`).
pub open spec fn one_based(x: usize) -> u32 {
    vstd::wrapping::u32_specs::wrapping_add(x as u32, 1)
}

/// The span of node `n` in the file `path`.
pub open spec fn span_of(t: Seq<SyntaxNode>, path: Seq<char>, n: int) -> SpanView {
    SpanView {
        file: path,
        start_line: one_based(t[n].start_row),
        start_column: one_based(t[n].start_column),
        end_line: one_based(t[n].end_row),
        end_column: one_based(t[n].end_column),
    }
}

/// The symbol that node `i` declares: none when it has no `name` child or
/// the name is not valid text. Its id is `path::name`, its signature the
/// trimmed text of the node.
pub open spec fn symbol_at(
    t: Seq<SyntaxNode>,
    src: Seq<u8>,
    path: Seq<char>,
    i: int,
    limit: int,
    kind: SymbolKind,
    exported: bool,
) -> Option<SymbolView> {
    match field_child(t, i, limit, "name"@) {
        None => None,
        Some(n) => match utf8_text_of(src, t[n].start_byte as int, t[n].end_byte as int) {
            None => None,
            Some(name) => Some(SymbolView {
                id: path + "::"@ + name,
                name,
                kind,
                file: path,
                span: span_of(t, path, i),
                container: None,
                signature: Some(trim(text_of(src, t[i].start_byte as int, t[i].end_byte as int))),
                exported,
            }),
        },
    }
}

pub proof fn lemma_push_symbol(v: Seq<Symbol>, x: Symbol)
    ensures
        symbols_view(v.push(x)) == symbols_view(v).push(x@),
{
    assert(symbols_view(v.push(x)) =~= symbols_view(v).push(x@));
}

fn one_based_of(x: usize) -> (res: u32)
    ensures
        res == one_based(x),
{
    (x as u32).wrapping_add(1)
}

/// Executable `symbol_at`.
pub fn make_symbol(
    t: &Vec<SyntaxNode>,
    src: &[u8],
    path: &str,
    i: usize,
    limit: usize,
    kind: SymbolKind,
    exported: bool,
) -> (res: Option<Symbol>)
    requires
        i < limit <= t.len(),
    ensures
        match res {
            Some(s) => symbol_at(t@, src@, path@, i as int, limit as int, kind, exported) == Some(s@),
            None => symbol_at(t@, src@, path@, i as int, limit as int, kind, exported) is None,
        },
{
    let n = match field_child_of(t, i, limit, "name") {
        Some(n) => n,
        None => return None,
    };
    let name = match utf8_text(src, t[n].start_byte, t[n].end_byte) {
        Some(name) => name,
        None => return None,
    };
    let node = &t[i];
    let span = SourceSpan::new(path, one_based_of(node.start_row), one_based_of(node.start_column),
        one_based_of(node.end_row), one_based_of(node.end_column));
    let text = node_text(t, src, i);
    let signature = trim_str(text.as_str());
    let mut id = String::from_str(path);
    id.append("::");
    id.append(name.as_str());
    let symbol = Symbol::new(id, name, kind, String::from_str(path), span)
        .with_signature(signature)
        .exported(exported);
    Some(symbol)
}

} // verus!
