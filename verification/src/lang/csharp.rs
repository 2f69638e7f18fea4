//! Symbols and fingerprints of C# sources.
use vstd::prelude::*;
use vstd::string::StringExecFns;
use vstd::string::StringSliceAdditionalSpecFns;
use crate::ir::file::FileAnalysis;
use crate::ir::model::{Symbol, SymbolKind, SymbolView, symbols_view};
use crate::lang::{Language, ParseError};
use crate::lang::fingerprint::{lexical_hash, token_hash, structure_hash};
use crate::lang::symbols::{lemma_push_symbol, make_symbol, symbol_at};
use crate::lang::typescript::{count_lines, line_count, lexical_hash_spec, token_hash_spec, structure_hash_spec};
use crate::syntax::{
    Grammar, SyntaxFailure, SyntaxNode, children, kind_is, parse_syntax, syntax_of, subtree_end, subtree_end_of,
    utf8_text, utf8_text_of,
};
use crate::text::{str_is, trim, trim_str};

verus! {

/// Whether one of the children from `c` up to `e` is a `modifier` whose
/// trimmed text is `public`.
pub open spec fn has_public_modifier(t: Seq<SyntaxNode>, src: Seq<u8>, c: int, e: int) -> bool
    decreases e - c,
{
    if c < 0 || c >= e || e > t.len() {
        false
    } else {
        (t[c].kind@ == "modifier"@ && match utf8_text_of(src, t[c].start_byte as int, t[c].end_byte as int) {
            Some(text) => trim(text) == "public"@,
            None => false,
        }) || has_public_modifier(t, src, subtree_end(t, c, e), e)
    }
}

/// The symbol kind that a declaration node stands for.
pub open spec fn declaration_kind(k: Seq<char>) -> Option<SymbolKind> {
    if k == "class_declaration"@ {
        Some(SymbolKind::Class)
    } else if k == "interface_declaration"@ {
        Some(SymbolKind::Interface)
    } else if k == "record_declaration"@ {
        Some(SymbolKind::Record)
    } else if k == "method_declaration"@ {
        Some(SymbolKind::Method)
    } else if k == "constructor_declaration"@ {
        Some(SymbolKind::Constructor)
    } else if k == "property_declaration"@ {
        Some(SymbolKind::Property)
    } else {
        None
    }
}

/// The symbols declared in the subtree of node `i`: classes, interfaces,
/// records, methods, constructors, properties and the declarators of fields,
/// each exported when it carries a `public` modifier.
pub open spec fn cs_symbols(t: Seq<SyntaxNode>, src: Seq<u8>, path: Seq<char>, i: int, limit: int) -> Seq<SymbolView>
    decreases limit - i, 2int,
{
    if i < 0 || i >= limit || limit > t.len() {
        Seq::empty()
    } else {
        let k = t[i].kind@;
        let e = subtree_end(t, i, limit);
        match declaration_kind(k) {
            Some(kind) => cs_push(t, src, path, i, limit, kind, has_public_modifier(t, src, i + 1, e)),
            None => if k == "field_declaration"@ {
                cs_field_symbols(t, src, path, i + 1, e, has_public_modifier(t, src, i + 1, e))
            } else {
                cs_symbols_children(t, src, path, i + 1, e)
            },
        }
    }
}

/// The symbol of node `i` followed by those declared inside it; nothing when
/// node `i` yields no symbol.
pub open spec fn cs_push(t: Seq<SyntaxNode>, src: Seq<u8>, path: Seq<char>, i: int, limit: int, kind: SymbolKind,
    exported: bool) -> Seq<SymbolView>
    decreases limit - i, 1int,
{
    if i < 0 || i >= limit || limit > t.len() {
        Seq::empty()
    } else {
        match symbol_at(t, src, path, i, limit, kind, exported) {
            Some(s) => seq![s] + cs_symbols_children(t, src, path, i + 1, subtree_end(t, i, limit)),
            None => Seq::empty(),
        }
    }
}

/// The field symbols of the named `variable_declarator` children from `c` up to `e`.
pub open spec fn cs_field_symbols(t: Seq<SyntaxNode>, src: Seq<u8>, path: Seq<char>, c: int, e: int, exported: bool) -> Seq<SymbolView>
    decreases e - c, 3int,
{
    if c < 0 || c >= e || e > t.len() {
        Seq::empty()
    } else {
        (if t[c].named && t[c].kind@ == "variable_declarator"@ {
            cs_push(t, src, path, c, e, SymbolKind::Field, exported)
        } else {
            Seq::empty()
        }) + cs_field_symbols(t, src, path, subtree_end(t, c, e), e, exported)
    }
}

/// The symbols declared in the named sibling subtrees from `c` up to `e`.
pub open spec fn cs_symbols_children(t: Seq<SyntaxNode>, src: Seq<u8>, path: Seq<char>, c: int, e: int) -> Seq<SymbolView>
    decreases e - c, 3int,
{
    if c < 0 || c >= e || e > t.len() {
        Seq::empty()
    } else {
        (if t[c].named { cs_symbols(t, src, path, c, e) } else { Seq::empty() })
            + cs_symbols_children(t, src, path, subtree_end(t, c, e), e)
    }
}

/// `a` is the analysis of the C# file `path` with text `source` and
/// syntax tree `t`: its symbols, its line count as code lines, and its
/// three fingerprints.
pub open spec fn is_cs_analysis(a: FileAnalysis, t: Seq<SyntaxNode>, path: &str, source: &str) -> bool {
    &&& a.path@ == path@
    &&& a.language == Language::CSharp
    &&& symbols_view(a.symbols@) == cs_symbols(t, source.spec_bytes(), path@, 0, t.len() as int)
    &&& a.references@.len() == 0
    &&& a.metrics.code_lines == line_count(source@)
    &&& a.metrics.comment_lines == 0
    &&& a.metrics.blank_lines == 0
    &&& a.metrics.cyclomatic_complexity == 0
    &&& a.lexical_hash == Some(lexical_hash_spec(t, source))
    &&& a.token_hash == Some(token_hash_spec(t, source))
    &&& a.ast_hash == Some(structure_hash_spec(t))
}

/// Parses the C# file `path` with text `source`. With the bundled grammar
/// it always succeeds.
pub fn parse_file(path: &str, source: &str) -> (res: Result<FileAnalysis, ParseError>)
    ensures
        res is Ok,
        res matches Ok(a) ==> is_cs_analysis(a, syntax_of(Grammar::CSharp, source.spec_bytes()), path, source),
{
    match parse_syntax(Grammar::CSharp, source) {
        Ok(nodes) => Ok(analysis_of(&nodes, path, source)),
        Err(SyntaxFailure::Language(message)) => {
            let mut m = String::from_str("failed to load C# parser: ");
            m.append(message.as_str());
            Err(ParseError::new(m))
        },
        Err(SyntaxFailure::Parse) => Err(ParseError::new(String::from_str("failed to parse C# source"))),
    }
}

/// The analysis of the C# file `path` whose text `source` has the syntax
/// tree `nodes`: its symbols, its line count as code lines, and its three
/// fingerprints.
pub fn analysis_of(nodes: &Vec<SyntaxNode>, path: &str, source: &str) -> (res: FileAnalysis)
    ensures
        is_cs_analysis(res, nodes@, path, source),
{
    let mut analysis = FileAnalysis::new(String::from_str(path), Language::CSharp);
    analysis.metrics.code_lines = count_lines(source);
    analysis.lexical_hash = Some(lexical_hash(nodes, source));
    analysis.token_hash = Some(token_hash(nodes, source));
    analysis.ast_hash = Some(structure_hash(nodes));
    let mut symbols: Vec<Symbol> = Vec::new();
    if nodes.len() > 0 {
        collect_symbols(nodes, source.as_bytes(), path, 0, nodes.len(), &mut symbols);
    }
    assert(symbols_view(symbols@) =~= Seq::<SymbolView>::empty()
        + cs_symbols(nodes@, source.spec_bytes(), path@, 0, nodes.len() as int));
    analysis.symbols = symbols;
    analysis
}

fn public_modifier(t: &Vec<SyntaxNode>, src: &[u8], c0: usize, e: usize) -> (res: bool)
    requires
        c0 <= e <= t.len(),
    ensures
        res == has_public_modifier(t@, src@, c0 as int, e as int),
{
    let mut c = c0;
    while c < e
        invariant
            c0 <= c <= e <= t.len(),
            has_public_modifier(t@, src@, c0 as int, e as int) == has_public_modifier(t@, src@, c as int, e as int),
        decreases e - c,
    {
        let next = subtree_end_of(t, c, e);
        if kind_is(&t[c], "modifier") {
            match utf8_text(src, t[c].start_byte, t[c].end_byte) {
                Some(text) => {
                    let trimmed = trim_str(text.as_str());
                    if str_is(trimmed.as_str(), "public") {
                        return true;
                    }
                },
                None => {},
            }
        }
        c = next;
    }
    false
}

fn declaration_kind_of(node: &SyntaxNode) -> (res: Option<SymbolKind>)
    ensures
        res == declaration_kind(node.kind@),
{
    if kind_is(node, "class_declaration") {
        Some(SymbolKind::Class)
    } else if kind_is(node, "interface_declaration") {
        Some(SymbolKind::Interface)
    } else if kind_is(node, "record_declaration") {
        Some(SymbolKind::Record)
    } else if kind_is(node, "method_declaration") {
        Some(SymbolKind::Method)
    } else if kind_is(node, "constructor_declaration") {
        Some(SymbolKind::Constructor)
    } else if kind_is(node, "property_declaration") {
        Some(SymbolKind::Property)
    } else {
        None
    }
}

fn collect_symbols(t: &Vec<SyntaxNode>, src: &[u8], path: &str, i: usize, limit: usize, out: &mut Vec<Symbol>)
    requires
        i < limit <= t.len(),
    ensures
        symbols_view(final(out)@) == symbols_view(old(out)@) + cs_symbols(t@, src@, path@, i as int, limit as int),
    decreases limit - i, 2int,
{
    let e = subtree_end_of(t, i, limit);
    match declaration_kind_of(&t[i]) {
        Some(kind) => {
            let exported = public_modifier(t, src, i + 1, e);
            push_symbol(t, src, path, i, limit, kind, exported, out);
        },
        None => {
            if kind_is(&t[i], "field_declaration") {
                let exported = public_modifier(t, src, i + 1, e);
                push_field_symbols(t, src, path, i + 1, e, exported, out);
            } else {
                collect_children(t, src, path, i + 1, e, out);
            }
        },
    }
}

fn push_symbol(t: &Vec<SyntaxNode>, src: &[u8], path: &str, i: usize, limit: usize, kind: SymbolKind,
    exported: bool, out: &mut Vec<Symbol>)
    requires
        i < limit <= t.len(),
    ensures
        symbols_view(final(out)@) == symbols_view(old(out)@) + cs_push(t@, src@, path@, i as int, limit as int, kind, exported),
    decreases limit - i, 1int,
{
    match make_symbol(t, src, path, i, limit, kind, exported) {
        Some(s) => {
            let ghost before = symbols_view(out@);
            proof { lemma_push_symbol(out@, s); }
            out.push(s);
            let e = subtree_end_of(t, i, limit);
            collect_children(t, src, path, i + 1, e, out);
            assert(symbols_view(out@) =~= before + cs_push(t@, src@, path@, i as int, limit as int, kind, exported));
        },
        None => {
            assert(symbols_view(out@) =~= symbols_view(out@) + Seq::<SymbolView>::empty());
        },
    }
}

fn push_field_symbols(t: &Vec<SyntaxNode>, src: &[u8], path: &str, c0: usize, e: usize, exported: bool,
    out: &mut Vec<Symbol>)
    requires
        c0 <= e <= t.len(),
    ensures
        symbols_view(final(out)@) == symbols_view(old(out)@) + cs_field_symbols(t@, src@, path@, c0 as int, e as int, exported),
    decreases e - c0, 3int,
{
    let mut c = c0;
    while c < e
        invariant
            c0 <= c <= e <= t.len(),
            symbols_view(out@) + cs_field_symbols(t@, src@, path@, c as int, e as int, exported)
                == symbols_view(old(out)@) + cs_field_symbols(t@, src@, path@, c0 as int, e as int, exported),
        decreases e - c,
    {
        let next = subtree_end_of(t, c, e);
        let ghost before = symbols_view(out@);
        if t[c].named && kind_is(&t[c], "variable_declarator") {
            push_symbol(t, src, path, c, e, SymbolKind::Field, exported, out);
        }
        assert(symbols_view(out@) + cs_field_symbols(t@, src@, path@, next as int, e as int, exported)
            =~= before + cs_field_symbols(t@, src@, path@, c as int, e as int, exported));
        c = next;
    }
    assert(symbols_view(out@) =~= symbols_view(old(out)@) + cs_field_symbols(t@, src@, path@, c0 as int, e as int, exported));
}

fn collect_children(t: &Vec<SyntaxNode>, src: &[u8], path: &str, c0: usize, e: usize, out: &mut Vec<Symbol>)
    requires
        c0 <= e <= t.len(),
    ensures
        symbols_view(final(out)@) == symbols_view(old(out)@) + cs_symbols_children(t@, src@, path@, c0 as int, e as int),
    decreases e - c0, 3int,
{
    let mut c = c0;
    while c < e
        invariant
            c0 <= c <= e <= t.len(),
            symbols_view(out@) + cs_symbols_children(t@, src@, path@, c as int, e as int)
                == symbols_view(old(out)@) + cs_symbols_children(t@, src@, path@, c0 as int, e as int),
        decreases e - c,
    {
        let next = subtree_end_of(t, c, e);
        let ghost before = symbols_view(out@);
        if t[c].named {
            collect_symbols(t, src, path, c, e, out);
        }
        assert(symbols_view(out@) + cs_symbols_children(t@, src@, path@, next as int, e as int)
            =~= before + cs_symbols_children(t@, src@, path@, c as int, e as int));
        c = next;
    }
    assert(symbols_view(out@) =~= symbols_view(old(out)@) + cs_symbols_children(t@, src@, path@, c0 as int, e as int));
}

/// Node `c` is a `modifier` whose text, trimmed, reads `public`.
pub open spec fn is_public_keyword_node(t: Seq<SyntaxNode>, src: Seq<u8>, c: int) -> bool {
    &&& t[c].kind@ == "modifier"@
    &&& utf8_text_of(src, t[c].start_byte as int, t[c].end_byte as int) matches Some(w)
    &&& trim(w) =~= seq!['p', 'u', 'b', 'l', 'i', 'c']
}

/// Some node among `cs` is a `public` modifier.
pub open spec fn some_public_keyword(t: Seq<SyntaxNode>, src: Seq<u8>, cs: Seq<int>) -> bool {
    exists|c: int| cs.contains(c) && #[trigger] is_public_keyword_node(t, src, c)
}

proof fn lemma_public_modifier_children(t: Seq<SyntaxNode>, src: Seq<u8>, c: int, e: int)
    ensures
        has_public_modifier(t, src, c, e) == some_public_keyword(t, src, children(t, c, e)),
    decreases e - c,
{
    reveal_strlit("public");
    reveal_strlit("modifier");
    if !(c < 0 || c >= e || e > t.len()) {
        let next = subtree_end(t, c, e);
        lemma_public_modifier_children(t, src, next, e);
        let rest = children(t, next, e);
        let all = children(t, c, e);
        assert(all == seq![c] + rest);
        assert("public"@ =~= seq!['p', 'u', 'b', 'l', 'i', 'c']);
        assert(is_public_keyword_node(t, src, c) == (t[c].kind@ == "modifier"@
            && match utf8_text_of(src, t[c].start_byte as int, t[c].end_byte as int) {
                Some(x) => trim(x) == "public"@,
                None => false,
            }));
        if some_public_keyword(t, src, all) {
            let x = choose|x: int| all.contains(x) && #[trigger] is_public_keyword_node(t, src, x);
            if x != c {
                let k = choose|k: int| 0 <= k < all.len() && all[k] == x;
                assert(rest[k - 1] == x);
                assert(some_public_keyword(t, src, rest));
            }
        }
        if some_public_keyword(t, src, rest) {
            let x = choose|x: int| rest.contains(x) && #[trigger] is_public_keyword_node(t, src, x);
            let k = choose|k: int| 0 <= k < rest.len() && rest[k] == x;
            assert(all[k + 1] == x);
        }
        if is_public_keyword_node(t, src, c) {
            assert(all[0] == c);
        }
    } else {
        assert(children(t, c, e) =~= Seq::<int>::empty());
    }
}

/// A C# declaration (class, interface, record, method, constructor or
/// property) is exported exactly when one of its direct children is a
/// `modifier` reading `public`: `internal`, `private`, `protected` or
/// `static` modifiers alone leave it unexported.
pub proof fn lemma_cs_exported_iff_public(t: Seq<SyntaxNode>, src: Seq<u8>, path: Seq<char>, i: int, limit: int)
    requires
        0 <= i < limit <= t.len(),
        declaration_kind(t[i].kind@) is Some,
        cs_symbols(t, src, path, i, limit).len() > 0,
    ensures
        cs_symbols(t, src, path, i, limit)[0].exported
            == some_public_keyword(t, src, children(t, i + 1, subtree_end(t, i, limit))),
{
    lemma_public_modifier_children(t, src, i + 1, subtree_end(t, i, limit));
}

} // verus!
