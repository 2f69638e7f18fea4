//! Entity extraction from TypeScript sources.
use vstd::prelude::*;
use crate::text::opt_chars;
use vstd::string::StringExecFns;
use crate::parser::types::{
    CodeEntity, CodeEntityView, EntityKind, entities_view, strings_view,
};
use crate::text::str_is;
use vstd::string::StringSliceAdditionalSpecFns;
use crate::parser::common::{clone_parent, entity_at, lemma_push_entity, lemma_push_string, make_entity};
use crate::syntax::{
    SyntaxNode, children, field_child, field_child_of, field_text, field_text_of, kind_is,
    line_number, line_number_of, node_text, node_text_of, parse_syntax, Grammar, syntax_of, subtree_end,
    subtree_end_of, 
};

verus! {

/// Declarations whose `export` statement marks them exported.
pub open spec fn is_exportable_declaration(k: Seq<char>) -> bool {
    ||| k == "function_declaration"@
    ||| k == "class_declaration"@
    ||| k == "interface_declaration"@
    ||| k == "enum_declaration"@
    ||| k == "lexical_declaration"@
    ||| k == "abstract_class_declaration"@
}

/// The first of the sibling subtrees from `c` up to `e` that is an exportable declaration.
pub open spec fn first_exportable(t: Seq<SyntaxNode>, c: int, e: int) -> Option<int>
    decreases e - c,
{
    if c < 0 || c >= e || e > t.len() {
        None
    } else if is_exportable_declaration(t[c].kind@) {
        Some(c)
    } else {
        first_exportable(t, subtree_end(t, c, e), e)
    }
}

pub proof fn lemma_first_exportable_bounds(t: Seq<SyntaxNode>, c: int, e: int)
    ensures
        first_exportable(t, c, e) matches Some(k) ==> c <= k < e,
    decreases e - c,
{
    if !(c < 0 || c >= e || e > t.len()) && !is_exportable_declaration(t[c].kind@) {
        lemma_first_exportable_bounds(t, subtree_end(t, c, e), e);
    }
}

/// Keywords kept as qualifiers of a method.
pub open spec fn is_method_qualifier(k: Seq<char>) -> bool {
    ||| k == "async"@
    ||| k == "static"@
    ||| k == "public"@
    ||| k == "private"@
    ||| k == "protected"@
    ||| k == "override"@
    ||| k == "abstract"@
    ||| k == "readonly"@
}

/// The kinds of the qualifier keywords among the siblings from `c` up to `e`, in order.
pub open spec fn method_qualifiers(t: Seq<SyntaxNode>, c: int, e: int) -> Seq<Seq<char>>
    decreases e - c,
{
    if c < 0 || c >= e || e > t.len() {
        Seq::empty()
    } else {
        (if is_method_qualifier(t[c].kind@) { seq![t[c].kind@] } else { Seq::empty() })
            + method_qualifiers(t, subtree_end(t, c, e), e)
    }
}

/// One `async` for each `async` keyword among the siblings from `c` up to `e`.
pub open spec fn async_qualifiers(t: Seq<SyntaxNode>, c: int, e: int) -> Seq<Seq<char>>
    decreases e - c,
{
    if c < 0 || c >= e || e > t.len() {
        Seq::empty()
    } else {
        (if t[c].kind@ == "async"@ { seq!["async"@] } else { Seq::empty() })
            + async_qualifiers(t, subtree_end(t, c, e), e)
    }
}

/// `export` when the declaration is exported.
pub open spec fn export_qualifier(exported: bool) -> Seq<Seq<char>> {
    if exported { seq!["export"@] } else { Seq::empty() }
}

/// The entities found in the subtree of node `i` (inside a parent subtree
/// ending at `limit`), given the enclosing class and whether an `export`
/// statement encloses it.
pub open spec fn ts_node_entities(
    t: Seq<SyntaxNode>,
    src: Seq<u8>,
    path: Seq<char>,
    i: int,
    limit: int,
    parent: Option<Seq<char>>,
    exported: bool,
) -> Seq<CodeEntityView>
    decreases limit - i, 0int,
{
    if i < 0 || i >= limit || limit > t.len() {
        Seq::empty()
    } else {
        let k = t[i].kind@;
        let e = subtree_end(t, i, limit);
        let name = field_text(t, src, i, limit, "name"@);
        if k == "export_statement"@ {
            proof { lemma_first_exportable_bounds(t, i + 1, e); }
            match first_exportable(t, i + 1, e) {
                Some(c) => ts_node_entities(t, src, path, c, e, parent, true),
                None => ts_children_entities(t, src, path, i + 1, e, parent, exported),
            }
        } else if k == "interface_declaration"@ {
            seq![entity_at(t, src, path, i, EntityKind::Interface, name, Seq::empty(),
                export_qualifier(exported), parent)]
        } else if k == "function_declaration"@ {
            let signature = name + field_text(t, src, i, limit, "parameters"@)
                + field_text(t, src, i, limit, "return_type"@);
            seq![entity_at(t, src, path, i, EntityKind::Function, name, signature,
                export_qualifier(exported) + async_qualifiers(t, i + 1, e), parent)]
        } else if k == "class_declaration"@ || k == "abstract_class_declaration"@ {
            let qualifiers = export_qualifier(exported)
                + (if k == "abstract_class_declaration"@ { seq!["abstract"@] } else { Seq::empty() });
            proof { crate::syntax::lemma_first_field_child_bounds(t, i + 1, e, "body"@); }
            seq![entity_at(t, src, path, i, EntityKind::Class, name, name, qualifiers, parent)]
                + match field_child(t, i, limit, "body"@) {
                    Some(b) => ts_children_entities(t, src, path, b + 1, subtree_end(t, b, e), Some(name), false),
                    None => Seq::empty(),
                }
        } else if k == "method_definition"@ {
            let kind = if name == "constructor"@ { EntityKind::Constructor } else { EntityKind::Method };
            seq![entity_at(t, src, path, i, kind, name, field_text(t, src, i, limit, "parameters"@),
                method_qualifiers(t, i + 1, e), parent)]
        } else if k == "public_field_definition"@ {
            seq![entity_at(t, src, path, i, EntityKind::Property, name, Seq::empty(), Seq::empty(), parent)]
        } else {
            ts_children_entities(t, src, path, i + 1, e, parent, exported)
        }
    }
}

/// The entities found in the sibling subtrees from `c` up to `e`, in order.
pub open spec fn ts_children_entities(
    t: Seq<SyntaxNode>,
    src: Seq<u8>,
    path: Seq<char>,
    c: int,
    e: int,
    parent: Option<Seq<char>>,
    exported: bool,
) -> Seq<CodeEntityView>
    decreases e - c, 1int,
{
    if c < 0 || c >= e || e > t.len() {
        Seq::empty()
    } else {
        ts_node_entities(t, src, path, c, e, parent, exported)
            + ts_children_entities(t, src, path, subtree_end(t, c, e), e, parent, exported)
    }
}

/// Extracts entities from TypeScript sources.
pub struct TypeScriptParser {
    grammar: Grammar,
}

/// The entities of the TypeScript file `path` whose text has the bytes
/// `src`: those of the syntax tree that tree-sitter builds.
pub open spec fn typescript_entities(path: Seq<char>, src: Seq<u8>) -> Seq<CodeEntityView> {
    let t = syntax_of(Grammar::TypeScript, src);
    ts_node_entities(t, src, path, 0, t.len() as int, None, false)
}

fn export_qualifier_of(exported: bool) -> (res: Vec<String>)
    ensures
        strings_view(res@) == export_qualifier(exported),
{
    let mut res: Vec<String> = Vec::new();
    if exported {
        let q = String::from_str("export");
        proof { lemma_push_string(res@, q); }
        res.push(q);
    }
    assert(strings_view(res@) =~= export_qualifier(exported));
    res
}

fn first_exportable_of(t: &Vec<SyntaxNode>, c: usize, e: usize) -> (res: Option<usize>)
    requires
        e <= t.len(),
    ensures
        res == (match first_exportable(t@, c as int, e as int) {
            Some(k) => Some(k as usize),
            None => None::<usize>,
        }),
        first_exportable(t@, c as int, e as int) matches Some(k) ==> c <= k < e,
    decreases e - c,
{
    if c >= e {
        return None;
    }
    let n = &t[c];
    if kind_is(n, "function_declaration") || kind_is(n, "class_declaration")
        || kind_is(n, "interface_declaration") || kind_is(n, "enum_declaration")
        || kind_is(n, "lexical_declaration") || kind_is(n, "abstract_class_declaration")
    {
        Some(c)
    } else {
        let next = subtree_end_of(t, c, e);
        first_exportable_of(t, next, e)
    }
}

fn push_method_qualifiers(t: &Vec<SyntaxNode>, c0: usize, e: usize, out: &mut Vec<String>)
    requires
        c0 <= e <= t.len(),
    ensures
        strings_view(final(out)@) == strings_view(old(out)@) + method_qualifiers(t@, c0 as int, e as int),
{
    let mut c = c0;
    while c < e
        invariant
            c0 <= c <= e <= t.len(),
            strings_view(out@) + method_qualifiers(t@, c as int, e as int)
                == strings_view(old(out)@) + method_qualifiers(t@, c0 as int, e as int),
        decreases e - c,
    {
        let n = &t[c];
        let next = subtree_end_of(t, c, e);
        proof {
            assert(method_qualifiers(t@, c as int, e as int) ==
                (if is_method_qualifier(t@[c as int].kind@) { seq![t@[c as int].kind@] } else { Seq::empty() })
                + method_qualifiers(t@, next as int, e as int));
        }
        if kind_is(n, "async") || kind_is(n, "static") || kind_is(n, "public")
            || kind_is(n, "private") || kind_is(n, "protected") || kind_is(n, "override")
            || kind_is(n, "abstract") || kind_is(n, "readonly")
        {
            let k = n.kind.clone();
            proof { lemma_push_string(out@, k); }
            out.push(k);
            assert(strings_view(out@) + method_qualifiers(t@, next as int, e as int)
                =~= strings_view(old(out)@) + method_qualifiers(t@, c0 as int, e as int));
        } else {
            assert(strings_view(out@) + method_qualifiers(t@, next as int, e as int)
                =~= strings_view(old(out)@) + method_qualifiers(t@, c0 as int, e as int));
        }
        c = next;
    }
    assert(strings_view(out@) =~= strings_view(old(out)@) + method_qualifiers(t@, c0 as int, e as int));
}

fn push_async_qualifiers(t: &Vec<SyntaxNode>, c0: usize, e: usize, out: &mut Vec<String>)
    requires
        c0 <= e <= t.len(),
    ensures
        strings_view(final(out)@) == strings_view(old(out)@) + async_qualifiers(t@, c0 as int, e as int),
{
    let mut c = c0;
    while c < e
        invariant
            c0 <= c <= e <= t.len(),
            strings_view(out@) + async_qualifiers(t@, c as int, e as int)
                == strings_view(old(out)@) + async_qualifiers(t@, c0 as int, e as int),
        decreases e - c,
    {
        let n = &t[c];
        let next = subtree_end_of(t, c, e);
        proof {
            assert(async_qualifiers(t@, c as int, e as int) ==
                (if t@[c as int].kind@ == "async"@ { seq!["async"@] } else { Seq::empty() })
                + async_qualifiers(t@, next as int, e as int));
        }
        if kind_is(n, "async") {
            let k = String::from_str("async");
            proof { lemma_push_string(out@, k); }
            out.push(k);
            assert(strings_view(out@) + async_qualifiers(t@, next as int, e as int)
                =~= strings_view(old(out)@) + async_qualifiers(t@, c0 as int, e as int));
        } else {
            assert(strings_view(out@) + async_qualifiers(t@, next as int, e as int)
                =~= strings_view(old(out)@) + async_qualifiers(t@, c0 as int, e as int));
        }
        c = next;
    }
    assert(strings_view(out@) =~= strings_view(old(out)@) + async_qualifiers(t@, c0 as int, e as int));
}

impl TypeScriptParser {
    /// Every parser of this kind reads TypeScript.
    #[verifier::type_invariant]
    spec fn reads_typescript(self) -> bool {
        self.grammar == Grammar::TypeScript
    }

    /// The grammar that the parser reads its sources with.
    pub closed spec fn grammar(&self) -> Grammar {
        self.grammar
    }

    /// A parser for TypeScript.
    pub fn new() -> (res: Self)
        ensures
            res.grammar() == Grammar::TypeScript,
    {
        TypeScriptParser { grammar: Grammar::TypeScript }
    }

    /// The entities of the TypeScript file `file_path` with text `source`.
    pub fn extract(&self, file_path: &str, source: &str) -> (res: Vec<CodeEntity>)
        ensures
            entities_view(res@) == typescript_entities(file_path@, source.spec_bytes()),
    {
        proof { use_type_invariant(self); }
        match parse_syntax(self.grammar, source) {
            Ok(nodes) => Self::entities_of(&nodes, file_path, source),
            Err(_) => Vec::new(),
        }
    }

    /// The entities that the syntax tree `nodes` of `source` holds, in the
    /// order of a depth-first walk from the root.
    pub fn entities_of(nodes: &Vec<SyntaxNode>, file_path: &str, source: &str) -> (res: Vec<CodeEntity>)
        ensures
            entities_view(res@) == ts_node_entities(nodes@, source.spec_bytes(), file_path@, 0,
                nodes.len() as int, None, false),
    {
        let mut out: Vec<CodeEntity> = Vec::new();
        if nodes.len() > 0 {
            Self::walk(nodes, source.as_bytes(), file_path, 0, nodes.len(), &None, false, &mut out);
        }
        assert(entities_view(out@) =~= Seq::<CodeEntityView>::empty()
            + ts_node_entities(nodes@, source.spec_bytes(), file_path@, 0, nodes.len() as int, None, false));
        out
    }

    fn walk(
        t: &Vec<SyntaxNode>,
        src: &[u8],
        path: &str,
        i: usize,
        limit: usize,
        parent: &Option<String>,
        exported: bool,
        out: &mut Vec<CodeEntity>,
    )
        requires
            i < limit <= t.len(),
        ensures
            entities_view(final(out)@) == entities_view(old(out)@)
                + ts_node_entities(t@, src@, path@, i as int, limit as int, opt_chars(*parent), exported),
        decreases limit - i, 0int,
    {
        let ghost spec_parent = opt_chars(*parent);
        let e = subtree_end_of(t, i, limit);
        let node = &t[i];
        if kind_is(node, "export_statement") {
            match first_exportable_of(t, i + 1, e) {
                Some(c) => Self::walk(t, src, path, c, e, parent, true, out),
                None => Self::walk_children(t, src, path, i + 1, e, parent, exported, out),
            }
        } else if kind_is(node, "interface_declaration") {
            let name = field_text_of(t, src, i, limit, "name");
            let entity = make_entity(t, src, path, i, EntityKind::Interface, name, String::new(),
                export_qualifier_of(exported), clone_parent(parent));
            proof { lemma_push_entity(old(out)@, entity); }
            out.push(entity);
        } else if kind_is(node, "function_declaration") {
            let name = field_text_of(t, src, i, limit, "name");
            let params = field_text_of(t, src, i, limit, "parameters");
            let ret = field_text_of(t, src, i, limit, "return_type");
            let mut signature = name.clone();
            signature.append(params.as_str());
            signature.append(ret.as_str());
            let mut qualifiers = export_qualifier_of(exported);
            push_async_qualifiers(t, i + 1, e, &mut qualifiers);
            let entity = make_entity(t, src, path, i, EntityKind::Function, name, signature,
                qualifiers, clone_parent(parent));
            proof { lemma_push_entity(old(out)@, entity); }
            out.push(entity);
        } else if kind_is(node, "class_declaration") || kind_is(node, "abstract_class_declaration") {
            let name = field_text_of(t, src, i, limit, "name");
            let mut qualifiers = export_qualifier_of(exported);
            if kind_is(node, "abstract_class_declaration") {
                let q = String::from_str("abstract");
                proof { lemma_push_string(qualifiers@, q); }
                qualifiers.push(q);
            }
            let ghost q = strings_view(qualifiers@);
            assert(q =~= export_qualifier(exported)
                + (if t@[i as int].kind@ == "abstract_class_declaration"@ { seq!["abstract"@] } else { Seq::<Seq<char>>::empty() }));
            let entity = make_entity(t, src, path, i, EntityKind::Class, name.clone(), name.clone(),
                qualifiers, clone_parent(parent));
            proof { lemma_push_entity(old(out)@, entity); }
            out.push(entity);
            let ghost after_class = entities_view(out@);
            match field_child_of(t, i, limit, "body") {
                Some(b) => {
                    let be = subtree_end_of(t, b, e);
                    Self::walk_children(t, src, path, b + 1, be, &Some(name), false, out);
                },
                None => {},
            }
            assert(entities_view(out@) =~= entities_view(old(out)@)
                + ts_node_entities(t@, src@, path@, i as int, limit as int, spec_parent, exported));
        } else if kind_is(node, "method_definition") {
            let name = field_text_of(t, src, i, limit, "name");
            let params = field_text_of(t, src, i, limit, "parameters");
            let kind = if str_is(name.as_str(), "constructor") {
                EntityKind::Constructor
            } else {
                EntityKind::Method
            };
            let mut qualifiers: Vec<String> = Vec::new();
            push_method_qualifiers(t, i + 1, e, &mut qualifiers);
            assert(strings_view(qualifiers@) =~= method_qualifiers(t@, i + 1, e as int));
            let entity = make_entity(t, src, path, i, kind, name, params, qualifiers, clone_parent(parent));
            proof { lemma_push_entity(old(out)@, entity); }
            out.push(entity);
        } else if kind_is(node, "public_field_definition") {
            let name = field_text_of(t, src, i, limit, "name");
            let qualifiers: Vec<String> = Vec::new();
            assert(strings_view(qualifiers@) =~= Seq::<Seq<char>>::empty());
            let entity = make_entity(t, src, path, i, EntityKind::Property, name, String::new(),
                qualifiers, clone_parent(parent));
            proof { lemma_push_entity(old(out)@, entity); }
            out.push(entity);
        } else {
            Self::walk_children(t, src, path, i + 1, e, parent, exported, out);
        }
    }

    fn walk_children(
        t: &Vec<SyntaxNode>,
        src: &[u8],
        path: &str,
        c0: usize,
        e: usize,
        parent: &Option<String>,
        exported: bool,
        out: &mut Vec<CodeEntity>,
    )
        requires
            c0 <= e <= t.len(),
        ensures
            entities_view(final(out)@) == entities_view(old(out)@)
                + ts_children_entities(t@, src@, path@, c0 as int, e as int, opt_chars(*parent), exported),
        decreases e - c0, 1int,
    {
        let ghost p = opt_chars(*parent);
        let mut c = c0;
        while c < e
            invariant
                c0 <= c <= e <= t.len(),
                p == opt_chars(*parent),
                entities_view(out@) + ts_children_entities(t@, src@, path@, c as int, e as int, p, exported)
                    == entities_view(old(out)@) + ts_children_entities(t@, src@, path@, c0 as int, e as int, p, exported),
            decreases e - c,
        {
            let next = subtree_end_of(t, c, e);
            let ghost before = entities_view(out@);
            proof {
                assert(ts_children_entities(t@, src@, path@, c as int, e as int, p, exported)
                    == ts_node_entities(t@, src@, path@, c as int, e as int, p, exported)
                        + ts_children_entities(t@, src@, path@, next as int, e as int, p, exported));
            }
            Self::walk(t, src, path, c, e, parent, exported, out);
            assert(entities_view(out@) + ts_children_entities(t@, src@, path@, next as int, e as int, p, exported)
                =~= before + ts_children_entities(t@, src@, path@, c as int, e as int, p, exported));
            c = next;
        }
        assert(entities_view(out@) =~= entities_view(old(out)@)
            + ts_children_entities(t@, src@, path@, c0 as int, e as int, p, exported));
    }
}

/// A TypeScript class-member modifier keyword.
pub open spec fn is_member_modifier(k: Seq<char>) -> bool {
    set!["static"@, "async"@, "public"@, "private"@, "protected"@, "override"@, "abstract"@, "readonly"@].contains(k)
}

proof fn lemma_method_qualifiers_filter(t: Seq<SyntaxNode>, c: int, e: int)
    ensures
        method_qualifiers(t, c, e) == children(t, c, e).filter(|x: int| is_member_modifier(t[x].kind@))
            .map_values(|x: int| t[x].kind@),
    decreases e - c,
{
    let p = |x: int| is_member_modifier(t[x].kind@);
    let f = |x: int| t[x].kind@;
    if c < 0 || c >= e || e > t.len() {
        assert(children(t, c, e) =~= Seq::<int>::empty());
        reveal(Seq::filter);
        assert(children(t, c, e).filter(p) =~= Seq::<int>::empty());
        assert(children(t, c, e).filter(p).map_values(f) =~= Seq::<Seq<char>>::empty());
    } else {
        let next = subtree_end(t, c, e);
        lemma_method_qualifiers_filter(t, next, e);
        let rest = children(t, next, e);
        assert(children(t, c, e) == seq![c] + rest);
        rest.lemma_filter_prepend(c, p);
        assert(is_method_qualifier(t[c].kind@) == p(c));
        let head: Seq<int> = if p(c) { seq![c] } else { Seq::empty() };
        assert((head + rest.filter(p)).map_values(f) =~= head.map_values(f) + rest.filter(p).map_values(f));
        assert(head.map_values(f) =~= (if is_method_qualifier(t[c].kind@) { seq![t[c].kind@] } else { Seq::<Seq<char>>::empty() }));
    }
}

/// The qualifiers of a TypeScript method are exactly its modifier keyword
/// children (`static`, `async`, `public`, `private`, `protected`,
/// `override`, `abstract`, `readonly`), in source order.
pub proof fn lemma_method_qualifiers_are_modifiers(
    t: Seq<SyntaxNode>,
    src: Seq<u8>,
    path: Seq<char>,
    i: int,
    limit: int,
    parent: Option<Seq<char>>,
    exported: bool,
)
    requires
        0 <= i < limit <= t.len(),
        t[i].kind@ == "method_definition"@,
    ensures
        ts_node_entities(t, src, path, i, limit, parent, exported).len() == 1,
        ts_node_entities(t, src, path, i, limit, parent, exported)[0].qualifiers
            == children(t, i + 1, subtree_end(t, i, limit)).filter(|x: int| is_member_modifier(t[x].kind@))
                .map_values(|x: int| t[x].kind@),
{
    reveal_strlit("method_definition");
    reveal_strlit("export_statement");
    reveal_strlit("interface_declaration");
    reveal_strlit("function_declaration");
    reveal_strlit("class_declaration");
    reveal_strlit("abstract_class_declaration");
    let k = t[i].kind@;
    assert(k != "export_statement"@) by { assert(k[0] != "export_statement"@[0]); }
    assert(k != "interface_declaration"@) by { assert(k.len() != "interface_declaration"@.len()); }
    assert(k != "function_declaration"@) by { assert(k.len() != "function_declaration"@.len()); }
    assert(k != "class_declaration"@) by { assert(k[0] != "class_declaration"@[0]); }
    assert(k != "abstract_class_declaration"@) by { assert(k.len() != "abstract_class_declaration"@.len()); }
    lemma_method_qualifiers_filter(t, i + 1, subtree_end(t, i, limit));
}

} // verus!
