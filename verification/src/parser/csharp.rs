//! Entity extraction from C# sources.
use vstd::prelude::*;
use crate::text::opt_chars;
use vstd::string::StringExecFns;
use vstd::string::StringSliceAdditionalSpecFns;
use crate::parser::types::{
    CodeEntity, CodeEntityView, EntityKind, entities_view, strings_view,
};
use crate::parser::common::{clone_parent, entity_at, lemma_push_entity, lemma_push_string, make_entity};
use crate::syntax::{
    SyntaxNode, field_child, field_child_of, field_text, field_text_of, kind_is, node_text,
    node_text_of, parse_syntax, Grammar, syntax_of, subtree_end, subtree_end_of,
};
use crate::text::{str_is, trim, trim_str};

verus! {

/// Modifier keywords kept as qualifiers.
pub open spec fn is_csharp_qualifier(w: Seq<char>) -> bool {
    ||| w == "public"@
    ||| w == "private"@
    ||| w == "protected"@
    ||| w == "internal"@
    ||| w == "static"@
    ||| w == "async"@
    ||| w == "abstract"@
    ||| w == "virtual"@
    ||| w == "override"@
    ||| w == "sealed"@
    ||| w == "readonly"@
    ||| w == "partial"@
}

/// The texts of the siblings from `c` up to `e` that are modifier keywords, in order.
pub open spec fn csharp_qualifiers(t: Seq<SyntaxNode>, src: Seq<u8>, c: int, e: int) -> Seq<Seq<char>>
    decreases e - c,
{
    if c < 0 || c >= e || e > t.len() {
        Seq::empty()
    } else {
        let w = node_text_of(t, src, c);
        (if is_csharp_qualifier(w) { seq![w] } else { Seq::empty() })
            + csharp_qualifiers(t, src, subtree_end(t, c, e), e)
    }
}

/// The entities found in the subtree of node `i` (inside a parent subtree
/// ending at `limit`), given the enclosing class.
pub open spec fn cs_node_entities(
    t: Seq<SyntaxNode>,
    src: Seq<u8>,
    path: Seq<char>,
    i: int,
    limit: int,
    parent: Option<Seq<char>>,
) -> Seq<CodeEntityView>
    decreases limit - i, 0int,
{
    if i < 0 || i >= limit || limit > t.len() {
        Seq::empty()
    } else {
        let k = t[i].kind@;
        let e = subtree_end(t, i, limit);
        let name = field_text(t, src, i, limit, "name"@);
        let quals = csharp_qualifiers(t, src, i + 1, e);
        if k == "interface_declaration"@ {
            seq![entity_at(t, src, path, i, EntityKind::Interface, name, Seq::empty(), quals, parent)]
        } else if k == "class_declaration"@ {
            proof { crate::syntax::lemma_first_field_child_bounds(t, i + 1, e, "body"@); }
            seq![entity_at(t, src, path, i, EntityKind::Class, name, name, quals, parent)]
                + match field_child(t, i, limit, "body"@) {
                    Some(b) => cs_children_entities(t, src, path, b + 1, subtree_end(t, b, e), Some(name)),
                    None => Seq::empty(),
                }
        } else if k == "method_declaration"@ {
            let signature = trim(field_text(t, src, i, limit, "type"@) + " "@
                + field_text(t, src, i, limit, "parameters"@));
            seq![entity_at(t, src, path, i, EntityKind::Method, name, signature, quals, parent)]
        } else if k == "constructor_declaration"@ {
            seq![entity_at(t, src, path, i, EntityKind::Constructor, name, Seq::empty(), quals, parent)]
        } else {
            cs_children_entities(t, src, path, i + 1, e, parent)
        }
    }
}

/// The entities found in the sibling subtrees from `c` up to `e`, in order.
pub open spec fn cs_children_entities(
    t: Seq<SyntaxNode>,
    src: Seq<u8>,
    path: Seq<char>,
    c: int,
    e: int,
    parent: Option<Seq<char>>,
) -> Seq<CodeEntityView>
    decreases e - c, 1int,
{
    if c < 0 || c >= e || e > t.len() {
        Seq::empty()
    } else {
        cs_node_entities(t, src, path, c, e, parent)
            + cs_children_entities(t, src, path, subtree_end(t, c, e), e, parent)
    }
}

/// Extracts entities from C# sources.
pub struct CSharpParser {
    grammar: Grammar,
}

/// The entities of the C# file `path` whose text has the bytes `src`:
/// those of the syntax tree that tree-sitter builds.
pub open spec fn csharp_entities(path: Seq<char>, src: Seq<u8>) -> Seq<CodeEntityView> {
    let t = syntax_of(Grammar::CSharp, src);
    cs_node_entities(t, src, path, 0, t.len() as int, None)
}

impl CSharpParser {
    /// Every parser of this kind reads C#.
    #[verifier::type_invariant]
    spec fn reads_csharp(self) -> bool {
        self.grammar == Grammar::CSharp
    }

    /// The grammar that the parser reads its sources with.
    pub closed spec fn grammar(&self) -> Grammar {
        self.grammar
    }

    /// A parser for C#.
    pub fn new() -> (res: Self)
        ensures
            res.grammar() == Grammar::CSharp,
    {
        CSharpParser { grammar: Grammar::CSharp }
    }

    /// The entities of the C# file `file_path` with text `source`.
    pub fn extract(&self, file_path: &str, source: &str) -> (res: Vec<CodeEntity>)
        ensures
            entities_view(res@) == csharp_entities(file_path@, source.spec_bytes()),
    {
        proof { use_type_invariant(self); }
        match parse_syntax(self.grammar, source) {
            Ok(nodes) => Self::entities_of(&nodes, file_path, source),
            Err(_) => Vec::new(),
        }
    }

    /// The entities that the syntax tree `nodes` of `source` holds, in the
    /// order of a depth-first walk from the root.
    pub fn entities_of(nodes: &Vec<SyntaxNode>, file_path: &str, source: &str) -> (res: Vec<CodeEntity>)
        ensures
            entities_view(res@) == cs_node_entities(nodes@, source.spec_bytes(), file_path@, 0,
                nodes.len() as int, None),
    {
        let mut out: Vec<CodeEntity> = Vec::new();
        if nodes.len() > 0 {
            Self::walk(nodes, source.as_bytes(), file_path, 0, nodes.len(), &None, &mut out);
        }
        assert(entities_view(out@) =~= Seq::<CodeEntityView>::empty()
            + cs_node_entities(nodes@, source.spec_bytes(), file_path@, 0, nodes.len() as int, None));
        out
    }

    fn collect_qualifiers(t: &Vec<SyntaxNode>, src: &[u8], c0: usize, e: usize) -> (res: Vec<String>)
        requires
            c0 <= e <= t.len(),
        ensures
            strings_view(res@) == csharp_qualifiers(t@, src@, c0 as int, e as int),
    {
        let mut out: Vec<String> = Vec::new();
        let mut c = c0;
        while c < e
            invariant
                c0 <= c <= e <= t.len(),
                strings_view(out@) + csharp_qualifiers(t@, src@, c as int, e as int)
                    == csharp_qualifiers(t@, src@, c0 as int, e as int),
            decreases e - c,
        {
            let next = subtree_end_of(t, c, e);
            let w = node_text(t, src, c);
            let s = w.as_str();
            let keep = str_is(s, "public") || str_is(s, "private") || str_is(s, "protected")
                || str_is(s, "internal") || str_is(s, "static") || str_is(s, "async")
                || str_is(s, "abstract") || str_is(s, "virtual") || str_is(s, "override")
                || str_is(s, "sealed") || str_is(s, "readonly") || str_is(s, "partial");
            proof {
                assert(csharp_qualifiers(t@, src@, c as int, e as int) ==
                    (if is_csharp_qualifier(w@) { seq![w@] } else { Seq::empty() })
                    + csharp_qualifiers(t@, src@, next as int, e as int));
            }
            if keep {
                proof { lemma_push_string(out@, w); }
                out.push(w);
            }
            assert(strings_view(out@) + csharp_qualifiers(t@, src@, next as int, e as int)
                =~= csharp_qualifiers(t@, src@, c0 as int, e as int));
            c = next;
        }
        assert(strings_view(out@) =~= csharp_qualifiers(t@, src@, c0 as int, e as int));
        out
    }

    fn walk(
        t: &Vec<SyntaxNode>,
        src: &[u8],
        path: &str,
        i: usize,
        limit: usize,
        parent: &Option<String>,
        out: &mut Vec<CodeEntity>,
    )
        requires
            i < limit <= t.len(),
        ensures
            entities_view(final(out)@) == entities_view(old(out)@)
                + cs_node_entities(t@, src@, path@, i as int, limit as int, opt_chars(*parent)),
        decreases limit - i, 0int,
    {
        let ghost spec_parent = opt_chars(*parent);
        let e = subtree_end_of(t, i, limit);
        let node = &t[i];
        if kind_is(node, "interface_declaration") {
            let name = field_text_of(t, src, i, limit, "name");
            let quals = Self::collect_qualifiers(t, src, i + 1, e);
            let entity = make_entity(t, src, path, i, EntityKind::Interface, name, String::new(),
                quals, clone_parent(parent));
            proof { lemma_push_entity(old(out)@, entity); }
            out.push(entity);
        } else if kind_is(node, "class_declaration") {
            let name = field_text_of(t, src, i, limit, "name");
            let quals = Self::collect_qualifiers(t, src, i + 1, e);
            let entity = make_entity(t, src, path, i, EntityKind::Class, name.clone(), name.clone(),
                quals, clone_parent(parent));
            proof { lemma_push_entity(old(out)@, entity); }
            out.push(entity);
            match field_child_of(t, i, limit, "body") {
                Some(b) => {
                    let be = subtree_end_of(t, b, e);
                    Self::walk_children(t, src, path, b + 1, be, &Some(name), out);
                },
                None => {},
            }
            assert(entities_view(out@) =~= entities_view(old(out)@)
                + cs_node_entities(t@, src@, path@, i as int, limit as int, spec_parent));
        } else if kind_is(node, "method_declaration") {
            let name = field_text_of(t, src, i, limit, "name");
            let ret = field_text_of(t, src, i, limit, "type");
            let params = field_text_of(t, src, i, limit, "parameters");
            let mut joined = ret;
            joined.append(" ");
            joined.append(params.as_str());
            let signature = trim_str(joined.as_str());
            let quals = Self::collect_qualifiers(t, src, i + 1, e);
            let entity = make_entity(t, src, path, i, EntityKind::Method, name, signature,
                quals, clone_parent(parent));
            proof { lemma_push_entity(old(out)@, entity); }
            out.push(entity);
        } else if kind_is(node, "constructor_declaration") {
            let name = field_text_of(t, src, i, limit, "name");
            let quals = Self::collect_qualifiers(t, src, i + 1, e);
            let entity = make_entity(t, src, path, i, EntityKind::Constructor, name, String::new(),
                quals, clone_parent(parent));
            proof { lemma_push_entity(old(out)@, entity); }
            out.push(entity);
        } else {
            Self::walk_children(t, src, path, i + 1, e, parent, out);
        }
    }

    fn walk_children(
        t: &Vec<SyntaxNode>,
        src: &[u8],
        path: &str,
        c0: usize,
        e: usize,
        parent: &Option<String>,
        out: &mut Vec<CodeEntity>,
    )
        requires
            c0 <= e <= t.len(),
        ensures
            entities_view(final(out)@) == entities_view(old(out)@)
                + cs_children_entities(t@, src@, path@, c0 as int, e as int, opt_chars(*parent)),
        decreases e - c0, 1int,
    {
        let ghost p = opt_chars(*parent);
        let mut c = c0;
        while c < e
            invariant
                c0 <= c <= e <= t.len(),
                p == opt_chars(*parent),
                entities_view(out@) + cs_children_entities(t@, src@, path@, c as int, e as int, p)
                    == entities_view(old(out)@) + cs_children_entities(t@, src@, path@, c0 as int, e as int, p),
            decreases e - c,
        {
            let next = subtree_end_of(t, c, e);
            let ghost before = entities_view(out@);
            proof {
                assert(cs_children_entities(t@, src@, path@, c as int, e as int, p)
                    == cs_node_entities(t@, src@, path@, c as int, e as int, p)
                        + cs_children_entities(t@, src@, path@, next as int, e as int, p));
            }
            Self::walk(t, src, path, c, e, parent, out);
            assert(entities_view(out@) + cs_children_entities(t@, src@, path@, next as int, e as int, p)
                =~= before + cs_children_entities(t@, src@, path@, c as int, e as int, p));
            c = next;
        }
        assert(entities_view(out@) =~= entities_view(old(out)@)
            + cs_children_entities(t@, src@, path@, c0 as int, e as int, p));
    }
}

} // verus!
