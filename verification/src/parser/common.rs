//! Helpers shared by the entity extractors.
use vstd::prelude::*;
use crate::text::opt_chars;
use vstd::string::StringExecFns;
use crate::parser::types::{
    CodeEntity, CodeEntityView, EntityKind, entities_view, strings_view,
};
use crate::syntax::{SyntaxNode, line_number, line_number_of, node_text, node_text_of};

verus! {

/// The entity that node `n` stands for.
pub open spec fn entity_at(
    t: Seq<SyntaxNode>,
    src: Seq<u8>,
    path: Seq<char>,
    n: int,
    kind: EntityKind,
    name: Seq<char>,
    signature: Seq<char>,
    qualifiers: Seq<Seq<char>>,
    parent: Option<Seq<char>>,
) -> CodeEntityView {
    CodeEntityView {
        kind,
        name,
        file_path: path,
        start_line: line_number(t[n].start_row),
        end_line: line_number(t[n].end_row),
        source: node_text_of(t, src, n),
        signature,
        qualifiers,
        parent,
    }
}

pub proof fn lemma_push_entity(v: Seq<CodeEntity>, x: CodeEntity)
    ensures
        entities_view(v.push(x)) == entities_view(v).push(x@),
{
    assert(entities_view(v.push(x)) =~= entities_view(v).push(x@));
}

pub proof fn lemma_push_string(v: Seq<String>, x: String)
    ensures
        strings_view(v.push(x)) == strings_view(v).push(x@),
{
    assert(strings_view(v.push(x)) =~= strings_view(v).push(x@));
}

pub fn clone_parent(parent: &Option<String>) -> (res: Option<String>)
    ensures
        opt_chars(res) == opt_chars(*parent),
{
    match parent {
        Some(p) => Some(p.clone()),
        None => None,
    }
}

pub fn make_entity(
    t: &Vec<SyntaxNode>,
    src: &[u8],
    path: &str,
    n: usize,
    kind: EntityKind,
    name: String,
    signature: String,
    qualifiers: Vec<String>,
    parent: Option<String>,
) -> (res: CodeEntity)
    requires
        n < t.len(),
    ensures
        res@ == entity_at(t@, src@, path@, n as int, kind, name@, signature@,
            strings_view(qualifiers@), opt_chars(parent)),
{
    CodeEntity {
        kind,
        name,
        file_path: String::from_str(path),
        start_line: line_number_of(t[n].start_row),
        end_line: line_number_of(t[n].end_row),
        source: node_text(t, src, n),
        signature,
        qualifiers,
        parent,
    }
}

} // verus!
