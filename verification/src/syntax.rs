//! Concrete syntax trees from tree-sitter, flattened into plain values.
//!
//! A parsed tree is held as its nodes in pre-order. Each node records its
//! kind, the field under which its parent holds it, its byte range, its
//! row/column positions and `end`, the index one past its last descendant.
use vstd::prelude::*;
use crate::text::opt_chars;
use crate::text::{chars_of, str_eq};
use vstd::utf8::{valid_utf8, decode_utf8};
use vstd::string::StringSliceAdditionalSpecFns;

verus! {

#[verifier::external_type_specification]
#[verifier::external_body]
pub struct ExTsParser(tree_sitter::Parser);

#[verifier::external_type_specification]
#[verifier::external_body]
pub struct ExTsTree(tree_sitter::Tree);

#[verifier::external_type_specification]
#[verifier::external_body]
pub struct ExTsNode<'a>(tree_sitter::Node<'a>);

#[verifier::external_type_specification]
#[verifier::external_body]
pub struct ExTsCursor<'a>(tree_sitter::TreeCursor<'a>);

/// The grammar a source file is parsed with.
#[derive(Clone, Copy, Debug, PartialEq, Eq, Structural)]
pub enum Grammar {
    TypeScript,
    CSharp,
}

/// The nodes, in pre-order, of the syntax tree that tree-sitter's
/// `Parser::parse` builds from the bytes `source` with `grammar`.
pub uninterp spec fn syntax_of(grammar: Grammar, source: Seq<u8>) -> Seq<SyntaxNode>;

/// The grammar that a parser has been given, if any.
pub uninterp spec fn parser_grammar(parser: tree_sitter::Parser) -> Option<Grammar>;

/// The nodes, in pre-order, that a syntax tree holds.
pub uninterp spec fn tree_nodes(tree: tree_sitter::Tree) -> Seq<SyntaxNode>;

/// The nodes of the tree that a node belongs to, and the node's place
/// among them.
pub uninterp spec fn node_place(node: tree_sitter::Node) -> (Seq<SyntaxNode>, int);

/// The nodes of the tree that a cursor walks, and the place of the node
/// it stands on.
pub uninterp spec fn cursor_place(cursor: tree_sitter::TreeCursor) -> (Seq<SyntaxNode>, int);

/// The node at the place `p`, when `p` lies within its tree.
pub open spec fn placed(p: (Seq<SyntaxNode>, int)) -> SyntaxNode {
    p.0[p.1]
}

/// `p` is a place within its tree.
pub open spec fn in_tree(p: (Seq<SyntaxNode>, int)) -> bool {
    0 <= p.1 < p.0.len()
}

/// `tree_sitter::Parser::new`: a parser with no grammar yet.
#[verifier::external_body]
fn new_parser() -> (res: tree_sitter::Parser)
    ensures
        parser_grammar(res) == None::<Grammar>,
{
    tree_sitter::Parser::new()
}

/// `tree_sitter::Parser::parse` on the bytes of `source`, with no old tree.
/// With no timeout and no cancellation flag, it gives a tree exactly when
/// the parser has a grammar, and that tree is the one the grammar and the
/// bytes determine. The parser keeps its grammar.
#[verifier::external_body]
fn parse_text(parser: &mut tree_sitter::Parser, source: &str) -> (res: Option<tree_sitter::Tree>)
    ensures
        parser_grammar(*final(parser)) == parser_grammar(*old(parser)),
        match parser_grammar(*old(parser)) {
            Some(g) => res matches Some(t) && tree_nodes(t) == syntax_of(g, source.spec_bytes()),
            None => res is None,
        },
{
    parser.parse(source, None)
}

/// `tree_sitter::Tree::root_node`: the first node in pre-order, whose
/// descendants are all the nodes of the tree.
#[verifier::external_body]
fn tree_root<'a>(tree: &'a tree_sitter::Tree) -> (res: tree_sitter::Node<'a>)
    ensures
        node_place(res) == (tree_nodes(*tree), 0int),
        node_place(res).0.len() > 0,
        node_place(res).0[0].end == node_place(res).0.len(),
{
    tree.root_node()
}

/// `tree_sitter::Node::descendant_count`: the node itself and all nodes
/// below it, which in pre-order run from the node to just before its `end`.
#[verifier::external_body]
fn node_descendant_count(node: &tree_sitter::Node) -> (res: usize)
    requires
        in_tree(node_place(*node)),
    ensures
        res == placed(node_place(*node)).end - node_place(*node).1,
{
    node.descendant_count()
}

/// `tree_sitter::Node::walk` on the root of a tree: a cursor on that root,
/// whose descendant `i` is node `i` of the tree in pre-order.
#[verifier::external_body]
fn node_cursor<'a>(node: &tree_sitter::Node<'a>) -> (res: tree_sitter::TreeCursor<'a>)
    requires
        node_place(*node).1 == 0,
    ensures
        cursor_place(res) == (node_place(*node).0, 0int),
{
    node.walk()
}

/// `tree_sitter::TreeCursor::goto_descendant` on a cursor made at the root.
#[verifier::external_body]
fn cursor_goto(cursor: &mut tree_sitter::TreeCursor, index: usize)
    requires
        index < cursor_place(*old(cursor)).0.len(),
    ensures
        cursor_place(*final(cursor)) == (cursor_place(*old(cursor)).0, index as int),
{
    cursor.goto_descendant(index)
}

/// `tree_sitter::TreeCursor::node`: the node the cursor stands on.
#[verifier::external_body]
fn cursor_node<'a>(cursor: &tree_sitter::TreeCursor<'a>) -> (res: tree_sitter::Node<'a>)
    ensures
        node_place(res) == cursor_place(*cursor),
{
    cursor.node()
}

/// `tree_sitter::TreeCursor::field_name`, as an owned string: the field
/// under which the parent holds the node the cursor stands on.
#[verifier::external_body]
fn cursor_field(cursor: &tree_sitter::TreeCursor) -> (res: Option<String>)
    requires
        in_tree(cursor_place(*cursor)),
    ensures
        res == placed(cursor_place(*cursor)).field,
{
    cursor.field_name().map(|name| name.to_string())
}

/// `tree_sitter::Node::kind`, as an owned string.
#[verifier::external_body]
fn node_kind(node: &tree_sitter::Node) -> (res: String)
    requires
        in_tree(node_place(*node)),
    ensures
        res == placed(node_place(*node)).kind,
{
    node.kind().to_string()
}

/// `tree_sitter::Node::child_count`.
#[verifier::external_body]
fn node_child_count(node: &tree_sitter::Node) -> (res: usize)
    requires
        in_tree(node_place(*node)),
    ensures
        res == placed(node_place(*node)).child_count,
{
    node.child_count()
}

/// `tree_sitter::Node::is_named`.
#[verifier::external_body]
fn node_is_named(node: &tree_sitter::Node) -> (res: bool)
    requires
        in_tree(node_place(*node)),
    ensures
        res == placed(node_place(*node)).named,
{
    node.is_named()
}

/// `tree_sitter::Node::start_byte` and `end_byte`.
#[verifier::external_body]
fn node_bytes(node: &tree_sitter::Node) -> (res: (usize, usize))
    requires
        in_tree(node_place(*node)),
    ensures
        res == (placed(node_place(*node)).start_byte, placed(node_place(*node)).end_byte),
{
    (node.start_byte(), node.end_byte())
}

/// `tree_sitter::Node::start_position` and `end_position`, as (row, column) pairs.
#[verifier::external_body]
fn node_points(node: &tree_sitter::Node) -> (res: ((usize, usize), (usize, usize)))
    requires
        in_tree(node_place(*node)),
    ensures
        res == ((placed(node_place(*node)).start_row, placed(node_place(*node)).start_column),
            (placed(node_place(*node)).end_row, placed(node_place(*node)).end_column)),
{
    let start = node.start_position();
    let end = node.end_position();
    ((start.row, start.column), (end.row, end.column))
}

/// One node of a flattened syntax tree.
#[derive(Clone, Debug)]
pub struct SyntaxNode {
    /// The grammar's name for the node (`node.kind()`).
    pub kind: String,
    /// The field under which the parent holds this node, if any.
    pub field: Option<String>,
    /// Whether the node is named (not a literal token of the grammar).
    pub named: bool,
    pub start_byte: usize,
    pub end_byte: usize,
    pub start_row: usize,
    pub start_column: usize,
    pub end_row: usize,
    pub end_column: usize,
    /// The number of children (`node.child_count()`).
    pub child_count: usize,
    /// Index, in the pre-order sequence, one past this node's last descendant.
    pub end: usize,
}

/// Why no syntax tree could be had.
#[derive(Clone, Debug, PartialEq, Eq)]
pub enum SyntaxFailure {
    /// The grammar was refused by the parser; the parser's message.
    Language(String),
    /// The parser returned no tree.
    Parse,
}

/// `tree_sitter::Parser::set_language` with the grammar of `tree_sitter_typescript`:
/// `None`, and the parser then has that grammar; on an error, its message.
/// `set_language` refuses a grammar only when its ABI version lies outside
/// `MIN_COMPATIBLE_LANGUAGE_VERSION..=LANGUAGE_VERSION` (13 to 15 in this
/// tree-sitter); this grammar's parser is generated with ABI version 14,
/// so the call is never refused.
#[verifier::external_body]
fn set_typescript_language(parser: &mut tree_sitter::Parser) -> (res: Option<String>)
    ensures
        res is None,
        parser_grammar(*final(parser)) == Some(Grammar::TypeScript),
{
    match parser.set_language(&tree_sitter_typescript::LANGUAGE_TYPESCRIPT.into()) {
        Ok(()) => None,
        Err(err) => Some(format!("{err}")),
    }
}

/// `tree_sitter::Parser::set_language` with the grammar of `tree_sitter_c_sharp`:
/// `None`, and the parser then has that grammar; on an error, its message.
/// `set_language` refuses a grammar only when its ABI version lies outside
/// `MIN_COMPATIBLE_LANGUAGE_VERSION..=LANGUAGE_VERSION` (13 to 15 in this
/// tree-sitter); this grammar's parser is generated with ABI version 15,
/// so the call is never refused.
#[verifier::external_body]
fn set_csharp_language(parser: &mut tree_sitter::Parser) -> (res: Option<String>)
    ensures
        res is None,
        parser_grammar(*final(parser)) == Some(Grammar::CSharp),
{
    match parser.set_language(&tree_sitter_c_sharp::LANGUAGE.into()) {
        Ok(()) => None,
        Err(err) => Some(format!("{err}")),
    }
}

/// Parses `source` with `grammar` and returns every node of the tree in
/// pre-order, the root first. With the grammars bundled here it always
/// succeeds.
pub fn parse_syntax(grammar: Grammar, source: &str) -> (res: Result<Vec<SyntaxNode>, SyntaxFailure>)
    ensures
        res matches Ok(nodes) && nodes@ == syntax_of(grammar, source.spec_bytes()) && nodes.len() > 0,
{
    let mut parser = new_parser();
    let refused = match grammar {
        Grammar::TypeScript => set_typescript_language(&mut parser),
        Grammar::CSharp => set_csharp_language(&mut parser),
    };
    if let Some(message) = refused {
        return Err(SyntaxFailure::Language(message));
    }
    let tree = match parse_text(&mut parser, source) {
        Some(tree) => tree,
        None => return Err(SyntaxFailure::Parse),
    };
    let ghost all = syntax_of(grammar, source.spec_bytes());
    let root = tree_root(&tree);
    let count = node_descendant_count(&root);
    let mut cursor = node_cursor(&root);
    let mut nodes: Vec<SyntaxNode> = Vec::new();
    let mut i: usize = 0;
    while i < count
        invariant
            all == syntax_of(grammar, source.spec_bytes()),
            count == all.len(),
            i <= count,
            cursor_place(cursor).0 == all,
            nodes@ == all.take(i as int),
        decreases count - i,
    {
        cursor_goto(&mut cursor, i);
        let node = cursor_node(&cursor);
        let (start_byte, end_byte) = node_bytes(&node);
        let ((start_row, start_column), (end_row, end_column)) = node_points(&node);
        let below = node_descendant_count(&node);
        let next = SyntaxNode {
            kind: node_kind(&node),
            field: cursor_field(&cursor),
            named: node_is_named(&node),
            start_byte,
            end_byte,
            start_row,
            start_column,
            end_row,
            end_column,
            child_count: node_child_count(&node),
            end: i.saturating_add(below),
        };
        assert(next == all[i as int]);
        nodes.push(next);
        assert(all.take(i + 1) =~= all.take(i as int).push(all[i as int]));
        i = i + 1;
    }
    assert(all.take(count as int) =~= all);
    if nodes.len() == 0 {
        return Err(SyntaxFailure::Parse);
    }
    Ok(nodes)
}

/// The text of the byte range `start..end` of `src`: empty when the range
/// lies outside `src` or is not valid UTF-8.
pub open spec fn text_of(src: Seq<u8>, start: int, end: int) -> Seq<char> {
    if 0 <= start <= end <= src.len() && valid_utf8(src.subrange(start, end)) {
        decode_utf8(src.subrange(start, end))
    } else {
        Seq::empty()
    }
}

/// `std::str::from_utf8`: `Ok` exactly when `bytes` is valid UTF-8, and then
/// the string whose encoding is `bytes`; else the error's message (`{err}`),
/// of which nothing is stated.
#[verifier::external_body]
pub(crate) fn utf8_str(bytes: &[u8]) -> (res: Result<&str, String>)
    ensures
        res is Ok <==> valid_utf8(bytes@),
        res matches Ok(s) ==> s.spec_bytes() == bytes@,
{
    match std::str::from_utf8(bytes) {
        Ok(s) => Ok(s),
        Err(err) => Err(format!("{err}")),
    }
}

/// Whether `bytes` is valid UTF-8 (`std::str::from_utf8` succeeds).
pub fn utf8_valid(bytes: &[u8]) -> (res: bool)
    ensures
        res == valid_utf8(bytes@),
{
    utf8_str(bytes).is_ok()
}

/// The source text of the byte range `start..end` of `src`.
pub fn text_at(src: &[u8], start: usize, end: usize) -> (res: String)
    ensures
        res@ == text_of(src@, start as int, end as int),
{
    if start <= end && end <= src.len() {
        let part = vstd::slice::slice_subrange(src, start, end);
        match utf8_str(part) {
            Ok(s) => {
                proof {
                    vstd::utf8::encode_utf8_decode_utf8(s@);
                }
                s.to_owned()
            },
            Err(_) => String::new(),
        }
    } else {
        String::new()
    }
}


/// Where the subtree of node `i` ends, inside a parent subtree that ends at
/// `limit`: the recorded end, kept within `i + 1 ..= limit`.
pub open spec fn subtree_end(t: Seq<SyntaxNode>, i: int, limit: int) -> int {
    if t[i].end <= i {
        i + 1
    } else if t[i].end > limit {
        limit
    } else {
        t[i].end as int
    }
}

/// The nodes that start the sibling subtrees from `c` up to `e`.
pub open spec fn children(t: Seq<SyntaxNode>, c: int, e: int) -> Seq<int>
    decreases e - c,
{
    if c < 0 || c >= e || e > t.len() {
        Seq::empty()
    } else {
        seq![c] + children(t, subtree_end(t, c, e), e)
    }
}

/// The first of the sibling subtrees from `c` up to `e` that its parent holds
/// under the field `name`.
pub open spec fn first_field_child(t: Seq<SyntaxNode>, c: int, e: int, name: Seq<char>) -> Option<int>
    decreases e - c,
{
    if c < 0 || c >= e || e > t.len() {
        None
    } else if t[c].field matches Some(f) && f@ == name {
        Some(c)
    } else {
        first_field_child(t, subtree_end(t, c, e), e, name)
    }
}

pub proof fn lemma_first_field_child_bounds(t: Seq<SyntaxNode>, c: int, e: int, name: Seq<char>)
    ensures
        first_field_child(t, c, e, name) matches Some(k) ==> c <= k < e,
    decreases e - c,
{
    if !(c < 0 || c >= e || e > t.len()) && !(t[c].field matches Some(f) && f@ == name) {
        lemma_first_field_child_bounds(t, subtree_end(t, c, e), e, name);
    }
}

/// The child of node `i` (whose subtree ends within `limit`) held under the
/// field `name` (`child_by_field_name`).
pub open spec fn field_child(t: Seq<SyntaxNode>, i: int, limit: int, name: Seq<char>) -> Option<int> {
    first_field_child(t, i + 1, subtree_end(t, i, limit), name)
}

/// The source text of node `n`.
pub open spec fn node_text_of(t: Seq<SyntaxNode>, src: Seq<u8>, n: int) -> Seq<char> {
    text_of(src, t[n].start_byte as int, t[n].end_byte as int)
}

/// The text of the child of `i` under field `name`, empty when there is none.
pub open spec fn field_text(t: Seq<SyntaxNode>, src: Seq<u8>, i: int, limit: int, name: Seq<char>) -> Seq<char> {
    match field_child(t, i, limit, name) {
        Some(c) => node_text_of(t, src, c),
        None => Seq::empty(),
    }
}

/// A row turned into a one-based line number (wrapping at the top of `usize`).
pub open spec fn line_number(row: usize) -> usize {
    if row == usize::MAX { 0 } else { (row + 1) as usize }
}

pub fn line_number_of(row: usize) -> (res: usize)
    ensures
        res == line_number(row),
{
    if row == usize::MAX { 0 } else { row + 1 }
}

/// Executable `subtree_end`.
pub fn subtree_end_of(t: &Vec<SyntaxNode>, i: usize, limit: usize) -> (res: usize)
    requires
        i < limit <= t.len(),
    ensures
        res == subtree_end(t@, i as int, limit as int),
        i < res <= limit,
{
    let e = t[i].end;
    if e <= i {
        i + 1
    } else if e > limit {
        limit
    } else {
        e
    }
}

/// Whether node `n` has the kind `kind`.
pub fn kind_is(n: &SyntaxNode, kind: &str) -> (res: bool)
    ensures
        res == (n.kind@ == kind@),
{
    str_eq(n.kind.as_str(), kind)
}

/// Executable `first_field_child`.
pub fn first_field_child_of(t: &Vec<SyntaxNode>, c: usize, e: usize, name: &str) -> (res: Option<usize>)
    requires
        e <= t.len(),
    ensures
        res == (match first_field_child(t@, c as int, e as int, name@) {
            Some(k) => Some(k as usize),
            None => None::<usize>,
        }),
        res matches Some(k) ==> c <= k < e,
        first_field_child(t@, c as int, e as int, name@) matches Some(k) ==> c <= k < e,
    decreases e - c,
{
    if c >= e {
        return None;
    }
    let hit = match &t[c].field {
        Some(f) => str_eq(f.as_str(), name),
        None => false,
    };
    if hit {
        Some(c)
    } else {
        let next = subtree_end_of(t, c, e);
        first_field_child_of(t, next, e, name)
    }
}

/// Executable `field_child`.
pub fn field_child_of(t: &Vec<SyntaxNode>, i: usize, limit: usize, name: &str) -> (res: Option<usize>)
    requires
        i < limit <= t.len(),
    ensures
        res == (match field_child(t@, i as int, limit as int, name@) {
            Some(k) => Some(k as usize),
            None => None::<usize>,
        }),
        res matches Some(k) ==> i < k < subtree_end(t@, i as int, limit as int),
        field_child(t@, i as int, limit as int, name@) matches Some(k) ==> i < k < subtree_end(t@, i as int, limit as int),
{
    let e = subtree_end_of(t, i, limit);
    first_field_child_of(t, i + 1, e, name)
}

/// Executable `node_text_of`.
pub fn node_text(t: &Vec<SyntaxNode>, src: &[u8], n: usize) -> (res: String)
    requires
        n < t.len(),
    ensures
        res@ == node_text_of(t@, src@, n as int),
{
    text_at(src, t[n].start_byte, t[n].end_byte)
}

/// Executable `field_text`.
pub fn field_text_of(t: &Vec<SyntaxNode>, src: &[u8], i: usize, limit: usize, name: &str) -> (res: String)
    requires
        i < limit <= t.len(),
    ensures
        res@ == field_text(t@, src@, i as int, limit as int, name@),
{
    match field_child_of(t, i, limit, name) {
        Some(c) => node_text(t, src, c),
        None => String::new(),
    }
}

/// The text of the byte range `start..end` of `src` when that range lies in
/// `src` and is valid UTF-8 (`Node::utf8_text`).
pub open spec fn utf8_text_of(src: Seq<u8>, start: int, end: int) -> Option<Seq<char>> {
    if 0 <= start <= end <= src.len() && valid_utf8(src.subrange(start, end)) {
        Some(decode_utf8(src.subrange(start, end)))
    } else {
        None
    }
}

/// Executable `utf8_text_of`.
pub fn utf8_text(src: &[u8], start: usize, end: usize) -> (res: Option<String>)
    ensures
        opt_chars(res) == utf8_text_of(src@, start as int, end as int),
{
    if start <= end && end <= src.len() {
        let part = vstd::slice::slice_subrange(src, start, end);
        match utf8_str(part) {
            Ok(s) => {
                proof {
                    vstd::utf8::encode_utf8_decode_utf8(s@);
                }
                Some(s.to_owned())
            },
            Err(_) => None,
        }
    } else {
        None
    }
}


/// The nodes among the sibling subtrees from `c` up to `e` that are named.
pub open spec fn named_children(t: Seq<SyntaxNode>, c: int, e: int) -> Seq<int>
    decreases e - c,
{
    if c < 0 || c >= e || e > t.len() {
        Seq::empty()
    } else {
        (if t[c].named { seq![c] } else { Seq::empty() }) + named_children(t, subtree_end(t, c, e), e)
    }
}

} // verus!
