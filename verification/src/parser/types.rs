//! The code entities that the parsers extract.
use vstd::prelude::*;
use crate::text::opt_chars;
use vstd::string::StringExecFns;

verus! {

/// The kind of a code entity.
#[derive(Clone, Copy, Debug, PartialEq, Eq, Structural)]
pub enum EntityKind {
    Function,
    Method,
    Class,
    Interface,
    Enum,
    Import,
    Export,
    Property,
    Constructor,
}

/// The lower-case name of an entity kind.
pub open spec fn entity_kind_name(kind: EntityKind) -> Seq<char> {
    match kind {
        EntityKind::Function => "function"@,
        EntityKind::Method => "method"@,
        EntityKind::Class => "class"@,
        EntityKind::Interface => "interface"@,
        EntityKind::Enum => "enum"@,
        EntityKind::Import => "import"@,
        EntityKind::Export => "export"@,
        EntityKind::Property => "property"@,
        EntityKind::Constructor => "constructor"@,
    }
}

impl EntityKind {
    /// The lower-case name of the kind.
    pub fn as_str(&self) -> (res: &'static str)
        ensures
            res@ == entity_kind_name(*self),
    {
        match self {
            EntityKind::Function => "function",
            EntityKind::Method => "method",
            EntityKind::Class => "class",
            EntityKind::Interface => "interface",
            EntityKind::Enum => "enum",
            EntityKind::Import => "import",
            EntityKind::Export => "export",
            EntityKind::Property => "property",
            EntityKind::Constructor => "constructor",
        }
    }
}

/// A function, class, method, ... found in a source file.
#[derive(Clone, Debug)]
pub struct CodeEntity {
    pub kind: EntityKind,
    pub name: String,
    pub file_path: String,
    pub start_line: usize,
    pub end_line: usize,
    pub source: String,
    pub signature: String,
    pub qualifiers: Vec<String>,
    pub parent: Option<String>,
}

/// A code entity with its strings taken as character sequences.
pub struct CodeEntityView {
    pub kind: EntityKind,
    pub name: Seq<char>,
    pub file_path: Seq<char>,
    pub start_line: usize,
    pub end_line: usize,
    pub source: Seq<char>,
    pub signature: Seq<char>,
    pub qualifiers: Seq<Seq<char>>,
    pub parent: Option<Seq<char>>,
}

/// The characters of each string of `v`.
pub open spec fn strings_view(v: Seq<String>) -> Seq<Seq<char>> {
    v.map_values(|s: String| s@)
}


impl View for CodeEntity {
    type V = CodeEntityView;

    open spec fn view(&self) -> CodeEntityView {
        CodeEntityView {
            kind: self.kind,
            name: self.name@,
            file_path: self.file_path@,
            start_line: self.start_line,
            end_line: self.end_line,
            source: self.source@,
            signature: self.signature@,
            qualifiers: strings_view(self.qualifiers@),
            parent: opt_chars(self.parent),
        }
    }
}

/// The views of a sequence of entities.
pub open spec fn entities_view(v: Seq<CodeEntity>) -> Seq<CodeEntityView> {
    v.map_values(|e: CodeEntity| e@)
}

/// The parent's name, or nothing when there is no parent.
pub open spec fn parent_or_empty(parent: Option<Seq<char>>) -> Seq<char> {
    match parent {
        Some(p) => p,
        None => Seq::empty(),
    }
}

/// `file::kind::parent::name`: the key that tells entities apart across files.
pub open spec fn unique_key_of(e: CodeEntityView) -> Seq<char> {
    e.file_path + "::"@ + entity_kind_name(e.kind) + "::"@ + parent_or_empty(e.parent) + "::"@ + e.name
}

impl CodeEntity {
    /// `file::kind::parent::name`, with an empty parent where there is none.
    pub fn unique_key(&self) -> (res: String)
        ensures
            res@ == unique_key_of(self@),
    {
        let mut res = String::from_str(self.file_path.as_str());
        res.append("::");
        res.append(self.kind.as_str());
        res.append("::");
        match &self.parent {
            Some(p) => res.append(p.as_str()),
            None => {},
        }
        res.append("::");
        res.append(self.name.as_str());
        proof {
            if self.parent is None {
                assert(parent_or_empty(opt_chars(self.parent)) == Seq::<char>::empty());
            }
        }
        res
    }
}

} // verus!
