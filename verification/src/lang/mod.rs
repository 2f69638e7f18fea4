//! Languages, parsing of source files into file analyses, and fingerprints.
pub mod fingerprint;
pub mod symbols;
pub mod typescript;
pub mod csharp;

use vstd::prelude::*;
use crate::ir::file::FileAnalysis;
use crate::ir::model::symbols_view;
use crate::syntax::{Grammar, syntax_of};
use vstd::string::StringSliceAdditionalSpecFns;
use crate::text::{ascii_lower_char, ascii_lowercase, chars_is, chars_of, split_char, split_seq, lines_view};

verus! {

/// A language whose sources can be analysed.
#[derive(Clone, Copy, Debug, PartialEq, Eq, Structural)]
pub enum Language {
    CSharp,
    TypeScript,
}

/// Why a source file could not be analysed.
#[derive(Debug, PartialEq, Eq)]
pub struct ParseError {
    pub message: String,
}

impl ParseError {
    pub fn new(message: String) -> (res: Self)
        ensures
            res.message == message,
    {
        ParseError { message }
    }
}

/// The last path component that is neither empty nor `.`.
pub open spec fn last_component(pieces: Seq<Seq<char>>) -> Option<Seq<char>>
    decreases pieces.len(),
{
    if pieces.len() == 0 {
        None
    } else if pieces.last().len() == 0 || pieces.last() == "."@ {
        last_component(pieces.drop_last())
    } else {
        Some(pieces.last())
    }
}

/// The final component of a `/`-separated path (`Path::file_name`): none for
/// a path that ends in `..` or has no named component.
pub open spec fn file_name_of(path: Seq<char>) -> Option<Seq<char>> {
    match last_component(split_seq(path, '/')) {
        Some(c) => if c == ".."@ { None } else { Some(c) },
        None => None,
    }
}

/// The index of the last `x` in `s`, or -1.
pub open spec fn last_index_of(s: Seq<char>, x: char) -> int
    decreases s.len(),
{
    if s.len() == 0 {
        -1
    } else if s.last() == x {
        s.len() - 1
    } else {
        last_index_of(s.drop_last(), x)
    }
}

/// What follows the last `.` of the file name, when a `.` follows some other
/// character of it (`Path::extension`).
pub open spec fn extension_of(path: Seq<char>) -> Option<Seq<char>> {
    match file_name_of(path) {
        Some(name) => {
            let d = last_index_of(name, '.');
            if d <= 0 { None } else { Some(name.subrange(d + 1, name.len() as int)) }
        },
        None => None,
    }
}

/// The language of a path by its extension, ignoring ASCII case:
/// `cs` is C#, `ts` and `tsx` are TypeScript.
pub open spec fn language_of_path(path: Seq<char>) -> Option<Language> {
    match extension_of(path) {
        Some(ext) => {
            let e = ascii_lowercase(ext);
            if e == "cs"@ {
                Some(Language::CSharp)
            } else if e == "ts"@ || e == "tsx"@ {
                Some(Language::TypeScript)
            } else {
                None
            }
        },
        None => None,
    }
}

proof fn lemma_last_index_bounds(s: Seq<char>, x: char)
    ensures
        -1 <= last_index_of(s, x) < s.len(),
        last_index_of(s, x) >= 0 ==> s[last_index_of(s, x)] == x,
    decreases s.len(),
{
    if s.len() > 0 && s.last() != x {
        lemma_last_index_bounds(s.drop_last(), x);
    }
}

fn last_component_of(pieces: &Vec<Vec<char>>) -> (res: Option<usize>)
    ensures
        match last_component(lines_view(pieces@)) {
            Some(c) => res matches Some(k) && k < pieces.len() && pieces@[k as int]@ == c,
            None => res is None,
        },
{
    let mut n = pieces.len();
    assert(lines_view(pieces@).take(n as int) =~= lines_view(pieces@));
    while n > 0
        invariant
            n <= pieces.len(),
            last_component(lines_view(pieces@)) == last_component(lines_view(pieces@).take(n as int)),
        decreases n,
    {
        let p = &pieces[n - 1];
        assert(lines_view(pieces@).take(n as int).last() == p@);
        assert(lines_view(pieces@).take(n as int).drop_last() =~= lines_view(pieces@).take(n - 1));
        if p.len() == 0 || chars_is(p.as_slice(), ".") {
            n = n - 1;
        } else {
            return Some(n - 1);
        }
    }
    None
}

fn last_dot(name: &[char]) -> (res: Option<usize>)
    ensures
        match res {
            Some(k) => k == last_index_of(name@, '.'),
            None => last_index_of(name@, '.') == -1,
        },
{
    let mut n = name.len();
    assert(name@.take(n as int) =~= name@);
    while n > 0
        invariant
            n <= name.len(),
            last_index_of(name@, '.') == last_index_of(name@.take(n as int), '.'),
        decreases n,
    {
        assert(name@.take(n as int).drop_last() =~= name@.take(n - 1));
        if name[n - 1] == '.' {
            return Some(n - 1);
        }
        n = n - 1;
    }
    None
}

/// `a` is the analysis, in `lang`, of the file `path` with text `source`
/// over the syntax tree that tree-sitter builds from that text.
pub open spec fn is_analysis_of(lang: Language, a: FileAnalysis, path: &str, source: &str) -> bool {
    match lang {
        Language::TypeScript => typescript::is_ts_analysis(a,
            syntax_of(Grammar::TypeScript, source.spec_bytes()), path, source),
        Language::CSharp => csharp::is_cs_analysis(a, syntax_of(Grammar::CSharp, source.spec_bytes()), path, source),
    }
}

/// One source gives one analysis: two analyses of the same file and text
/// in the same language agree on everything they record.
pub proof fn lemma_analysis_is_unique(lang: Language, a: FileAnalysis, b: FileAnalysis, path: &str, source: &str)
    requires
        is_analysis_of(lang, a, path, source),
        is_analysis_of(lang, b, path, source),
    ensures
        a.path@ == b.path@,
        a.language == b.language,
        symbols_view(a.symbols@) == symbols_view(b.symbols@),
        a.references@.len() == 0 && b.references@.len() == 0,
        a.metrics == b.metrics,
        a.lexical_hash == b.lexical_hash,
        a.token_hash == b.token_hash,
        a.ast_hash == b.ast_hash,
{
}

impl Language {
    /// Analyses the file `path` with text `source` as a file of this language.
    pub fn parse(self, path: &str, source: &str) -> (res: Result<FileAnalysis, ParseError>)
        ensures
            res is Ok,
            res matches Ok(a) ==> a.path@ == path@ && a.language == self,
            res matches Ok(a) ==> is_analysis_of(self, a, path, source),
    {
        match self {
            Language::CSharp => csharp::parse_file(path, source),
            Language::TypeScript => typescript::parse_file(path, source),
        }
    }

    /// The language of `path` by its extension, if it is one of the analysed languages.
    pub fn from_path(path: &str) -> (res: Option<Language>)
        ensures
            res == language_of_path(path@),
    {
        let cs = chars_of(path);
        let pieces = split_char(cs.as_slice(), '/');
        let k = match last_component_of(&pieces) {
            Some(k) => k,
            None => return None,
        };
        let name = &pieces[k];
        if chars_is(name.as_slice(), "..") {
            return None;
        }
        let d = match last_dot(name.as_slice()) {
            Some(d) => d,
            None => return None,
        };
        if d == 0 {
            return None;
        }
        proof { lemma_last_index_bounds(name@, '.'); }
        assert(name@.subrange(d + 1, d + 1) =~= Seq::<char>::empty());
        let mut ext: Vec<char> = Vec::new();
        let mut i = d + 1;
        while i < name.len()
            invariant
                d + 1 <= i <= name.len(),
                ext@ == name@.subrange(d + 1, i as int).map_values(|c: char| crate::text::ascii_lower(c)),
            decreases name.len() - i,
        {
            ext.push(ascii_lower_char(name[i]));
            i = i + 1;
            assert(ext@ =~= name@.subrange(d + 1, i as int).map_values(|c: char| crate::text::ascii_lower(c)));
        }
        if chars_is(ext.as_slice(), "cs") {
            Some(Language::CSharp)
        } else if chars_is(ext.as_slice(), "ts") || chars_is(ext.as_slice(), "tsx") {
            Some(Language::TypeScript)
        } else {
            None
        }
    }
}

} // verus!
