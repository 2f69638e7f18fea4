//! Per-file analyses and line metrics.
use vstd::prelude::*;
use vstd::string::StringExecFns;
use crate::ir::model::{Reference, Symbol};
use crate::lang::Language;
use crate::text::{
    chars_of, has_substring, lines_of, split_lines, starts_with, str_contains, str_starts_with,
    string_of, trim, trim_chars,
};

verus! {

/// Line counts of a source file.
#[derive(Debug, PartialEq, Eq)]
pub struct FileMetrics {
    pub code_lines: usize,
    pub comment_lines: usize,
    pub blank_lines: usize,
    pub cyclomatic_complexity: usize,
}

impl Clone for FileMetrics {
    fn clone(&self) -> (res: Self)
        ensures
            res == *self,
    {
        FileMetrics {
            code_lines: self.code_lines,
            comment_lines: self.comment_lines,
            blank_lines: self.blank_lines,
            cyclomatic_complexity: self.cyclomatic_complexity,
        }
    }
}

impl Default for FileMetrics {
    fn default() -> (res: Self)
        ensures
            res == (FileMetrics { code_lines: 0, comment_lines: 0, blank_lines: 0, cyclomatic_complexity: 0 }),
    {
        FileMetrics { code_lines: 0, comment_lines: 0, blank_lines: 0, cyclomatic_complexity: 0 }
    }
}

/// The line counts after some lines, and whether a block comment is open.
pub struct MetricsState {
    pub code: nat,
    pub comment: nat,
    pub blank: nat,
    pub in_block: bool,
}

/// The count after one more line: blank lines, lines inside or opening a
/// block comment, `//` lines, and code lines.
pub open spec fn metrics_step(m: MetricsState, line: Seq<char>) -> MetricsState {
    let t = trim(line);
    if t.len() == 0 {
        MetricsState { blank: m.blank + 1, ..m }
    } else if m.in_block {
        MetricsState { comment: m.comment + 1, in_block: !has_substring(t, "*/"@), ..m }
    } else if starts_with(t, "//"@) {
        MetricsState { comment: m.comment + 1, ..m }
    } else if starts_with(t, "/*"@) {
        MetricsState { comment: m.comment + 1, in_block: !has_substring(t, "*/"@), ..m }
    } else {
        MetricsState { code: m.code + 1, ..m }
    }
}

/// The count after the first `n` lines.
pub open spec fn metrics_after(lines: Seq<Seq<char>>, n: int) -> MetricsState
    decreases n,
{
    if n <= 0 {
        MetricsState { code: 0, comment: 0, blank: 0, in_block: false }
    } else {
        metrics_step(metrics_after(lines, n - 1), lines[n - 1])
    }
}

/// The counts of a whole source text.
pub open spec fn metrics_of(source: Seq<char>) -> MetricsState {
    metrics_after(lines_of(source), lines_of(source).len() as int)
}

/// How many of the first `n` lines are blank (white space only).
pub open spec fn blank_count(lines: Seq<Seq<char>>, n: int) -> nat
    decreases n,
{
    if n <= 0 {
        0
    } else {
        blank_count(lines, n - 1) + if trim(lines[n - 1]).len() == 0 { 1nat } else { 0nat }
    }
}

proof fn lemma_blank_after(lines: Seq<Seq<char>>, n: int)
    requires
        0 <= n <= lines.len(),
    ensures
        metrics_after(lines, n).blank == blank_count(lines, n),
    decreases n,
{
    if n > 0 {
        lemma_blank_after(lines, n - 1);
    }
}

/// The blank lines counted are exactly the lines holding white space only,
/// whether or not they stand inside a block comment.
pub proof fn lemma_blank_lines(source: Seq<char>)
    ensures
        metrics_of(source).blank == blank_count(lines_of(source), lines_of(source).len() as int),
{
    lemma_blank_after(lines_of(source), lines_of(source).len() as int);
}

proof fn lemma_metrics_total(lines: Seq<Seq<char>>, n: int)
    requires
        0 <= n <= lines.len(),
    ensures
        metrics_after(lines, n).code + metrics_after(lines, n).comment + metrics_after(lines, n).blank == n,
    decreases n,
{
    if n > 0 {
        lemma_metrics_total(lines, n - 1);
    }
}

impl FileMetrics {
    /// Counts the code, comment and blank lines of `source`; every line is
    /// exactly one of the three.
    pub fn from_source(source: &str) -> (res: Self)
        ensures
            res.code_lines == metrics_of(source@).code,
            res.comment_lines == metrics_of(source@).comment,
            res.blank_lines == metrics_of(source@).blank,
            res.cyclomatic_complexity == 0,
            res.code_lines + res.comment_lines + res.blank_lines == lines_of(source@).len(),
    {
        let cs = chars_of(source);
        let lines = split_lines(cs.as_slice());
        let ghost ls = lines_of(source@);
        let mut code: usize = 0;
        let mut comment: usize = 0;
        let mut blank: usize = 0;
        let mut in_block = false;
        let mut i: usize = 0;
        while i < lines.len()
            invariant
                i <= lines.len(),
                crate::text::lines_view(lines@) == ls,
                ls.len() == lines.len(),
                metrics_after(ls, i as int) == (MetricsState { code: code as nat, comment: comment as nat, blank: blank as nat, in_block }),
                code + comment + blank == i,
            decreases lines.len() - i,
        {
            let t = trim_chars(lines[i].as_slice());
            assert(ls[i as int] == lines@[i as int]@);
            let ts = string_of(t.as_slice());
            if t.len() == 0 {
                blank = blank + 1;
            } else if in_block {
                comment = comment + 1;
                if str_contains(ts.as_str(), "*/") {
                    in_block = false;
                }
            } else if str_starts_with(ts.as_str(), "//") {
                comment = comment + 1;
            } else if str_starts_with(ts.as_str(), "/*") {
                comment = comment + 1;
                if !str_contains(ts.as_str(), "*/") {
                    in_block = true;
                }
            } else {
                code = code + 1;
            }
            i = i + 1;
        }
        proof { lemma_metrics_total(ls, ls.len() as int); }
        FileMetrics { code_lines: code, comment_lines: comment, blank_lines: blank, cyclomatic_complexity: 0 }
    }
}

/// What one revision of a source file holds: its symbols, references,
/// metrics and fingerprints.
#[derive(Debug, PartialEq, Eq)]
pub struct FileAnalysis {
    pub path: String,
    pub language: Language,
    pub symbols: Vec<Symbol>,
    pub references: Vec<Reference>,
    pub metrics: FileMetrics,
    pub lexical_hash: Option<u64>,
    pub token_hash: Option<u64>,
    pub ast_hash: Option<u64>,
}

impl Clone for FileAnalysis {
    fn clone(&self) -> (res: Self)
        ensures
            res.path == self.path,
            res.language == self.language,
            res.symbols@ == self.symbols@,
            res.references@ == self.references@,
            res.metrics == self.metrics,
            res.lexical_hash == self.lexical_hash,
            res.token_hash == self.token_hash,
            res.ast_hash == self.ast_hash,
    {
        let symbols = self.symbols.clone();
        assert forall|i: int| 0 <= i < symbols.len() implies symbols@[i] == self.symbols@[i] by {
            assert(cloned::<Symbol>(self.symbols[i], symbols[i]));
        }
        assert(symbols@ =~= self.symbols@);
        let references = self.references.clone();
        assert forall|i: int| 0 <= i < references.len() implies references@[i] == self.references@[i] by {
            assert(cloned::<Reference>(self.references[i], references[i]));
        }
        assert(references@ =~= self.references@);
        FileAnalysis {
            path: self.path.clone(),
            language: self.language,
            symbols,
            references,
            metrics: self.metrics.clone(),
            lexical_hash: self.lexical_hash,
            token_hash: self.token_hash,
            ast_hash: self.ast_hash,
        }
    }
}

impl FileAnalysis {
    /// An analysis of `path` with nothing found yet.
    pub fn new(path: String, language: Language) -> (res: Self)
        ensures
            res.path == path,
            res.language == language,
            res.symbols@ == Seq::<Symbol>::empty(),
            res.references@ == Seq::<Reference>::empty(),
            res.metrics == (FileMetrics { code_lines: 0, comment_lines: 0, blank_lines: 0, cyclomatic_complexity: 0 }),
            res.lexical_hash == None::<u64>,
            res.token_hash == None::<u64>,
            res.ast_hash == None::<u64>,
    {
        FileAnalysis {
            path,
            language,
            symbols: Vec::new(),
            references: Vec::new(),
            metrics: FileMetrics::default(),
            lexical_hash: None,
            token_hash: None,
            ast_hash: None,
        }
    }
}

} // verus!
