//! Symbols, source spans, evidence and findings.
use vstd::prelude::*;
use crate::text::opt_chars;
use vstd::string::StringExecFns;

verus! {

/// A region of a source file, with one-based lines and columns.
#[derive(Debug, PartialEq, Eq)]
pub struct SourceSpan {
    pub file: String,
    pub start_line: u32,
    pub start_column: u32,
    pub end_line: u32,
    pub end_column: u32,
}

/// A span with its file name taken as characters.
pub struct SpanView {
    pub file: Seq<char>,
    pub start_line: u32,
    pub start_column: u32,
    pub end_line: u32,
    pub end_column: u32,
}

impl View for SourceSpan {
    type V = SpanView;

    open spec fn view(&self) -> SpanView {
        SpanView {
            file: self.file@,
            start_line: self.start_line,
            start_column: self.start_column,
            end_line: self.end_line,
            end_column: self.end_column,
        }
    }
}

impl Clone for SourceSpan {
    fn clone(&self) -> (res: Self)
        ensures
            res == *self,
    {
        SourceSpan {
            file: self.file.clone(),
            start_line: self.start_line,
            start_column: self.start_column,
            end_line: self.end_line,
            end_column: self.end_column,
        }
    }
}

impl SourceSpan {
    pub fn new(file: &str, start_line: u32, start_column: u32, end_line: u32, end_column: u32) -> (res: Self)
        ensures
            res@ == (SpanView { file: file@, start_line, start_column, end_line, end_column }),
    {
        SourceSpan { file: String::from_str(file), start_line, start_column, end_line, end_column }
    }
}

/// How serious a finding is, from least to most.
#[derive(Clone, Copy, Debug, PartialEq, Eq, PartialOrd, Ord, Structural)]
pub enum Severity {
    Info,
    Low,
    Medium,
    High,
    Critical,
}

/// A message backed by source spans.
#[derive(Debug, PartialEq)]
pub struct Evidence {
    pub message: String,
    pub spans: Vec<SourceSpan>,
}

/// Evidence as plain values.
pub struct EvidenceView {
    pub message: Seq<char>,
    pub spans: Seq<SpanView>,
}

/// The views of a sequence of spans.
pub open spec fn spans_view(v: Seq<SourceSpan>) -> Seq<SpanView> {
    v.map_values(|s: SourceSpan| s@)
}

impl View for Evidence {
    type V = EvidenceView;

    open spec fn view(&self) -> EvidenceView {
        EvidenceView { message: self.message@, spans: spans_view(self.spans@) }
    }
}

impl Clone for Evidence {
    fn clone(&self) -> (res: Self)
        ensures
            res.message == self.message,
            res.spans@ == self.spans@,
    {
        let spans = self.spans.clone();
        assert forall|i: int| 0 <= i < spans.len() implies spans@[i] == self.spans@[i] by {
            assert(cloned::<SourceSpan>(self.spans[i], spans[i]));
        }
        assert(spans@ =~= self.spans@);
        Evidence { message: self.message.clone(), spans }
    }
}

impl Evidence {
    /// Evidence with the given message and no spans.
    pub fn new(message: String) -> (res: Self)
        ensures
            res.message == message,
            res.spans@ == Seq::<SourceSpan>::empty(),
    {
        Evidence { message, spans: Vec::new() }
    }

    /// The same evidence with `span` appended.
    pub fn with_span(self, span: SourceSpan) -> (res: Self)
        ensures
            res.message == self.message,
            res.spans@ == self.spans@.push(span),
    {
        let mut res = self;
        res.spans.push(span);
        res
    }
}

/// A reported observation about a change. Confidence and risk are whole
/// percentages (0 to 100).
#[derive(Debug, PartialEq)]
pub struct Finding {
    pub code: String,
    pub severity: Severity,
    pub confidence: u32,
    pub risk_score: u32,
    pub title: String,
    pub detail: String,
    pub evidence: Vec<Evidence>,
}

/// A finding as plain values.
pub struct FindingView {
    pub code: Seq<char>,
    pub severity: Severity,
    pub confidence: u32,
    pub risk_score: u32,
    pub title: Seq<char>,
    pub detail: Seq<char>,
    pub evidence: Seq<EvidenceView>,
}

/// The views of a sequence of evidence.
pub open spec fn evidence_view(v: Seq<Evidence>) -> Seq<EvidenceView> {
    v.map_values(|e: Evidence| e@)
}

impl View for Finding {
    type V = FindingView;

    open spec fn view(&self) -> FindingView {
        FindingView {
            code: self.code@,
            severity: self.severity,
            confidence: self.confidence,
            risk_score: self.risk_score,
            title: self.title@,
            detail: self.detail@,
            evidence: evidence_view(self.evidence@),
        }
    }
}

/// The views of a sequence of findings.
pub open spec fn findings_view(v: Seq<Finding>) -> Seq<FindingView> {
    v.map_values(|f: Finding| f@)
}

impl Finding {
    /// A finding with no risk and no evidence.
    pub fn new(code: &str, severity: Severity, confidence: u32, title: String, detail: String) -> (res: Self)
        ensures
            res.code@ == code@,
            res.severity == severity,
            res.confidence == confidence,
            res.risk_score == 0,
            res.title == title,
            res.detail == detail,
            res.evidence@ == Seq::<Evidence>::empty(),
    {
        Finding {
            code: String::from_str(code),
            severity,
            confidence,
            risk_score: 0,
            title,
            detail,
            evidence: Vec::new(),
        }
    }

    /// The same finding with the given risk.
    pub fn with_risk_score(self, risk_score: u32) -> (res: Self)
        ensures
            res == (Finding { risk_score, ..self }),
    {
        let mut res = self;
        res.risk_score = risk_score;
        res
    }

    /// The same finding with `evidence` appended.
    pub fn with_evidence(self, evidence: Evidence) -> (res: Self)
        ensures
            res.code == self.code,
            res.severity == self.severity,
            res.confidence == self.confidence,
            res.risk_score == self.risk_score,
            res.title == self.title,
            res.detail == self.detail,
            res.evidence@ == self.evidence@.push(evidence),
    {
        let mut res = self;
        res.evidence.push(evidence);
        res
    }
}

/// How a symbol changed between two revisions.
#[derive(Clone, Copy, Debug, PartialEq, Eq, Structural)]
pub enum SymbolChangeKind {
    Added,
    Removed,
    Modified,
}

/// What a symbol declares.
#[derive(Clone, Copy, Debug, PartialEq, Eq, Structural)]
pub enum SymbolKind {
    Namespace,
    Module,
    Class,
    Struct,
    Interface,
    Enum,
    Record,
    Function,
    Method,
    Constructor,
    Property,
    Field,
    Variable,
    Constant,
    TypeAlias,
    Parameter,
    Unknown,
}

/// The variant's name, as `{:?}` writes it.
pub open spec fn symbol_kind_name(kind: SymbolKind) -> Seq<char> {
    match kind {
        SymbolKind::Namespace => "Namespace"@,
        SymbolKind::Module => "Module"@,
        SymbolKind::Class => "Class"@,
        SymbolKind::Struct => "Struct"@,
        SymbolKind::Interface => "Interface"@,
        SymbolKind::Enum => "Enum"@,
        SymbolKind::Record => "Record"@,
        SymbolKind::Function => "Function"@,
        SymbolKind::Method => "Method"@,
        SymbolKind::Constructor => "Constructor"@,
        SymbolKind::Property => "Property"@,
        SymbolKind::Field => "Field"@,
        SymbolKind::Variable => "Variable"@,
        SymbolKind::Constant => "Constant"@,
        SymbolKind::TypeAlias => "TypeAlias"@,
        SymbolKind::Parameter => "Parameter"@,
        SymbolKind::Unknown => "Unknown"@,
    }
}

impl SymbolKind {
    /// The variant's name, as `{:?}` writes it.
    pub fn name(&self) -> (res: &'static str)
        ensures
            res@ == symbol_kind_name(*self),
    {
        match self {
            SymbolKind::Namespace => "Namespace",
            SymbolKind::Module => "Module",
            SymbolKind::Class => "Class",
            SymbolKind::Struct => "Struct",
            SymbolKind::Interface => "Interface",
            SymbolKind::Enum => "Enum",
            SymbolKind::Record => "Record",
            SymbolKind::Function => "Function",
            SymbolKind::Method => "Method",
            SymbolKind::Constructor => "Constructor",
            SymbolKind::Property => "Property",
            SymbolKind::Field => "Field",
            SymbolKind::Variable => "Variable",
            SymbolKind::Constant => "Constant",
            SymbolKind::TypeAlias => "TypeAlias",
            SymbolKind::Parameter => "Parameter",
            SymbolKind::Unknown => "Unknown",
        }
    }
}

/// A declared symbol of a source file.
#[derive(Debug, PartialEq, Eq)]
pub struct Symbol {
    pub id: String,
    pub name: String,
    pub kind: SymbolKind,
    pub file: String,
    pub span: SourceSpan,
    pub container: Option<String>,
    pub signature: Option<String>,
    pub exported: bool,
}

/// A symbol with its strings taken as characters.
pub struct SymbolView {
    pub id: Seq<char>,
    pub name: Seq<char>,
    pub kind: SymbolKind,
    pub file: Seq<char>,
    pub span: SpanView,
    pub container: Option<Seq<char>>,
    pub signature: Option<Seq<char>>,
    pub exported: bool,
}


impl View for Symbol {
    type V = SymbolView;

    open spec fn view(&self) -> SymbolView {
        SymbolView {
            id: self.id@,
            name: self.name@,
            kind: self.kind,
            file: self.file@,
            span: self.span@,
            container: opt_chars(self.container),
            signature: opt_chars(self.signature),
            exported: self.exported,
        }
    }
}

/// The views of a sequence of symbols.
pub open spec fn symbols_view(v: Seq<Symbol>) -> Seq<SymbolView> {
    v.map_values(|s: Symbol| s@)
}

impl Clone for Symbol {
    fn clone(&self) -> (res: Self)
        ensures
            res == *self,
    {
        Symbol {
            id: self.id.clone(),
            name: self.name.clone(),
            kind: self.kind,
            file: self.file.clone(),
            span: self.span.clone(),
            container: self.container.clone(),
            signature: self.signature.clone(),
            exported: self.exported,
        }
    }
}

/// `container.name`, or just `name` when the container is absent or empty.
pub open spec fn qualified_name_of(container: Option<Seq<char>>, name: Seq<char>) -> Seq<char> {
    match container {
        Some(c) => if c.len() > 0 { c + "."@ + name } else { name },
        None => name,
    }
}

/// `Kind|qualified.name`: the key under which symbols are matched across revisions.
pub open spec fn change_key_of(s: SymbolView) -> Seq<char> {
    symbol_kind_name(s.kind) + "|"@ + qualified_name_of(s.container, s.name)
}

impl Symbol {
    /// A symbol with no container and no signature, not exported.
    pub fn new(id: String, name: String, kind: SymbolKind, file: String, span: SourceSpan) -> (res: Self)
        ensures
            res == (Symbol { id, name, kind, file, span, container: None, signature: None, exported: false }),
    {
        Symbol { id, name, kind, file, span, container: None, signature: None, exported: false }
    }

    /// The same symbol inside `container`.
    pub fn with_container(self, container: String) -> (res: Self)
        ensures
            res == (Symbol { container: Some(container), ..self }),
    {
        let mut res = self;
        res.container = Some(container);
        res
    }

    /// The same symbol with `signature`.
    pub fn with_signature(self, signature: String) -> (res: Self)
        ensures
            res == (Symbol { signature: Some(signature), ..self }),
    {
        let mut res = self;
        res.signature = Some(signature);
        res
    }

    /// The same symbol, exported or not.
    pub fn exported(self, exported: bool) -> (res: Self)
        ensures
            res == (Symbol { exported, ..self }),
    {
        let mut res = self;
        res.exported = exported;
        res
    }

    /// The name, prefixed by `container.` when the container is not empty.
    pub fn qualified_name(&self) -> (res: String)
        ensures
            res@ == qualified_name_of(opt_chars(self.container), self.name@),
    {
        match &self.container {
            Some(container) => {
                if !container.as_str().is_empty() {
                    let mut res = container.clone();
                    res.append(".");
                    res.append(self.name.as_str());
                    res
                } else {
                    self.name.clone()
                }
            },
            None => self.name.clone(),
        }
    }

    /// `Kind|qualified.name`.
    pub fn change_key(&self) -> (res: String)
        ensures
            res@ == change_key_of(self@),
    {
        let mut res = String::from_str(self.kind.name());
        res.append("|");
        let q = self.qualified_name();
        res.append(q.as_str());
        res
    }
}

/// A use of one symbol by another.
#[derive(Debug, PartialEq, Eq)]
pub struct Reference {
    pub from_symbol: String,
    pub to_symbol: String,
    pub span: SourceSpan,
}

impl Clone for Reference {
    fn clone(&self) -> (res: Self)
        ensures
            res == *self,
    {
        Reference { from_symbol: self.from_symbol.clone(), to_symbol: self.to_symbol.clone(), span: self.span.clone() }
    }
}

impl Reference {
    pub fn new(from_symbol: String, to_symbol: String, span: SourceSpan) -> (res: Self)
        ensures
            res == (Reference { from_symbol, to_symbol, span }),
    {
        Reference { from_symbol, to_symbol, span }
    }
}

/// A symbol that was added, removed or modified between two revisions.
#[derive(Debug, PartialEq, Eq)]
pub struct SymbolChange {
    pub file: String,
    pub qualified_name: String,
    pub name: String,
    pub symbol_kind: SymbolKind,
    pub kind: SymbolChangeKind,
    pub exported: bool,
    pub before_signature: Option<String>,
    pub after_signature: Option<String>,
    pub before_span: Option<SourceSpan>,
    pub after_span: Option<SourceSpan>,
}

/// A symbol change with its strings taken as characters.
pub struct SymbolChangeView {
    pub file: Seq<char>,
    pub qualified_name: Seq<char>,
    pub name: Seq<char>,
    pub symbol_kind: SymbolKind,
    pub kind: SymbolChangeKind,
    pub exported: bool,
    pub before_signature: Option<Seq<char>>,
    pub after_signature: Option<Seq<char>>,
    pub before_span: Option<SpanView>,
    pub after_span: Option<SpanView>,
}

/// The view of an optional span.
pub open spec fn opt_span_view(o: Option<SourceSpan>) -> Option<SpanView> {
    match o {
        Some(s) => Some(s@),
        None => None,
    }
}

impl View for SymbolChange {
    type V = SymbolChangeView;

    open spec fn view(&self) -> SymbolChangeView {
        SymbolChangeView {
            file: self.file@,
            qualified_name: self.qualified_name@,
            name: self.name@,
            symbol_kind: self.symbol_kind,
            kind: self.kind,
            exported: self.exported,
            before_signature: opt_chars(self.before_signature),
            after_signature: opt_chars(self.after_signature),
            before_span: opt_span_view(self.before_span),
            after_span: opt_span_view(self.after_span),
        }
    }
}

/// The views of a sequence of symbol changes.
pub open spec fn symbol_changes_view(v: Seq<SymbolChange>) -> Seq<SymbolChangeView> {
    v.map_values(|c: SymbolChange| c@)
}

/// The change that adds symbol `s`.
pub open spec fn added_view(s: SymbolView) -> SymbolChangeView {
    SymbolChangeView {
        file: s.file,
        qualified_name: qualified_name_of(s.container, s.name),
        name: s.name,
        symbol_kind: s.kind,
        kind: SymbolChangeKind::Added,
        exported: s.exported,
        before_signature: None,
        after_signature: s.signature,
        before_span: None,
        after_span: Some(s.span),
    }
}

/// The change that removes symbol `s`.
pub open spec fn removed_view(s: SymbolView) -> SymbolChangeView {
    SymbolChangeView {
        file: s.file,
        qualified_name: qualified_name_of(s.container, s.name),
        name: s.name,
        symbol_kind: s.kind,
        kind: SymbolChangeKind::Removed,
        exported: s.exported,
        before_signature: s.signature,
        after_signature: None,
        before_span: Some(s.span),
        after_span: None,
    }
}

/// The change from symbol `b` to symbol `a`; exported when either is.
pub open spec fn modified_view(b: SymbolView, a: SymbolView) -> SymbolChangeView {
    SymbolChangeView {
        file: a.file,
        qualified_name: qualified_name_of(a.container, a.name),
        name: a.name,
        symbol_kind: a.kind,
        kind: SymbolChangeKind::Modified,
        exported: b.exported || a.exported,
        before_signature: b.signature,
        after_signature: a.signature,
        before_span: Some(b.span),
        after_span: Some(a.span),
    }
}

impl Clone for SymbolChange {
    fn clone(&self) -> (res: Self)
        ensures
            res == *self,
    {
        SymbolChange {
            file: self.file.clone(),
            qualified_name: self.qualified_name.clone(),
            name: self.name.clone(),
            symbol_kind: self.symbol_kind,
            kind: self.kind,
            exported: self.exported,
            before_signature: self.before_signature.clone(),
            after_signature: self.after_signature.clone(),
            before_span: self.before_span.clone(),
            after_span: self.after_span.clone(),
        }
    }
}

impl SymbolChange {
    /// The change that adds `symbol`.
    pub fn added(symbol: &Symbol) -> (res: Self)
        ensures
            res.file == symbol.file,
            res.qualified_name@ == qualified_name_of(opt_chars(symbol.container), symbol.name@),
            res.name == symbol.name,
            res.symbol_kind == symbol.kind,
            res.kind == SymbolChangeKind::Added,
            res.exported == symbol.exported,
            res.before_signature == None::<String>,
            res.after_signature == symbol.signature,
            res.before_span == None::<SourceSpan>,
            res.after_span == Some(symbol.span),
            res@ == added_view(symbol@),
    {
        SymbolChange {
            file: symbol.file.clone(),
            qualified_name: symbol.qualified_name(),
            name: symbol.name.clone(),
            symbol_kind: symbol.kind,
            kind: SymbolChangeKind::Added,
            exported: symbol.exported,
            before_signature: None,
            after_signature: symbol.signature.clone(),
            before_span: None,
            after_span: Some(symbol.span.clone()),
        }
    }

    /// The change that removes `symbol`.
    pub fn removed(symbol: &Symbol) -> (res: Self)
        ensures
            res.file == symbol.file,
            res.qualified_name@ == qualified_name_of(opt_chars(symbol.container), symbol.name@),
            res.name == symbol.name,
            res.symbol_kind == symbol.kind,
            res.kind == SymbolChangeKind::Removed,
            res.exported == symbol.exported,
            res.before_signature == symbol.signature,
            res.after_signature == None::<String>,
            res.before_span == Some(symbol.span),
            res.after_span == None::<SourceSpan>,
            res@ == removed_view(symbol@),
    {
        SymbolChange {
            file: symbol.file.clone(),
            qualified_name: symbol.qualified_name(),
            name: symbol.name.clone(),
            symbol_kind: symbol.kind,
            kind: SymbolChangeKind::Removed,
            exported: symbol.exported,
            before_signature: symbol.signature.clone(),
            after_signature: None,
            before_span: Some(symbol.span.clone()),
            after_span: None,
        }
    }

    /// The change from `before` to `after`; exported when either side is.
    pub fn modified(before: &Symbol, after: &Symbol) -> (res: Self)
        ensures
            res.file == after.file,
            res.qualified_name@ == qualified_name_of(opt_chars(after.container), after.name@),
            res.name == after.name,
            res.symbol_kind == after.kind,
            res.kind == SymbolChangeKind::Modified,
            res.exported == (before.exported || after.exported),
            res.before_signature == before.signature,
            res.after_signature == after.signature,
            res.before_span == Some(before.span),
            res.after_span == Some(after.span),
            res@ == modified_view(before@, after@),
    {
        SymbolChange {
            file: after.file.clone(),
            qualified_name: after.qualified_name(),
            name: after.name.clone(),
            symbol_kind: after.kind,
            kind: SymbolChangeKind::Modified,
            exported: before.exported || after.exported,
            before_signature: before.signature.clone(),
            after_signature: after.signature.clone(),
            before_span: Some(before.span.clone()),
            after_span: Some(after.span.clone()),
        }
    }
}

#[verifier::spinoff_prover]
proof fn lemma_kind_names_revealed()
    ensures
        forall|k: SymbolKind| #[trigger] symbol_kind_name(k).len() > 0,
        forall|k: SymbolKind, i: int| 0 <= i < symbol_kind_name(k).len() ==> #[trigger] symbol_kind_name(k)[i] != '|',
        forall|a: SymbolKind, b: SymbolKind| #[trigger] symbol_kind_name(a) == #[trigger] symbol_kind_name(b) ==> a == b,
{
    reveal_strlit("Namespace");
    reveal_strlit("Module");
    reveal_strlit("Class");
    reveal_strlit("Struct");
    reveal_strlit("Interface");
    reveal_strlit("Enum");
    reveal_strlit("Record");
    reveal_strlit("Function");
    reveal_strlit("Method");
    reveal_strlit("Constructor");
    reveal_strlit("Property");
    reveal_strlit("Field");
    reveal_strlit("Variable");
    reveal_strlit("Constant");
    reveal_strlit("TypeAlias");
    reveal_strlit("Parameter");
    reveal_strlit("Unknown");
    reveal_strlit("|");
    assert forall|a: SymbolKind, b: SymbolKind| #[trigger] symbol_kind_name(a) == #[trigger] symbol_kind_name(b) implies a == b by {
        let x = symbol_kind_name(a);
        let y = symbol_kind_name(b);
        assert(x.len() == y.len() && x[0] == y[0] && x[1] == y[1]);
        match a {
            SymbolKind::Namespace => { assert(b == SymbolKind::Namespace); },
            SymbolKind::Module => { assert(b == SymbolKind::Module); },
            SymbolKind::Class => { assert(b == SymbolKind::Class); },
            SymbolKind::Struct => { assert(b == SymbolKind::Struct); },
            SymbolKind::Interface => { assert(b == SymbolKind::Interface); },
            SymbolKind::Enum => { assert(b == SymbolKind::Enum); },
            SymbolKind::Record => { assert(b == SymbolKind::Record); },
            SymbolKind::Function => { assert(b == SymbolKind::Function); },
            SymbolKind::Method => { assert(b == SymbolKind::Method); },
            SymbolKind::Constructor => { assert(b == SymbolKind::Constructor); },
            SymbolKind::Property => { assert(b == SymbolKind::Property); },
            SymbolKind::Field => { assert(b == SymbolKind::Field); },
            SymbolKind::Variable => { assert(b == SymbolKind::Variable); },
            SymbolKind::Constant => { assert(b == SymbolKind::Constant); },
            SymbolKind::TypeAlias => { assert(b == SymbolKind::TypeAlias); },
            SymbolKind::Parameter => { assert(b == SymbolKind::Parameter); },
            SymbolKind::Unknown => { assert(b == SymbolKind::Unknown); },
        }
    }
}

/// Symbols match across revisions only when they are of the same kind and
/// have the same qualified name: symbols of different kinds never share a
/// change key.
#[verifier::spinoff_prover]
pub proof fn lemma_change_key_injective(s: SymbolView, t: SymbolView)
    requires
        change_key_of(s) == change_key_of(t),
    ensures
        s.kind == t.kind,
        qualified_name_of(s.container, s.name) == qualified_name_of(t.container, t.name),
{
    lemma_kind_names_revealed();
    let a = symbol_kind_name(s.kind);
    let b = symbol_kind_name(t.kind);
    let ka = change_key_of(s);
    reveal_strlit("|");
    if a.len() < b.len() {
        assert(ka[a.len() as int] == '|');
        assert(ka[a.len() as int] == b[a.len() as int]);
    } else if b.len() < a.len() {
        assert(ka[b.len() as int] == '|');
        assert(ka[b.len() as int] == a[b.len() as int]);
    }
    assert(a =~= ka.subrange(0, a.len() as int));
    assert(b =~= ka.subrange(0, b.len() as int));
    assert(s.kind == t.kind);
    assert(qualified_name_of(s.container, s.name) =~= ka.subrange(a.len() + 1int, ka.len() as int));
    assert(qualified_name_of(t.container, t.name) =~= ka.subrange(b.len() + 1int, ka.len() as int));
}

} // verus!
