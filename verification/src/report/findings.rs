//! The findings of a report and the text they carry.
use vstd::prelude::*;
use vstd::string::StringExecFns;
use crate::detectors::change::{file_at, find_path, has_path, same_content, same_content_spec};
use crate::detectors::clone::CloneGroup;
use crate::ir::file::FileAnalysis;
use crate::ir::model::{
    Evidence, EvidenceView, Finding, FindingView, Severity, SourceSpan, SpanView, Symbol,
    SymbolChange, SymbolChangeKind, SymbolChangeView, opt_span_view, symbol_kind_name,
};
use crate::order::strings_of;
use crate::text::{join_strings, join_with, views_of};

verus! {

/// A file renamed between two revisions.
#[derive(Debug, PartialEq, Eq)]
pub struct RenamedFile {
    pub from: String,
    pub to: String,
}

impl Clone for RenamedFile {
    fn clone(&self) -> (res: Self)
        ensures
            res == *self,
    {
        RenamedFile { from: self.from.clone(), to: self.to.clone() }
    }
}

impl RenamedFile {
    /// The rename of `from` to `to`.
    pub fn new(from: &str, to: &str) -> (res: Self)
        ensures
            res.from@ == from@,
            res.to@ == to@,
    {
        RenamedFile { from: String::from_str(from), to: String::from_str(to) }
    }
}

/// `s` between backticks.
pub open spec fn backticked(s: Seq<char>) -> Seq<char> {
    "`"@ + s + "`"@
}

/// The spans of the symbols, in order.
pub open spec fn symbol_spans(syms: Seq<Symbol>) -> Seq<SpanView> {
    syms.map_values(|s: Symbol| s.span@)
}

/// The names of the symbols joined by `, `, or `<none>` when there are none.
pub open spec fn symbol_names_of(syms: Seq<Symbol>) -> Seq<char> {
    if syms.len() == 0 {
        "<none>"@
    } else {
        join_with(syms.map_values(|s: Symbol| s.name@), ", "@)
    }
}

/// A finding with one piece of evidence.
pub open spec fn finding_of(
    code: Seq<char>,
    severity: Severity,
    confidence: u32,
    risk_score: u32,
    title: Seq<char>,
    detail: Seq<char>,
    evidence: EvidenceView,
) -> FindingView {
    FindingView { code, severity, confidence, risk_score, title, detail, evidence: seq![evidence] }
}

/// The finding for a file modified at `path`, whose head analysis is `file`.
pub open spec fn modified_file_finding_of(path: Seq<char>, file: FileAnalysis) -> FindingView {
    finding_of("file.modified"@, Severity::Medium, 96, 0, "Modified `"@ + path + "`"@,
        path + " symbols: "@ + symbol_names_of(file.symbols@),
        EvidenceView { message: "modified file: "@ + path, spans: symbol_spans(file.symbols@) })
}

/// The finding for a file added at `path`, whose head analysis is `file`.
pub open spec fn added_file_finding_of(path: Seq<char>, file: FileAnalysis) -> FindingView {
    finding_of("file.added"@, Severity::Low, 95, 0, "Added `"@ + path + "`"@,
        path + " symbols: "@ + symbol_names_of(file.symbols@),
        EvidenceView { message: "added file: "@ + path, spans: symbol_spans(file.symbols@) })
}

/// The finding for a file removed from `path`.
pub open spec fn removed_file_finding_of(path: Seq<char>) -> FindingView {
    finding_of("file.removed"@, Severity::Low, 95, 0, "Removed `"@ + path + "`"@,
        path + " was removed from the head revision"@,
        EvidenceView { message: "removed file: "@ + path, spans: Seq::empty() })
}

/// Whether a renamed file's content changed: both sides exist and some
/// fingerprint differs.
pub open spec fn rename_changed(from: Seq<char>, to: Seq<char>, base: Seq<FileAnalysis>, head: Seq<FileAnalysis>) -> bool {
    has_path(base, from) && has_path(head, to) && !same_content_spec(file_at(base, from), file_at(head, to))
}

/// The finding for the rename of `from` to `to`.
pub open spec fn rename_finding_of(from: Seq<char>, to: Seq<char>, base: Seq<FileAnalysis>, head: Seq<FileAnalysis>) -> FindingView {
    let changed = rename_changed(from, to, base, head);
    finding_of("file.renamed"@, if changed { Severity::Medium } else { Severity::Low }, 98, 0,
        "Renamed `"@ + from + "` -> `"@ + to + "`"@,
        "Renamed `"@ + from + "` -> `"@ + to + (if changed { "` with content changes"@ } else { "` with content preserved"@ }),
        EvidenceView {
            message: "rename: "@ + from + " -> "@ + to,
            spans: if has_path(head, to) { symbol_spans(file_at(head, to).symbols@) } else { Seq::empty() },
        })
}

/// The members, each between backticks, joined by `, `.
pub open spec fn member_list_of(members: Seq<Seq<char>>) -> Seq<char> {
    join_with(members.map_values(|m: Seq<char>| backticked(m)), ", "@)
}

/// The spans of the head symbols of the first `n` members that the head has.
pub open spec fn member_spans(head: Seq<FileAnalysis>, members: Seq<Seq<char>>, n: int) -> Seq<SpanView>
    decreases n,
{
    if n <= 0 {
        Seq::empty()
    } else {
        member_spans(head, members, n - 1) + (if has_path(head, members[n - 1]) {
            symbol_spans(file_at(head, members[n - 1]).symbols@)
        } else {
            Seq::empty()
        })
    }
}

/// The finding for an exact clone group of the head revision.
pub open spec fn clone_group_finding_of(members: Seq<Seq<char>>, head: Seq<FileAnalysis>) -> FindingView {
    let list = member_list_of(members);
    finding_of("clone.exact"@, Severity::Medium, 99, 0, "Exact clone group"@,
        "Exact clone group across "@ + list,
        EvidenceView { message: "exact clone group: "@ + list, spans: member_spans(head, members, members.len() as int) })
}

/// The title of a symbol change.
pub open spec fn symbol_change_title_of(c: SymbolChangeView) -> Seq<char> {
    match c.kind {
        SymbolChangeKind::Added => "Added symbol "@ + backticked(c.qualified_name),
        SymbolChangeKind::Removed => "Removed symbol "@ + backticked(c.qualified_name),
        SymbolChangeKind::Modified => "Modified symbol "@ + backticked(c.qualified_name),
    }
}

/// The detail of a symbol change.
pub open spec fn symbol_change_detail_of(c: SymbolChangeView) -> Seq<char> {
    let tail = backticked(c.qualified_name) + " ("@ + symbol_kind_name(c.symbol_kind) + ")"@;
    match c.kind {
        SymbolChangeKind::Added => c.file + " now defines "@ + tail,
        SymbolChangeKind::Removed => c.file + " no longer defines "@ + tail,
        SymbolChangeKind::Modified => c.file + " changed "@ + tail,
    }
}

/// The title of an API change.
pub open spec fn api_change_title_of(c: SymbolChangeView) -> Seq<char> {
    match c.kind {
        SymbolChangeKind::Added => "Added API "@ + backticked(c.qualified_name),
        SymbolChangeKind::Removed => "Removed API "@ + backticked(c.qualified_name),
        SymbolChangeKind::Modified => "Changed API "@ + backticked(c.qualified_name),
    }
}

/// The detail of an API change.
pub open spec fn api_change_detail_of(c: SymbolChangeView) -> Seq<char> {
    let head = "exported "@ + backticked(c.qualified_name);
    match c.kind {
        SymbolChangeKind::Added => head + " is now available in "@ + c.file,
        SymbolChangeKind::Removed => head + " is no longer available in "@ + c.file,
        SymbolChangeKind::Modified => head + " changed in "@ + c.file,
    }
}

/// The spans of an optional span.
pub open spec fn opt_spans(o: Option<SpanView>) -> Seq<SpanView> {
    match o {
        Some(s) => seq![s],
        None => Seq::empty(),
    }
}

/// The evidence of a symbol change: where it was and where it is.
pub open spec fn symbol_change_evidence_of(c: SymbolChangeView) -> EvidenceView {
    EvidenceView {
        message: "symbol change: "@ + c.qualified_name + " in "@ + c.file,
        spans: opt_spans(c.before_span) + opt_spans(c.after_span),
    }
}

/// The finding for a symbol change.
pub open spec fn symbol_change_finding_of(c: SymbolChangeView) -> FindingView {
    let (code, severity) = match c.kind {
        SymbolChangeKind::Added => ("symbol.added"@, Severity::Low),
        SymbolChangeKind::Removed => ("symbol.removed"@, Severity::Medium),
        SymbolChangeKind::Modified => ("symbol.modified"@, Severity::Medium),
    };
    finding_of(code, severity, 97, 0, symbol_change_title_of(c), symbol_change_detail_of(c), symbol_change_evidence_of(c))
}

/// The finding for a change of an exported symbol, with its risk.
pub open spec fn api_change_finding_of(c: SymbolChangeView) -> FindingView {
    let (code, severity, risk) = match c.kind {
        SymbolChangeKind::Added => ("api.added"@, Severity::Low, 20u32),
        SymbolChangeKind::Removed => ("api.removed"@, Severity::High, 98u32),
        SymbolChangeKind::Modified => ("api.changed"@, Severity::Medium, 82u32),
    };
    finding_of(code, severity, 99, risk, api_change_title_of(c), api_change_detail_of(c), symbol_change_evidence_of(c))
}

fn push_symbol_spans(evidence: Evidence, syms: &Vec<Symbol>) -> (res: Evidence)
    ensures
        res@ == (EvidenceView { message: evidence@.message, spans: evidence@.spans + symbol_spans(syms@) }),
{
    let mut evidence = evidence;
    let ghost start = evidence@.spans;
    let ghost message = evidence@.message;
    let mut i: usize = 0;
    while i < syms.len()
        invariant
            i <= syms.len(),
            evidence@.message == message,
            evidence@.spans == start + symbol_spans(syms@).take(i as int),
        decreases syms.len() - i,
    {
        let ghost before = evidence@;
        evidence = evidence.with_span(syms[i].span.clone());
        assert(evidence@.spans =~= before.spans.push(syms@[i as int].span@));
        assert(symbol_spans(syms@).take(i + 1) =~= symbol_spans(syms@).take(i as int).push(syms@[i as int].span@));
        i = i + 1;
    }
    assert(symbol_spans(syms@).take(syms.len() as int) =~= symbol_spans(syms@));
    evidence
}

/// The names of the symbols joined by `, `, or `<none>`.
fn symbol_names(file: &FileAnalysis) -> (res: String)
    ensures
        res@ == symbol_names_of(file.symbols@),
{
    if file.symbols.len() == 0 {
        return String::from_str("<none>");
    }
    let mut names: Vec<String> = Vec::new();
    let mut i: usize = 0;
    while i < file.symbols.len()
        invariant
            i <= file.symbols.len(),
            names.len() == i,
            views_of(names@) == file.symbols@.map_values(|s: Symbol| s.name@).take(i as int),
        decreases file.symbols.len() - i,
    {
        names.push(file.symbols[i].name.clone());
        assert(views_of(names@) =~= file.symbols@.map_values(|s: Symbol| s.name@).take(i + 1));
        i = i + 1;
    }
    assert(file.symbols@.map_values(|s: Symbol| s.name@).take(file.symbols.len() as int)
        =~= file.symbols@.map_values(|s: Symbol| s.name@));
    join_strings(&names, ", ")
}

/// A finding with the given text and one piece of evidence.
fn finding(code: &str, severity: Severity, confidence: u32, title: String, detail: String, evidence: Evidence) -> (res: Finding)
    ensures
        res@ == finding_of(code@, severity, confidence, 0, title@, detail@, evidence@),
{
    let res = Finding::new(code, severity, confidence, title, detail).with_evidence(evidence);
    assert(res@.evidence =~= seq![evidence@]);
    res
}

/// `a` followed by `b`.
fn cat(a: &str, b: &str) -> (res: String)
    ensures
        res@ == a@ + b@,
{
    let mut out = String::from_str(a);
    out.append(b);
    out
}

/// `a`, `b` and `c` in a row.
fn cat3(a: &str, b: &str, c: &str) -> (res: String)
    ensures
        res@ == a@ + b@ + c@,
{
    let mut out = String::from_str(a);
    out.append(b);
    out.append(c);
    out
}

/// The finding for a file modified at `path`.
pub fn modified_file_finding(path: &str, file: &FileAnalysis) -> (res: Finding)
    ensures
        res@ == modified_file_finding_of(path@, *file),
{
    let evidence = push_symbol_spans(Evidence::new(cat("modified file: ", path)), &file.symbols);
    let names = symbol_names(file);
    finding("file.modified", Severity::Medium, 96, cat3("Modified `", path, "`"),
        cat3(path, " symbols: ", names.as_str()), evidence)
}

/// The finding for a file added at `path`.
pub fn added_file_finding(path: &str, file: &FileAnalysis) -> (res: Finding)
    ensures
        res@ == added_file_finding_of(path@, *file),
{
    let evidence = push_symbol_spans(Evidence::new(cat("added file: ", path)), &file.symbols);
    let names = symbol_names(file);
    finding("file.added", Severity::Low, 95, cat3("Added `", path, "`"),
        cat3(path, " symbols: ", names.as_str()), evidence)
}

/// The finding for a file removed from `path`.
pub fn removed_file_finding(path: &str) -> (res: Finding)
    ensures
        res@ == removed_file_finding_of(path@),
{
    let evidence = Evidence::new(cat("removed file: ", path));
    assert(evidence@.spans =~= Seq::<SpanView>::empty());
    finding("file.removed", Severity::Low, 95, cat3("Removed `", path, "`"),
        cat(path, " was removed from the head revision"), evidence)
}

/// The finding for the rename of `rename.from` to `rename.to`.
pub fn rename_file_finding(rename: &RenamedFile, base: &[FileAnalysis], head: &[FileAnalysis]) -> (res: Finding)
    ensures
        res@ == rename_finding_of(rename.from@, rename.to@, base@, head@),
{
    let base_file = find_path(base, rename.from.as_str());
    let head_file = find_path(head, rename.to.as_str());
    let changed = match (base_file, head_file) {
        (Some(b), Some(h)) => !same_content(&base[b], &head[h]),
        _ => false,
    };
    let mut message = cat3("rename: ", rename.from.as_str(), " -> ");
    message.append(rename.to.as_str());
    let mut evidence = Evidence::new(message);
    assert(evidence@.spans =~= Seq::<SpanView>::empty());
    if let Some(h) = head_file {
        evidence = push_symbol_spans(evidence, &head[h].symbols);
        assert(evidence@.spans =~= symbol_spans(file_at(head@, rename.to@).symbols@));
    }
    let mut title = cat3("Renamed `", rename.from.as_str(), "` -> `");
    title.append(rename.to.as_str());
    let mut detail = title.clone();
    title.append("`");
    if changed {
        detail.append("` with content changes");
    } else {
        detail.append("` with content preserved");
    }
    finding("file.renamed", if changed { Severity::Medium } else { Severity::Low }, 98, title, detail, evidence)
}

/// The members, each between backticks, joined by `, `.
pub fn member_list(members: &Vec<String>) -> (res: String)
    ensures
        res@ == member_list_of(strings_of(members@)),
{
    let mut quoted: Vec<String> = Vec::new();
    let ghost want = strings_of(members@).map_values(|m: Seq<char>| backticked(m));
    let mut i: usize = 0;
    while i < members.len()
        invariant
            i <= members.len(),
            want == strings_of(members@).map_values(|m: Seq<char>| backticked(m)),
            quoted.len() == i,
            views_of(quoted@) == want.take(i as int),
        decreases members.len() - i,
    {
        quoted.push(cat3("`", members[i].as_str(), "`"));
        assert(views_of(quoted@) =~= want.take(i + 1));
        i = i + 1;
    }
    assert(want.take(members.len() as int) =~= want);
    join_strings(&quoted, ", ")
}

/// The finding for an exact clone group of the head revision.
pub fn clone_group_finding(group: &CloneGroup, head: &[FileAnalysis]) -> (res: Finding)
    ensures
        res@ == clone_group_finding_of(strings_of(group.members@), head@),
{
    let ghost members = strings_of(group.members@);
    let list = member_list(&group.members);
    let mut evidence = Evidence::new(cat("exact clone group: ", list.as_str()));
    assert(evidence@.spans =~= member_spans(head@, members, 0));
    let mut i: usize = 0;
    while i < group.members.len()
        invariant
            i <= group.members.len(),
            members == strings_of(group.members@),
            evidence@.message == "exact clone group: "@ + list@,
            evidence@.spans == member_spans(head@, members, i as int),
        decreases group.members.len() - i,
    {
        assert(members[i as int] == group.members@[i as int]@);
        let ghost before = evidence@.spans;
        match find_path(head, group.members[i].as_str()) {
            Some(h) => {
                evidence = push_symbol_spans(evidence, &head[h].symbols);
            },
            None => {
                assert(evidence@.spans =~= before + Seq::<SpanView>::empty());
            },
        }
        i = i + 1;
    }
    finding("clone.exact", Severity::Medium, 99, String::from_str("Exact clone group"),
        cat("Exact clone group across ", list.as_str()), evidence)
}

/// The title of a symbol change.
pub fn symbol_change_title(change: &SymbolChange) -> (res: String)
    ensures
        res@ == symbol_change_title_of(change@),
{
    let lead = match change.kind {
        SymbolChangeKind::Added => "Added symbol `",
        SymbolChangeKind::Removed => "Removed symbol `",
        SymbolChangeKind::Modified => "Modified symbol `",
    };
    let res = cat3(lead, change.qualified_name.as_str(), "`");
    proof {
        reveal_strlit("Added symbol `");
        reveal_strlit("Removed symbol `");
        reveal_strlit("Modified symbol `");
        reveal_strlit("Added symbol ");
        reveal_strlit("Removed symbol ");
        reveal_strlit("Modified symbol ");
        reveal_strlit("`");
    }
    assert(res@ =~= symbol_change_title_of(change@));
    res
}

/// The detail of a symbol change.
pub fn symbol_change_detail(change: &SymbolChange) -> (res: String)
    ensures
        res@ == symbol_change_detail_of(change@),
{
    let middle = match change.kind {
        SymbolChangeKind::Added => " now defines `",
        SymbolChangeKind::Removed => " no longer defines `",
        SymbolChangeKind::Modified => " changed `",
    };
    let mut res = cat3(change.file.as_str(), middle, change.qualified_name.as_str());
    res.append("` (");
    res.append(change.symbol_kind.name());
    res.append(")");
    proof {
        reveal_strlit(" now defines `");
        reveal_strlit(" no longer defines `");
        reveal_strlit(" changed `");
        reveal_strlit(" now defines ");
        reveal_strlit(" no longer defines ");
        reveal_strlit(" changed ");
        reveal_strlit("` (");
        reveal_strlit(" (");
        reveal_strlit("`");
    }
    assert(res@ =~= symbol_change_detail_of(change@));
    res
}

/// The title of an API change.
pub fn api_change_title(change: &SymbolChange) -> (res: String)
    ensures
        res@ == api_change_title_of(change@),
{
    let lead = match change.kind {
        SymbolChangeKind::Added => "Added API `",
        SymbolChangeKind::Removed => "Removed API `",
        SymbolChangeKind::Modified => "Changed API `",
    };
    let res = cat3(lead, change.qualified_name.as_str(), "`");
    proof {
        reveal_strlit("Added API `");
        reveal_strlit("Removed API `");
        reveal_strlit("Changed API `");
        reveal_strlit("Added API ");
        reveal_strlit("Removed API ");
        reveal_strlit("Changed API ");
        reveal_strlit("`");
    }
    assert(res@ =~= api_change_title_of(change@));
    res
}

/// The detail of an API change.
pub fn api_change_detail(change: &SymbolChange) -> (res: String)
    ensures
        res@ == api_change_detail_of(change@),
{
    let mut res = cat3("exported `", change.qualified_name.as_str(), "`");
    let tail = match change.kind {
        SymbolChangeKind::Added => " is now available in ",
        SymbolChangeKind::Removed => " is no longer available in ",
        SymbolChangeKind::Modified => " changed in ",
    };
    res.append(tail);
    res.append(change.file.as_str());
    proof {
        reveal_strlit("exported `");
        reveal_strlit("exported ");
        reveal_strlit("`");
    }
    assert(res@ =~= api_change_detail_of(change@));
    res
}

/// The evidence of a symbol change.
pub fn symbol_change_evidence(change: &SymbolChange) -> (res: Evidence)
    ensures
        res@ == symbol_change_evidence_of(change@),
{
    let mut message = cat3("symbol change: ", change.qualified_name.as_str(), " in ");
    message.append(change.file.as_str());
    let mut evidence = Evidence::new(message);
    if let Some(span) = &change.before_span {
        evidence = evidence.with_span(span.clone());
    }
    if let Some(span) = &change.after_span {
        evidence = evidence.with_span(span.clone());
    }
    assert(evidence@.spans =~= opt_spans(opt_span_view(change.before_span)) + opt_spans(opt_span_view(change.after_span)));
    evidence
}

/// The finding for a symbol change.
pub fn symbol_change_finding(change: &SymbolChange) -> (res: Finding)
    ensures
        res@ == symbol_change_finding_of(change@),
{
    let (code, severity) = match change.kind {
        SymbolChangeKind::Added => ("symbol.added", Severity::Low),
        SymbolChangeKind::Removed => ("symbol.removed", Severity::Medium),
        SymbolChangeKind::Modified => ("symbol.modified", Severity::Medium),
    };
    finding(code, severity, 97, symbol_change_title(change), symbol_change_detail(change), symbol_change_evidence(change))
}

/// The finding for a change of an exported symbol.
pub fn api_change_finding(change: &SymbolChange) -> (res: Finding)
    ensures
        res@ == api_change_finding_of(change@),
{
    let (code, severity, risk) = match change.kind {
        SymbolChangeKind::Added => ("api.added", Severity::Low, 20u32),
        SymbolChangeKind::Removed => ("api.removed", Severity::High, 98u32),
        SymbolChangeKind::Modified => ("api.changed", Severity::Medium, 82u32),
    };
    let f = finding(code, severity, 99, api_change_title(change), api_change_detail(change), symbol_change_evidence(change));
    f.with_risk_score(risk)
}

} // verus!
