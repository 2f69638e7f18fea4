//! The analysis of a repository between two revisions: which files to load
//! for which revision, and what is added to the report once they are
//! loaded. Running git and reading its output is left to the caller, which
//! loads the files in the order given here.
use vstd::prelude::*;
use vstd::string::StringExecFns;
use crate::detectors::change::{file_at, find_path, has_path};
use crate::detectors::clone::{CloneDrift, CloneGroup, clone_groups_of, detect_clone_drifts, drift_view, drifts_of, drifts_view};
use crate::input::git::GitError;
use crate::input::snapshot::{ChangeKind, ChangedFile};
use crate::ir::file::FileAnalysis;
use crate::ir::model::{Evidence, EvidenceView, Finding, FindingView, Severity, SpanView, findings_view};
use crate::lang::{Language, ParseError, is_analysis_of};
use crate::order::strings_of;
use crate::report::Report;
use crate::report::findings::{RenamedFile, finding_of, member_list, member_list_of, member_spans, symbol_spans};
use crate::git_reader::{matches_filters, path_matches_filters};
use crate::text::{decimal, push_decimal, str_eq};

verus! {

/// Why an analysis failed.
#[derive(Debug, PartialEq, Eq)]
pub enum AnalysisError {
    Git(GitError),
    Parse(ParseError),
    UnsupportedLanguage { path: String },
}

impl AnalysisError {
    /// The message, as the error displays itself.
    pub fn to_string(&self) -> (res: String)
        ensures
            res@ == match self {
                AnalysisError::Git(e) => e.message@,
                AnalysisError::Parse(e) => e.message@,
                AnalysisError::UnsupportedLanguage { path } => "unsupported language for "@ + path@,
            },
    {
        match self {
            AnalysisError::Git(e) => e.message.clone(),
            AnalysisError::Parse(e) => e.message.clone(),
            AnalysisError::UnsupportedLanguage { path } => {
                let mut out = String::from_str("unsupported language for ");
                out.append(path.as_str());
                out
            },
        }
    }
}

impl From<GitError> for AnalysisError {
    fn from(value: GitError) -> (res: Self) {
        AnalysisError::Git(value)
    }
}

impl vstd::std_specs::convert::FromSpecImpl<GitError> for AnalysisError {
    open spec fn obeys_from_spec() -> bool {
        true
    }

    open spec fn from_spec(v: GitError) -> AnalysisError {
        AnalysisError::Git(v)
    }
}

impl From<ParseError> for AnalysisError {
    fn from(value: ParseError) -> (res: Self) {
        AnalysisError::Parse(value)
    }
}

impl vstd::std_specs::convert::FromSpecImpl<ParseError> for AnalysisError {
    open spec fn obeys_from_spec() -> bool {
        true
    }

    open spec fn from_spec(v: ParseError) -> AnalysisError {
        AnalysisError::Parse(v)
    }
}

/// Which revision a file is loaded from.
#[derive(Clone, Copy, Debug, PartialEq, Eq, Structural)]
pub enum Side {
    Base,
    Head,
}

/// A file to load: the revision and the path.
#[derive(Debug, PartialEq, Eq)]
pub struct Load {
    pub side: Side,
    pub path: String,
}

/// The loads that one change calls for, in order: the head file of an added
/// or copied file, the base then the head file of a modified one, the base
/// file of a deleted one, the base file (at its old path) then the head file
/// of a renamed one.
pub open spec fn loads_of(c: ChangedFile) -> Seq<(Side, Seq<char>)> {
    match c.kind {
        ChangeKind::Added => seq![(Side::Head, c.path@)],
        ChangeKind::Copied { .. } => seq![(Side::Head, c.path@)],
        ChangeKind::Modified => seq![(Side::Base, c.path@), (Side::Head, c.path@)],
        ChangeKind::Deleted => seq![(Side::Base, c.path@)],
        ChangeKind::Renamed { from } => seq![(Side::Base, from@), (Side::Head, c.path@)],
    }
}

/// The loads for the first `n` changes, in order.
pub open spec fn change_loads_of(changes: Seq<ChangedFile>, n: int) -> Seq<(Side, Seq<char>)>
    decreases n,
{
    if n <= 0 {
        Seq::empty()
    } else {
        change_loads_of(changes, n - 1) + loads_of(changes[n - 1])
    }
}

/// The loads as plain values.
pub open spec fn loads_view(v: Seq<Load>) -> Seq<(Side, Seq<char>)> {
    v.map_values(|l: Load| (l.side, l.path@))
}

/// The files to load for the changes, in the order they are loaded.
pub fn change_loads(changes: &[ChangedFile]) -> (res: Vec<Load>)
    ensures
        loads_view(res@) == change_loads_of(changes@, changes.len() as int),
{
    let mut res: Vec<Load> = Vec::new();
    let mut i: usize = 0;
    while i < changes.len()
        invariant
            i <= changes.len(),
            loads_view(res@) == change_loads_of(changes@, i as int),
        decreases changes.len() - i,
    {
        let ghost before = loads_view(res@);
        let c = &changes[i];
        match &c.kind {
            ChangeKind::Added | ChangeKind::Copied { .. } => {
                res.push(Load { side: Side::Head, path: c.path.clone() });
            },
            ChangeKind::Modified => {
                res.push(Load { side: Side::Base, path: c.path.clone() });
                res.push(Load { side: Side::Head, path: c.path.clone() });
            },
            ChangeKind::Deleted => {
                res.push(Load { side: Side::Base, path: c.path.clone() });
            },
            ChangeKind::Renamed { from } => {
                res.push(Load { side: Side::Base, path: from.clone() });
                res.push(Load { side: Side::Head, path: c.path.clone() });
            },
        }
        assert(loads_view(res@) =~= before + loads_of(changes@[i as int]));
        i = i + 1;
    }
    res
}

/// The first `n` changes whose path is within `scope`, in order.
pub open spec fn changes_in_scope_of(changes: Seq<ChangedFile>, scope: Seq<Seq<char>>, n: int) -> Seq<ChangedFile>
    decreases n,
{
    if n <= 0 {
        Seq::empty()
    } else {
        changes_in_scope_of(changes, scope, n - 1) + (if matches_filters(changes[n - 1].path@, scope) {
            seq![changes[n - 1]]
        } else {
            Seq::empty()
        })
    }
}

/// The changes whose path is within `scope` (see `path_matches_filters`;
/// an empty scope holds every path), in order.
pub fn changes_in_scope(changes: &[ChangedFile], scope: &[String]) -> (res: Vec<ChangedFile>)
    ensures
        res@ == changes_in_scope_of(changes@, strings_of(scope@), changes.len() as int),
{
    let mut res: Vec<ChangedFile> = Vec::new();
    let mut i: usize = 0;
    while i < changes.len()
        invariant
            i <= changes.len(),
            res@ == changes_in_scope_of(changes@, strings_of(scope@), i as int),
        decreases changes.len() - i,
    {
        let ghost before = res@;
        if path_matches_filters(changes[i].path.as_str(), scope) {
            res.push(changes[i].clone());
            assert(res@ =~= before.push(changes@[i as int]));
        } else {
            assert(res@ =~= before + Seq::<ChangedFile>::empty());
        }
        i = i + 1;
    }
    res
}

/// The renames among the first `n` changes, as (old path, new path).
pub open spec fn renames_of(changes: Seq<ChangedFile>, n: int) -> Seq<(Seq<char>, Seq<char>)>
    decreases n,
{
    if n <= 0 {
        Seq::empty()
    } else {
        renames_of(changes, n - 1) + match changes[n - 1].kind {
            ChangeKind::Renamed { from } => seq![(from@, changes[n - 1].path@)],
            _ => Seq::empty(),
        }
    }
}

/// The renames that the changes report, in order.
pub fn change_renames(changes: &[ChangedFile]) -> (res: Vec<RenamedFile>)
    ensures
        res@.map_values(|r: RenamedFile| (r.from@, r.to@)) == renames_of(changes@, changes.len() as int),
{
    let mut res: Vec<RenamedFile> = Vec::new();
    let mut i: usize = 0;
    while i < changes.len()
        invariant
            i <= changes.len(),
            res@.map_values(|r: RenamedFile| (r.from@, r.to@)) == renames_of(changes@, i as int),
        decreases changes.len() - i,
    {
        let ghost before = res@.map_values(|r: RenamedFile| (r.from@, r.to@));
        if let ChangeKind::Renamed { from } = &changes[i].kind {
            res.push(RenamedFile::new(from.as_str(), changes[i].path.as_str()));
            assert(res@.map_values(|r: RenamedFile| (r.from@, r.to@)) =~= before.push((from@, changes@[i as int].path@)));
        } else {
            assert(res@.map_values(|r: RenamedFile| (r.from@, r.to@)) =~= before + Seq::<(Seq<char>, Seq<char>)>::empty());
        }
        i = i + 1;
    }
    res
}

/// The first `n` listed paths within `scope` that no loaded file has, in order.
pub open spec fn unseen_of(listed: Seq<Seq<char>>, loaded: Seq<FileAnalysis>, scope: Seq<Seq<char>>, n: int) -> Seq<Seq<char>>
    decreases n,
{
    if n <= 0 {
        Seq::empty()
    } else {
        unseen_of(listed, loaded, scope, n - 1) + (if has_path(loaded, listed[n - 1]) || !matches_filters(listed[n - 1], scope) {
            Seq::empty()
        } else {
            seq![listed[n - 1]]
        })
    }
}

/// The tracked paths still to load after the changed files: those within
/// `scope` (see `path_matches_filters`) that no file loaded for the changes has.
pub fn unseen_paths(listed: &Vec<String>, loaded: &[FileAnalysis], scope: &[String]) -> (res: Vec<String>)
    ensures
        strings_of(res@) == unseen_of(strings_of(listed@), loaded@, strings_of(scope@), listed.len() as int),
{
    let ghost tv = strings_of(listed@);
    let mut res: Vec<String> = Vec::new();
    let mut i: usize = 0;
    while i < listed.len()
        invariant
            i <= listed.len(),
            tv == strings_of(listed@),
            strings_of(res@) == unseen_of(tv, loaded@, strings_of(scope@), i as int),
        decreases listed.len() - i,
    {
        let ghost before = strings_of(res@);
        assert(tv[i as int] == listed@[i as int]@);
        if find_path(loaded, listed[i].as_str()).is_none() && path_matches_filters(listed[i].as_str(), scope) {
            res.push(listed[i].clone());
            assert(strings_of(res@) =~= before.push(tv[i as int]));
        } else {
            assert(strings_of(res@) =~= before + Seq::<Seq<char>>::empty());
        }
        i = i + 1;
    }
    res
}

/// Analyses the file `path` of a revision with text `source`.
pub fn analysis_of_source(language: Language, path: &str, source: &str) -> (res: Result<FileAnalysis, AnalysisError>)
    ensures
        res is Ok,
        res matches Ok(a) ==> a.path@ == path@ && a.language == language,
        res matches Ok(a) ==> is_analysis_of(language, a, path, source),
{
    match language.parse(path, source) {
        Ok(a) => Ok(a),
        Err(e) => Err(AnalysisError::Parse(e)),
    }
}

/// The finding for a clone group that drifted.
pub open spec fn clone_drift_finding_of(members: Seq<Seq<char>>, changed: Seq<Seq<char>>, head: Seq<FileAnalysis>) -> FindingView {
    let m = member_list_of(members);
    let c = member_list_of(changed);
    finding_of("clone.drift"@, Severity::Medium, 97, 0, "Clone drift detected"@,
        "Clone group drifted across "@ + m + "; changed members: "@ + c,
        EvidenceView { message: "clone drift: "@ + m + "; changed members: "@ + c, spans: member_spans(head, changed, changed.len() as int) })
}

/// The sentence added to a summary for `n` drifted groups.
pub open spec fn drift_sentence(n: nat) -> Seq<char> {
    if n == 0 {
        Seq::empty()
    } else {
        " Also detected "@ + decimal(n) + " clone drift group"@ + (if n == 1 { ""@ } else { "s"@ }) + "."@
    }
}

/// The finding for a clone drift.
pub fn clone_drift_finding(drift: &CloneDrift, head: &[FileAnalysis]) -> (res: Finding)
    ensures
        res@ == clone_drift_finding_of(strings_of(drift.members@), strings_of(drift.changed_members@), head@),
{
    let ghost changed = strings_of(drift.changed_members@);
    let members = member_list(&drift.members);
    let changed_list = member_list(&drift.changed_members);
    let mut message = String::from_str("clone drift: ");
    message.append(members.as_str());
    message.append("; changed members: ");
    message.append(changed_list.as_str());
    let mut evidence = Evidence::new(message);
    assert(evidence@.spans =~= member_spans(head@, changed, 0));
    let mut i: usize = 0;
    while i < drift.changed_members.len()
        invariant
            i <= drift.changed_members.len(),
            changed == strings_of(drift.changed_members@),
            evidence@.message == "clone drift: "@ + members@ + "; changed members: "@ + changed_list@,
            evidence@.spans == member_spans(head@, changed, i as int),
        decreases drift.changed_members.len() - i,
    {
        assert(changed[i as int] == drift.changed_members@[i as int]@);
        let ghost before = evidence@;
        match find_path(head, drift.changed_members[i].as_str()) {
            Some(h) => {
                let syms = &head[h].symbols;
                let mut j: usize = 0;
                while j < syms.len()
                    invariant
                        j <= syms.len(),
                        evidence@.message == before.message,
                        evidence@.spans == before.spans + symbol_spans(syms@).take(j as int),
                    decreases syms.len() - j,
                {
                    let ghost b = evidence@.spans;
                    evidence = evidence.with_span(syms[j].span.clone());
                    assert(symbol_spans(syms@).take(j + 1) =~= symbol_spans(syms@).take(j as int).push(syms@[j as int].span@));
                    assert(evidence@.spans =~= b.push(syms@[j as int].span@));
                    j = j + 1;
                }
                assert(symbol_spans(syms@).take(syms.len() as int) =~= symbol_spans(syms@));
            },
            None => {
                assert(evidence@.spans =~= before.spans + Seq::<SpanView>::empty());
            },
        }
        i = i + 1;
    }
    let mut detail = String::from_str("Clone group drifted across ");
    detail.append(members.as_str());
    detail.append("; changed members: ");
    detail.append(changed_list.as_str());
    let res = Finding::new("clone.drift", Severity::Medium, 97, String::from_str("Clone drift detected"), detail)
        .with_evidence(evidence);
    assert(res@.evidence =~= seq![evidence@]);
    res
}

/// The drift findings for drifts given as plain values.
pub open spec fn drift_findings(drifts: Seq<(u64, Seq<Seq<char>>, Seq<Seq<char>>)>, head: Seq<FileAnalysis>) -> Seq<FindingView> {
    drifts.map_values(|d: (u64, Seq<Seq<char>>, Seq<Seq<char>>)| clone_drift_finding_of(d.1, d.2, head))
}

/// `res` is `report` with the drifts from `base` to `head` added: for some
/// list of the base's clone groups, a finding for each drift after the
/// report's findings, and the drift sentence after its summary.
pub open spec fn drifts_added(res: Report, report: Report, base: Seq<FileAnalysis>, head: Seq<FileAnalysis>) -> bool {
    exists|groups: Seq<CloneGroup>| #![trigger clone_groups_of(groups, base, false)] {
        let drifts = drifts_of(head, groups, groups.len() as int);
        &&& clone_groups_of(groups, base, false)
        &&& findings_view(res.findings@) == findings_view(report.findings@) + drift_findings(drifts, head)
        &&& res.summary@ == report.summary@ + drift_sentence(drifts.len())
    }
}

/// The analysis adds to the report's findings exactly the drift findings,
/// and to its summary the drift sentence, for the drifts of any list of the
/// base's clone groups: which list does not matter.
pub proof fn lemma_drifts_added(res: Report, report: Report, base: Seq<FileAnalysis>, head: Seq<FileAnalysis>, groups: Seq<CloneGroup>)
    requires
        drifts_added(res, report, base, head),
        clone_groups_of(groups, base, false),
    ensures
        findings_view(res.findings@) == findings_view(report.findings@)
            + drift_findings(drifts_of(head, groups, groups.len() as int), head),
        res.summary@ == report.summary@ + drift_sentence(drifts_of(head, groups, groups.len() as int).len()),
{
    let other = choose|g: Seq<CloneGroup>| #![trigger clone_groups_of(g, base, false)] {
        let drifts = drifts_of(head, g, g.len() as int);
        &&& clone_groups_of(g, base, false)
        &&& findings_view(res.findings@) == findings_view(report.findings@) + drift_findings(drifts, head)
        &&& res.summary@ == report.summary@ + drift_sentence(drifts.len())
    };
    crate::detectors::clone::lemma_drifts_determined(base, head, other, groups);
}

/// The report with the clone drifts from `base` to `head` added: a finding
/// for each (in the order of the base clone groups) and, when there are
/// any, a sentence at the end of the summary. All else is unchanged.
pub fn add_clone_drifts(report: Report, base: &[FileAnalysis], head: &[FileAnalysis]) -> (res: Report)
    ensures
        res.base_ref == report.base_ref,
        res.head_ref == report.head_ref,
        res.base_files == report.base_files,
        res.head_files == report.head_files,
        res.base_components == report.base_components,
        res.head_components == report.head_components,
        res.change_set == report.change_set,
        res.clone_groups == report.clone_groups,
        res.symbol_changes == report.symbol_changes,
        res.api_changes == report.api_changes,
        res.renames == report.renames,
        drifts_added(res, report, base@, head@),
{
    let drifts = detect_clone_drifts(base, head);
    let ghost dv = drifts_view(drifts@);
    let Report {
        base_ref, head_ref, base_files, head_files, base_components, head_components, summary,
        change_set, clone_groups, symbol_changes, api_changes, renames, findings,
    } = report;
    let mut findings = findings;
    let mut summary = summary;
    let ghost start = findings_view(findings@);
    let mut i: usize = 0;
    while i < drifts.len()
        invariant
            i <= drifts.len(),
            dv == drifts_view(drifts@),
            findings_view(findings@) == start + drift_findings(dv, head@).take(i as int),
        decreases drifts.len() - i,
    {
        let f = clone_drift_finding(&drifts[i], head);
        assert(drift_findings(dv, head@)[i as int] == f@);
        let ghost before = findings_view(findings@);
        findings.push(f);
        assert(findings_view(findings@) =~= before.push(f@));
        assert(drift_findings(dv, head@).take(i + 1) =~= drift_findings(dv, head@).take(i as int).push(f@));
        i = i + 1;
    }
    assert(drift_findings(dv, head@).take(drifts.len() as int) =~= drift_findings(dv, head@));
    let ghost old_summary = summary@;
    if drifts.len() > 0 {
        summary.append(" Also detected ");
        push_decimal(&mut summary, drifts.len() as u64);
        summary.append(" clone drift group");
        if drifts.len() != 1 {
            summary.append("s");
        }
        summary.append(".");
        proof { reveal_strlit(""); }
        assert(summary@ =~= old_summary + drift_sentence(dv.len()));
    } else {
        assert(summary@ =~= old_summary + drift_sentence(dv.len()));
    }
    Report {
        base_ref, head_ref, base_files, head_files, base_components, head_components, summary,
        change_set, clone_groups, symbol_changes, api_changes, renames, findings,
    }
}

} // verus!
