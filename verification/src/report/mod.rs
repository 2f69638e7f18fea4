//! The change report: what changed between two revisions, with findings,
//! a summary and Markdown renderings.
pub mod findings;
pub mod summary;
pub mod render;
pub mod html;

use vstd::prelude::*;
use vstd::string::StringExecFns;
use crate::architecture::{ComponentSummary, component_summaries, summaries_of};
use crate::detectors::change::{
    ChangeSet, FileChange, change_paths, diff_files, file_at, find_path, has_path, is_added,
    is_modified, is_removed,
};
use crate::detectors::clone::{CloneGroup, clone_groups_of, detect_exact_clone_groups};
use crate::detectors::symbol::{detect_symbol_changes_with_renames, pairs_view, symbol_changes_of};
use crate::ir::file::FileAnalysis;
use crate::ir::model::{Finding, FindingView, SymbolChange, SymbolChangeView, findings_view, symbol_changes_view};
use crate::order::{strictly_sorted, strings_of};
use crate::report::findings::{
    RenamedFile, added_file_finding, added_file_finding_of, api_change_detail, api_change_detail_of,
    api_change_finding, api_change_finding_of, api_change_title, api_change_title_of,
    clone_group_finding, clone_group_finding_of, modified_file_finding, modified_file_finding_of,
    removed_file_finding, removed_file_finding_of, rename_file_finding, rename_finding_of,
    symbol_change_detail, symbol_change_detail_of, symbol_change_finding, symbol_change_finding_of,
    symbol_change_title, symbol_change_title_of,
};
use crate::report::summary::{summarize, summary_of};
use crate::text::{decimal, push_decimal, str_eq};

verus! {

/// What changed between two revisions, and what it means.
#[derive(Debug)]
pub struct Report {
    pub base_ref: String,
    pub head_ref: String,
    pub base_files: Vec<FileAnalysis>,
    pub head_files: Vec<FileAnalysis>,
    pub base_components: Vec<ComponentSummary>,
    pub head_components: Vec<ComponentSummary>,
    pub summary: String,
    pub change_set: ChangeSet,
    pub clone_groups: Vec<CloneGroup>,
    pub symbol_changes: Vec<SymbolChange>,
    pub api_changes: Vec<SymbolChange>,
    pub renames: Vec<RenamedFile>,
    pub findings: Vec<Finding>,
}

/// Two analyses that agree in every field.
pub open spec fn same_analysis(a: FileAnalysis, b: FileAnalysis) -> bool {
    &&& a.path == b.path
    &&& a.language == b.language
    &&& a.symbols@ == b.symbols@
    &&& a.references@ == b.references@
    &&& a.metrics == b.metrics
    &&& a.lexical_hash == b.lexical_hash
    &&& a.token_hash == b.token_hash
    &&& a.ast_hash == b.ast_hash
}

/// `a` is a copy of `b`, analysis by analysis.
pub open spec fn copies_of(a: Seq<FileAnalysis>, b: Seq<FileAnalysis>) -> bool {
    a.len() == b.len() && forall|i: int| 0 <= i < a.len() ==> same_analysis(#[trigger] a[i], b[i])
}

fn copy_files(files: &[FileAnalysis]) -> (res: Vec<FileAnalysis>)
    ensures
        copies_of(res@, files@),
{
    let mut res: Vec<FileAnalysis> = Vec::new();
    let mut i: usize = 0;
    while i < files.len()
        invariant
            i <= files.len(),
            res.len() == i,
            forall|j: int| 0 <= j < i ==> same_analysis(#[trigger] res@[j], files@[j]),
        decreases files.len() - i,
    {
        res.push(files[i].clone());
        i = i + 1;
    }
    res
}

/// Some rename has `p` as its new path.
pub open spec fn renamed_to(renames: Seq<RenamedFile>, p: Seq<char>) -> bool {
    exists|k: int| 0 <= k < renames.len() && (#[trigger] renames[k]).to@ == p
}

/// Some rename has `p` as its old path.
pub open spec fn renamed_from(renames: Seq<RenamedFile>, p: Seq<char>) -> bool {
    exists|k: int| 0 <= k < renames.len() && (#[trigger] renames[k]).from@ == p
}

/// The changes of exported symbols, in order.
pub open spec fn exported_changes(cs: Seq<SymbolChangeView>, n: int) -> Seq<SymbolChangeView>
    decreases n,
{
    if n <= 0 {
        Seq::empty()
    } else {
        exported_changes(cs, n - 1) + (if cs[n - 1].exported { seq![cs[n - 1]] } else { Seq::empty() })
    }
}

/// The findings for the first `n` paths that the head has: modified or added files.
pub open spec fn file_findings(paths: Seq<Seq<char>>, head: Seq<FileAnalysis>, modified: bool, n: int) -> Seq<FindingView>
    decreases n,
{
    if n <= 0 {
        Seq::empty()
    } else {
        let p = paths[n - 1];
        file_findings(paths, head, modified, n - 1) + (if has_path(head, p) {
            seq![if modified { modified_file_finding_of(p, file_at(head, p)) } else { added_file_finding_of(p, file_at(head, p)) }]
        } else {
            Seq::empty()
        })
    }
}

/// The findings of a report, in the order it lists them: modified, added
/// and removed files, exact clone groups of the head, renames, symbol
/// changes, then API changes.
pub open spec fn report_findings(
    change_set: ChangeSet,
    clone_groups: Seq<CloneGroup>,
    renames: Seq<RenamedFile>,
    symbol_changes: Seq<SymbolChangeView>,
    api_changes: Seq<SymbolChangeView>,
    base: Seq<FileAnalysis>,
    head: Seq<FileAnalysis>,
) -> Seq<FindingView> {
    let modified = change_paths(change_set.modified@);
    let added = change_paths(change_set.added@);
    let removed = change_paths(change_set.removed@);
    file_findings(modified, head, true, modified.len() as int)
        + file_findings(added, head, false, added.len() as int)
        + removed.map_values(|p: Seq<char>| removed_file_finding_of(p))
        + clone_groups.map_values(|g: CloneGroup| clone_group_finding_of(strings_of(g.members@), head))
        + renames.map_values(|r: RenamedFile| rename_finding_of(r.from@, r.to@, base, head))
        + symbol_changes.map_values(|c: SymbolChangeView| symbol_change_finding_of(c))
        + api_changes.map_values(|c: SymbolChangeView| api_change_finding_of(c))
}

/// `res` is the report of `base` against `head` with the given renames.
pub open spec fn is_report(
    res: Report,
    base_ref: Seq<char>,
    head_ref: Seq<char>,
    base: Seq<FileAnalysis>,
    head: Seq<FileAnalysis>,
    renames: Seq<RenamedFile>,
) -> bool {
    let symbols = symbol_changes_view(res.symbol_changes@);
    let apis = symbol_changes_view(res.api_changes@);
    &&& res.base_ref@ == base_ref
    &&& res.head_ref@ == head_ref
    &&& copies_of(res.base_files@, base)
    &&& copies_of(res.head_files@, head)
    &&& summaries_of(res.base_components@, base)
    &&& summaries_of(res.head_components@, head)
    &&& strictly_sorted(change_paths(res.change_set.added@))
    &&& strictly_sorted(change_paths(res.change_set.removed@))
    &&& strictly_sorted(change_paths(res.change_set.modified@))
    &&& forall|p: Seq<char>| #[trigger] change_paths(res.change_set.added@).contains(p)
        <==> is_added(base, head, p) && !renamed_to(renames, p)
    &&& forall|p: Seq<char>| #[trigger] change_paths(res.change_set.removed@).contains(p)
        <==> is_removed(base, head, p) && !renamed_from(renames, p)
    &&& forall|p: Seq<char>| #[trigger] change_paths(res.change_set.modified@).contains(p) <==> is_modified(base, head, p)
    &&& clone_groups_of(res.clone_groups@, head, true)
    &&& symbols == symbol_changes_of(base, head, renames.map_values(|r: RenamedFile| (r.from@, r.to@)))
    &&& apis == exported_changes(symbols, symbols.len() as int)
    &&& res.renames@ == renames
    &&& findings_view(res.findings@) == report_findings(res.change_set, res.clone_groups@, renames, symbols, apis, base, head)
    &&& res.summary@ == summary_of(res.change_set.added.len() as nat, res.change_set.modified.len() as nat,
            res.change_set.removed.len() as nat, renames.len() as nat, res.clone_groups.len() as nat,
            symbols.len() as nat, apis.len() as nat)
}

fn is_rename_target(renames: &[RenamedFile], p: &str) -> (res: bool)
    ensures
        res == renamed_to(renames@, p@),
{
    let mut k: usize = 0;
    while k < renames.len()
        invariant
            k <= renames.len(),
            forall|m: int| 0 <= m < k ==> (#[trigger] renames@[m]).to@ != p@,
        decreases renames.len() - k,
    {
        if str_eq(renames[k].to.as_str(), p) {
            return true;
        }
        k = k + 1;
    }
    false
}

fn is_rename_source(renames: &[RenamedFile], p: &str) -> (res: bool)
    ensures
        res == renamed_from(renames@, p@),
{
    let mut k: usize = 0;
    while k < renames.len()
        invariant
            k <= renames.len(),
            forall|m: int| 0 <= m < k ==> (#[trigger] renames@[m]).from@ != p@,
        decreases renames.len() - k,
    {
        if str_eq(renames[k].from.as_str(), p) {
            return true;
        }
        k = k + 1;
    }
    false
}

/// The changes whose path is not left out by `drop_targets` (new paths of
/// renames) or else by old paths of renames.
fn retain_unrenamed(changes: Vec<FileChange>, renames: &[RenamedFile], targets: bool) -> (res: Vec<FileChange>)
    requires
        strictly_sorted(change_paths(changes@)),
    ensures
        strictly_sorted(change_paths(res@)),
        forall|p: Seq<char>| #[trigger] change_paths(res@).contains(p) <==> change_paths(changes@).contains(p)
            && !(if targets { renamed_to(renames@, p) } else { renamed_from(renames@, p) }),
{
    let ghost all = change_paths(changes@);
    let mut res: Vec<FileChange> = Vec::new();
    let ghost mut kept: Seq<int> = Seq::empty();
    let mut i: usize = 0;
    while i < changes.len()
        invariant
            i <= changes.len(),
            all == change_paths(changes@),
            strictly_sorted(all),
            res.len() == kept.len(),
            forall|a: int| 0 <= a < kept.len() ==> 0 <= #[trigger] kept[a] < i && change_paths(res@)[a] == all[kept[a]],
            forall|a: int, b: int| 0 <= a < b < kept.len() ==> #[trigger] kept[a] < #[trigger] kept[b],
            forall|p: Seq<char>| #[trigger] change_paths(res@).contains(p) <==> all.take(i as int).contains(p)
                && !(if targets { renamed_to(renames@, p) } else { renamed_from(renames@, p) }),
        decreases changes.len() - i,
    {
        let p = changes[i].path.as_str();
        assert(all[i as int] == p@);
        let drop = if targets { is_rename_target(renames, p) } else { is_rename_source(renames, p) };
        let ghost before = change_paths(res@);
        if !drop {
            res.push(changes[i].clone());
            proof { kept = kept.push(i as int); }
            assert(change_paths(res@) =~= before.push(p@));
        } else {
            assert(change_paths(res@) =~= before);
        }
        assert forall|q: Seq<char>| #[trigger] change_paths(res@).contains(q) <==> all.take(i + 1).contains(q)
            && !(if targets { renamed_to(renames@, q) } else { renamed_from(renames@, q) }) by {
            assert(all.take(i + 1) =~= all.take(i as int).push(p@));
            crate::detectors::symbol::lemma_contains_push(all.take(i as int), p@, q);
            if !drop {
                crate::detectors::symbol::lemma_contains_push(before, p@, q);
            }
        }
        i = i + 1;
    }
    assert(all.take(changes.len() as int) =~= all);
    assert(strictly_sorted(change_paths(res@))) by {
        assert forall|a: int, b: int| 0 <= a < b < change_paths(res@).len() implies
            crate::order::lex_lt(#[trigger] change_paths(res@)[a], #[trigger] change_paths(res@)[b]) by {
            assert(kept[a] < kept[b]);
        }
    }
    res
}

fn exported_of(changes: &Vec<SymbolChange>) -> (res: Vec<SymbolChange>)
    ensures
        symbol_changes_view(res@) == exported_changes(symbol_changes_view(changes@), changes.len() as int),
{
    let ghost all = symbol_changes_view(changes@);
    let mut res: Vec<SymbolChange> = Vec::new();
    let mut i: usize = 0;
    while i < changes.len()
        invariant
            i <= changes.len(),
            all == symbol_changes_view(changes@),
            symbol_changes_view(res@) == exported_changes(all, i as int),
        decreases changes.len() - i,
    {
        let ghost before = symbol_changes_view(res@);
        assert(all[i as int] == changes@[i as int]@);
        if changes[i].exported {
            res.push(changes[i].clone());
            assert(symbol_changes_view(res@) =~= before.push(all[i as int]));
        } else {
            assert(symbol_changes_view(res@) =~= before + Seq::<SymbolChangeView>::empty());
        }
        i = i + 1;
    }
    res
}

fn push_file_findings(findings: &mut Vec<Finding>, changes: &Vec<FileChange>, head: &[FileAnalysis], modified: bool)
    ensures
        findings_view(final(findings)@) == findings_view(old(findings)@)
            + file_findings(change_paths(changes@), head@, modified, changes.len() as int),
{
    let ghost start = findings_view(findings@);
    let ghost paths = change_paths(changes@);
    let mut i: usize = 0;
    while i < changes.len()
        invariant
            i <= changes.len(),
            paths == change_paths(changes@),
            findings_view(findings@) == start + file_findings(paths, head@, modified, i as int),
        decreases changes.len() - i,
    {
        let ghost before = findings_view(findings@);
        let p = changes[i].path.as_str();
        assert(paths[i as int] == p@);
        match find_path(head, p) {
            Some(h) => {
                let f = if modified { modified_file_finding(p, &head[h]) } else { added_file_finding(p, &head[h]) };
                findings.push(f);
                assert(findings_view(findings@) =~= before.push(f@));
            },
            None => {
                assert(findings_view(findings@) =~= before + Seq::<FindingView>::empty());
            },
        }
        i = i + 1;
    }
}

/// The report of `base` against `head`, the revisions named `base_ref` and
/// `head_ref`, with the given renames (see `is_report`).
pub fn build_report_with_context(
    base_ref: &str,
    head_ref: &str,
    base: &[FileAnalysis],
    head: &[FileAnalysis],
    renames: &[RenamedFile],
) -> (res: Report)
    ensures
        is_report(res, base_ref@, head_ref@, base@, head@, renames@),
{
    let diff = diff_files(base, head);
    let clone_groups = detect_exact_clone_groups(head);
    let mut rename_pairs: Vec<(&str, &str)> = Vec::new();
    let mut k: usize = 0;
    while k < renames.len()
        invariant
            k <= renames.len(),
            rename_pairs.len() == k,
            pairs_view(rename_pairs@) == renames@.map_values(|r: RenamedFile| (r.from@, r.to@)).take(k as int),
        decreases renames.len() - k,
    {
        rename_pairs.push((renames[k].from.as_str(), renames[k].to.as_str()));
        assert(pairs_view(rename_pairs@) =~= renames@.map_values(|r: RenamedFile| (r.from@, r.to@)).take(k + 1));
        k = k + 1;
    }
    assert(renames@.map_values(|r: RenamedFile| (r.from@, r.to@)).take(renames.len() as int)
        =~= renames@.map_values(|r: RenamedFile| (r.from@, r.to@)));
    let symbol_changes = detect_symbol_changes_with_renames(base, head, rename_pairs.as_slice());
    let api_changes = exported_of(&symbol_changes);
    let ChangeSet { added, removed, modified } = diff;
    let added = retain_unrenamed(added, renames, true);
    let removed = retain_unrenamed(removed, renames, false);
    let change_set = ChangeSet { added, removed, modified };

    let mut findings: Vec<Finding> = Vec::new();
    push_file_findings(&mut findings, &change_set.modified, head, true);
    push_file_findings(&mut findings, &change_set.added, head, false);
    let ghost removed_paths = change_paths(change_set.removed@);
    let ghost start = findings_view(findings@);
    let mut i: usize = 0;
    while i < change_set.removed.len()
        invariant
            i <= change_set.removed.len(),
            removed_paths == change_paths(change_set.removed@),
            findings_view(findings@) == start + removed_paths.map_values(|p: Seq<char>| removed_file_finding_of(p)).take(i as int),
        decreases change_set.removed.len() - i,
    {
        let f = removed_file_finding(change_set.removed[i].path.as_str());
        assert(removed_paths[i as int] == change_set.removed@[i as int].path@);
        let ghost before = findings_view(findings@);
        findings.push(f);
        assert(findings_view(findings@) =~= before.push(f@));
        assert(removed_paths.map_values(|p: Seq<char>| removed_file_finding_of(p)).take(i + 1)
            =~= removed_paths.map_values(|p: Seq<char>| removed_file_finding_of(p)).take(i as int).push(f@));
        i = i + 1;
    }
    assert(removed_paths.map_values(|p: Seq<char>| removed_file_finding_of(p)).take(change_set.removed.len() as int)
        =~= removed_paths.map_values(|p: Seq<char>| removed_file_finding_of(p)));
    let ghost start = findings_view(findings@);
    let mut i: usize = 0;
    while i < clone_groups.len()
        invariant
            i <= clone_groups.len(),
            findings_view(findings@) == start
                + clone_groups@.map_values(|g: CloneGroup| clone_group_finding_of(strings_of(g.members@), head@)).take(i as int),
        decreases clone_groups.len() - i,
    {
        let f = clone_group_finding(&clone_groups[i], head);
        let ghost before = findings_view(findings@);
        findings.push(f);
        assert(findings_view(findings@) =~= before.push(f@));
        assert(clone_groups@.map_values(|g: CloneGroup| clone_group_finding_of(strings_of(g.members@), head@)).take(i + 1)
            =~= clone_groups@.map_values(|g: CloneGroup| clone_group_finding_of(strings_of(g.members@), head@)).take(i as int).push(f@));
        i = i + 1;
    }
    assert(clone_groups@.map_values(|g: CloneGroup| clone_group_finding_of(strings_of(g.members@), head@)).take(clone_groups.len() as int)
        =~= clone_groups@.map_values(|g: CloneGroup| clone_group_finding_of(strings_of(g.members@), head@)));
    let ghost start = findings_view(findings@);
    let mut i: usize = 0;
    while i < renames.len()
        invariant
            i <= renames.len(),
            findings_view(findings@) == start
                + renames@.map_values(|r: RenamedFile| rename_finding_of(r.from@, r.to@, base@, head@)).take(i as int),
        decreases renames.len() - i,
    {
        let f = rename_file_finding(&renames[i], base, head);
        let ghost before = findings_view(findings@);
        findings.push(f);
        assert(findings_view(findings@) =~= before.push(f@));
        assert(renames@.map_values(|r: RenamedFile| rename_finding_of(r.from@, r.to@, base@, head@)).take(i + 1)
            =~= renames@.map_values(|r: RenamedFile| rename_finding_of(r.from@, r.to@, base@, head@)).take(i as int).push(f@));
        i = i + 1;
    }
    assert(renames@.map_values(|r: RenamedFile| rename_finding_of(r.from@, r.to@, base@, head@)).take(renames.len() as int)
        =~= renames@.map_values(|r: RenamedFile| rename_finding_of(r.from@, r.to@, base@, head@)));
    let ghost symbols = symbol_changes_view(symbol_changes@);
    let ghost start = findings_view(findings@);
    let mut i: usize = 0;
    while i < symbol_changes.len()
        invariant
            i <= symbol_changes.len(),
            symbols == symbol_changes_view(symbol_changes@),
            findings_view(findings@) == start + symbols.map_values(|c: SymbolChangeView| symbol_change_finding_of(c)).take(i as int),
        decreases symbol_changes.len() - i,
    {
        let f = symbol_change_finding(&symbol_changes[i]);
        let ghost before = findings_view(findings@);
        findings.push(f);
        assert(findings_view(findings@) =~= before.push(f@));
        assert(symbols.map_values(|c: SymbolChangeView| symbol_change_finding_of(c)).take(i + 1)
            =~= symbols.map_values(|c: SymbolChangeView| symbol_change_finding_of(c)).take(i as int).push(f@));
        i = i + 1;
    }
    assert(symbols.map_values(|c: SymbolChangeView| symbol_change_finding_of(c)).take(symbol_changes.len() as int)
        =~= symbols.map_values(|c: SymbolChangeView| symbol_change_finding_of(c)));
    let ghost apis = symbol_changes_view(api_changes@);
    let ghost start = findings_view(findings@);
    let mut i: usize = 0;
    while i < api_changes.len()
        invariant
            i <= api_changes.len(),
            apis == symbol_changes_view(api_changes@),
            findings_view(findings@) == start + apis.map_values(|c: SymbolChangeView| api_change_finding_of(c)).take(i as int),
        decreases api_changes.len() - i,
    {
        let f = api_change_finding(&api_changes[i]);
        let ghost before = findings_view(findings@);
        findings.push(f);
        assert(findings_view(findings@) =~= before.push(f@));
        assert(apis.map_values(|c: SymbolChangeView| api_change_finding_of(c)).take(i + 1)
            =~= apis.map_values(|c: SymbolChangeView| api_change_finding_of(c)).take(i as int).push(f@));
        i = i + 1;
    }
    assert(apis.map_values(|c: SymbolChangeView| api_change_finding_of(c)).take(api_changes.len() as int)
        =~= apis.map_values(|c: SymbolChangeView| api_change_finding_of(c)));

    let summary = summarize(&change_set, clone_groups.as_slice(), renames, symbol_changes.as_slice(), api_changes.as_slice());
    let mut renames_copy: Vec<RenamedFile> = Vec::new();
    let mut i: usize = 0;
    while i < renames.len()
        invariant
            i <= renames.len(),
            renames_copy@ == renames@.take(i as int),
        decreases renames.len() - i,
    {
        renames_copy.push(renames[i].clone());
        assert(renames_copy@ =~= renames@.take(i + 1));
        i = i + 1;
    }
    assert(renames@.take(renames.len() as int) =~= renames@);
    Report {
        base_ref: String::from_str(base_ref),
        head_ref: String::from_str(head_ref),
        base_files: copy_files(base),
        head_files: copy_files(head),
        base_components: component_summaries(base),
        head_components: component_summaries(head),
        summary,
        change_set,
        clone_groups,
        symbol_changes,
        api_changes,
        renames: renames_copy,
        findings,
    }
}

/// The report of `base` against `head`, with no refs and no renames.
pub fn build_report(base: &[FileAnalysis], head: &[FileAnalysis]) -> (res: Report)
    ensures
        is_report(res, Seq::empty(), Seq::empty(), base@, head@, Seq::empty()),
{
    let none: Vec<RenamedFile> = Vec::new();
    let res = build_report_with_context("", "", base, head, none.as_slice());
    proof { reveal_strlit(""); }
    assert(""@ =~= Seq::<char>::empty());
    assert(none@ =~= Seq::<RenamedFile>::empty());
    res
}

/// The report of `base` against `head` with the given renames and no refs.
pub fn build_report_with_renames(base: &[FileAnalysis], head: &[FileAnalysis], renames: &[RenamedFile]) -> (res: Report)
    ensures
        is_report(res, Seq::empty(), Seq::empty(), base@, head@, renames@),
{
    let res = build_report_with_context("", "", base, head, renames);
    proof { reveal_strlit(""); }
    assert(""@ =~= Seq::<char>::empty());
    res
}

/// A report of a revision (with distinct paths) against itself, with no
/// renames, lists no added, removed or modified file and no symbol or API
/// change.
pub proof fn lemma_report_of_same(res: Report, base_ref: Seq<char>, head_ref: Seq<char>, files: Seq<FileAnalysis>)
    requires
        crate::detectors::change::unique_paths(files),
        is_report(res, base_ref, head_ref, files, files, Seq::empty()),
    ensures
        res.change_set.added.len() == 0,
        res.change_set.removed.len() == 0,
        res.change_set.modified.len() == 0,
        res.symbol_changes.len() == 0,
        res.api_changes.len() == 0,
{
    crate::detectors::change::lemma_diff_files_of_same(files);
    let added = change_paths(res.change_set.added@);
    let removed = change_paths(res.change_set.removed@);
    let modified = change_paths(res.change_set.modified@);
    if added.len() > 0 {
        assert(added.contains(added[0]));
    }
    if removed.len() > 0 {
        assert(removed.contains(removed[0]));
    }
    if modified.len() > 0 {
        assert(modified.contains(modified[0]));
    }
    assert(Seq::<RenamedFile>::empty().map_values(|r: RenamedFile| (r.from@, r.to@)) =~= Seq::empty());
    crate::detectors::symbol::lemma_symbol_changes_of_same(files);
    assert(symbol_changes_view(res.symbol_changes@).len() == 0);
    assert(symbol_changes_view(res.api_changes@) == exported_changes(Seq::<SymbolChangeView>::empty(), 0));
}

/// A report's parts are what the separate detectors give: its modified
/// files are those of `diff_files`, and with no renames so are its added and
/// removed files; its clone groups are those of `detect_exact_clone_groups`;
/// its symbol changes are those of `detect_symbol_changes_with_renames`; its
/// component summaries are those of `component_summaries`.
pub proof fn lemma_report_parts(
    r: Report,
    base_ref: Seq<char>,
    head_ref: Seq<char>,
    base: Seq<FileAnalysis>,
    head: Seq<FileAnalysis>,
    renames: Seq<RenamedFile>,
    diff: ChangeSet,
    groups: Seq<CloneGroup>,
    base_summaries: Seq<ComponentSummary>,
    head_summaries: Seq<ComponentSummary>,
)
    requires
        is_report(r, base_ref, head_ref, base, head, renames),
        strictly_sorted(change_paths(diff.added@)),
        strictly_sorted(change_paths(diff.removed@)),
        strictly_sorted(change_paths(diff.modified@)),
        forall|p: Seq<char>| change_paths(diff.added@).contains(p) <==> is_added(base, head, p),
        forall|p: Seq<char>| change_paths(diff.removed@).contains(p) <==> is_removed(base, head, p),
        forall|p: Seq<char>| change_paths(diff.modified@).contains(p) <==> is_modified(base, head, p),
        clone_groups_of(groups, head, true),
        summaries_of(base_summaries, base),
        summaries_of(head_summaries, head),
    ensures
        change_paths(r.change_set.modified@) == change_paths(diff.modified@),
        renames.len() == 0 ==> change_paths(r.change_set.added@) == change_paths(diff.added@),
        renames.len() == 0 ==> change_paths(r.change_set.removed@) == change_paths(diff.removed@),
        r.clone_groups@.len() == groups.len(),
        forall|k: int| 0 <= k < groups.len() ==> (#[trigger] groups[k]).fingerprint == r.clone_groups@[k].fingerprint
            && strings_of(groups[k].members@) == strings_of(r.clone_groups@[k].members@),
        symbol_changes_view(r.symbol_changes@)
            == symbol_changes_of(base, head, renames.map_values(|x: RenamedFile| (x.from@, x.to@))),
        r.base_components@.len() == base_summaries.len(),
        forall|k: int| 0 <= k < base_summaries.len() ==> (#[trigger] base_summaries[k]).id@ == r.base_components@[k].id@
            && base_summaries[k].label@ == r.base_components@[k].label@
            && base_summaries[k].file_count == r.base_components@[k].file_count
            && strings_of(base_summaries[k].files@) == strings_of(r.base_components@[k].files@),
        r.head_components@.len() == head_summaries.len(),
        forall|k: int| 0 <= k < head_summaries.len() ==> (#[trigger] head_summaries[k]).id@ == r.head_components@[k].id@
            && head_summaries[k].label@ == r.head_components@[k].label@
            && head_summaries[k].file_count == r.head_components@[k].file_count
            && strings_of(head_summaries[k].files@) == strings_of(r.head_components@[k].files@),
{
    crate::architecture::lemma_summaries_unique(r.base_components@, base_summaries, base);
    crate::architecture::lemma_summaries_unique(r.head_components@, head_summaries, head);
    crate::order::lemma_strictly_sorted_unique(change_paths(r.change_set.modified@), change_paths(diff.modified@));
    if renames.len() == 0 {
        crate::order::lemma_strictly_sorted_unique(change_paths(r.change_set.added@), change_paths(diff.added@));
        crate::order::lemma_strictly_sorted_unique(change_paths(r.change_set.removed@), change_paths(diff.removed@));
    }
    crate::detectors::clone::lemma_clone_groups_unique(r.clone_groups@, groups, head, true);
}

} // verus!
