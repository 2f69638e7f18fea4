use structix_tools::detectors::change::diff_files;
use structix_tools::detectors::clone::{detect_clone_drifts, detect_clone_groups, detect_exact_clone_groups};
use structix_tools::detectors::symbol::{detect_symbol_changes, detect_symbol_changes_with_renames};
use structix_tools::ir::file::FileAnalysis;
use structix_tools::ir::model::{SourceSpan, Symbol, SymbolChangeKind, SymbolKind};
use structix_tools::lang::Language;

fn file(path: &str, lexical: Option<u64>, token: Option<u64>, ast: Option<u64>) -> FileAnalysis {
    let mut f = FileAnalysis::new(path.to_string(), Language::TypeScript);
    f.lexical_hash = lexical;
    f.token_hash = token;
    f.ast_hash = ast;
    f
}

fn symbol(file: &str, name: &str, signature: Option<&str>, exported: bool) -> Symbol {
    let span = SourceSpan::new(file, 1, 1, 2, 1);
    let mut s = Symbol::new(format!("{file}#{name}"), name.to_string(), SymbolKind::Function, file.to_string(), span);
    if let Some(sig) = signature {
        s = s.with_signature(sig.to_string());
    }
    s.exported(exported)
}

fn paths(v: &[structix_tools::detectors::change::FileChange]) -> Vec<String> {
    v.iter().map(|c| c.path.clone()).collect()
}

#[test]
fn diff_files_sorts_and_classifies_paths() {
    let base = vec![
        file("b.ts", Some(1), Some(1), Some(1)),
        file("a.ts", Some(2), Some(2), Some(2)),
        file("gone.ts", Some(3), Some(3), Some(3)),
    ];
    let head = vec![
        file("z.ts", Some(9), Some(9), Some(9)),
        file("b.ts", Some(1), Some(1), Some(1)),
        file("a.ts", Some(2), Some(5), Some(2)),
        file("new.ts", Some(4), Some(4), Some(4)),
    ];
    let set = diff_files(&base, &head);
    assert_eq!(paths(&set.added), vec!["new.ts", "z.ts"]);
    assert_eq!(paths(&set.removed), vec!["gone.ts"]);
    assert_eq!(paths(&set.modified), vec!["a.ts"]);
}

#[test]
fn diff_files_of_a_revision_with_itself_is_empty() {
    let files = vec![file("a.ts", Some(1), None, Some(2)), file("b.ts", None, None, None)];
    let set = diff_files(&files, &files);
    assert!(set.added.is_empty() && set.removed.is_empty() && set.modified.is_empty());
}

#[test]
fn diff_files_uses_the_last_file_of_a_path() {
    let base = vec![file("a.ts", Some(1), Some(1), Some(1))];
    let head = vec![file("a.ts", Some(2), Some(2), Some(2)), file("a.ts", Some(1), Some(1), Some(1))];
    let set = diff_files(&base, &head);
    assert!(set.modified.is_empty());
}

#[test]
fn clone_groups_by_token_fingerprint_in_increasing_order() {
    let files = vec![
        file("a.ts", Some(1), Some(20), None),
        file("b.ts", Some(2), Some(10), None),
        file("c.ts", Some(3), Some(20), None),
        file("d.ts", Some(4), Some(10), None),
        file("e.ts", Some(5), Some(30), None),
        file("f.ts", Some(6), None, None),
    ];
    let groups = detect_clone_groups(&files);
    assert_eq!(groups.len(), 2);
    assert_eq!(groups[0].fingerprint, 10);
    assert_eq!(groups[0].members, vec!["b.ts", "d.ts"]);
    assert_eq!(groups[1].fingerprint, 20);
    assert_eq!(groups[1].members, vec!["a.ts", "c.ts"]);
}

#[test]
fn exact_clone_groups_use_the_lexical_fingerprint() {
    let files = vec![
        file("a.ts", Some(7), Some(1), None),
        file("b.ts", Some(7), Some(2), None),
        file("c.ts", Some(8), Some(1), None),
    ];
    let groups = detect_exact_clone_groups(&files);
    assert_eq!(groups.len(), 1);
    assert_eq!(groups[0].fingerprint, 7);
    assert_eq!(groups[0].members, vec!["a.ts", "b.ts"]);
}

#[test]
fn clone_drift_reports_members_that_changed() {
    let base = vec![file("a.ts", None, Some(5), None), file("b.ts", None, Some(5), None)];
    let head = vec![file("a.ts", None, Some(5), None), file("b.ts", None, Some(6), None)];
    let drifts = detect_clone_drifts(&base, &head);
    assert_eq!(drifts.len(), 1);
    assert_eq!(drifts[0].fingerprint, 5);
    assert_eq!(drifts[0].members, vec!["a.ts", "b.ts"]);
    assert_eq!(drifts[0].changed_members, vec!["b.ts"]);
}

#[test]
fn clone_drift_needs_uneven_change() {
    let base = vec![file("a.ts", None, Some(5), None), file("b.ts", None, Some(5), None)];
    let both_changed = vec![file("a.ts", None, Some(6), None), file("b.ts", None, Some(6), None)];
    assert!(detect_clone_drifts(&base, &both_changed).is_empty());
    assert!(detect_clone_drifts(&base, &base).is_empty());
}

#[test]
fn symbol_changes_added_removed_modified() {
    let mut base_file = file("a.ts", None, None, None);
    base_file.symbols = vec![symbol("a.ts", "keep", Some("keep()"), true), symbol("a.ts", "old", None, false)];
    let mut head_file = file("a.ts", None, None, None);
    head_file.symbols = vec![symbol("a.ts", "keep", Some("keep(x)"), false), symbol("a.ts", "fresh", None, true)];
    let changes = detect_symbol_changes(&[base_file], &[head_file]);
    let summary: Vec<(String, SymbolChangeKind, bool)> =
        changes.iter().map(|c| (c.name.clone(), c.kind, c.exported)).collect();
    assert_eq!(summary, vec![
        ("fresh".to_string(), SymbolChangeKind::Added, true),
        ("keep".to_string(), SymbolChangeKind::Modified, true),
        ("old".to_string(), SymbolChangeKind::Removed, false),
    ]);
    assert_eq!(changes[1].before_signature.as_deref(), Some("keep()"));
    assert_eq!(changes[1].after_signature.as_deref(), Some("keep(x)"));
}

#[test]
fn symbol_changes_of_whole_files() {
    let mut gone = file("gone.ts", None, None, None);
    gone.symbols = vec![symbol("gone.ts", "g", None, false)];
    let mut added = file("added.ts", None, None, None);
    added.symbols = vec![symbol("added.ts", "n", None, true)];
    let changes = detect_symbol_changes(&[gone], &[added]);
    assert_eq!(changes.len(), 2);
    assert_eq!(changes[0].kind, SymbolChangeKind::Added);
    assert_eq!(changes[0].file, "added.ts");
    assert_eq!(changes[1].kind, SymbolChangeKind::Removed);
    assert_eq!(changes[1].file, "gone.ts");
}

#[test]
fn symbol_changes_follow_rename_pairs() {
    let mut old = file("old.ts", None, None, None);
    old.symbols = vec![symbol("old.ts", "f", Some("f()"), false)];
    let mut new = file("new.ts", None, None, None);
    new.symbols = vec![symbol("new.ts", "f", Some("f()"), false)];
    let changes = detect_symbol_changes_with_renames(&[old], &[new], &[("new.ts", "old.ts")]);
    assert!(changes.is_empty());
}

#[test]
fn symbol_changes_of_a_revision_with_itself_are_empty() {
    let mut f = file("a.ts", None, None, None);
    f.symbols = vec![symbol("a.ts", "x", Some("x()"), true)];
    let files = vec![f];
    assert!(detect_symbol_changes(&files, &files).is_empty());
}

#[test]
fn diff_files_the_other_way_swaps_added_and_removed() {
    let base = vec![file("a.ts", Some(1), Some(1), Some(1)), file("gone.ts", Some(3), Some(3), Some(3))];
    let head = vec![file("a.ts", Some(2), Some(1), Some(1)), file("new.ts", Some(4), Some(4), Some(4))];
    let forward = diff_files(&base, &head);
    let backward = diff_files(&head, &base);
    assert_eq!(paths(&forward.added), paths(&backward.removed));
    assert_eq!(paths(&forward.removed), paths(&backward.added));
    assert_eq!(paths(&forward.modified), paths(&backward.modified));
}
