use structix_tools::analysis::{add_clone_drifts, change_loads, change_renames, changes_in_scope, unseen_paths, AnalysisError, Side};
use structix_tools::input::git::GitError;
use structix_tools::input::snapshot::{ChangeKind, ChangedFile};
use structix_tools::ir::file::FileAnalysis;
use structix_tools::ir::model::{Severity, SourceSpan, Symbol, SymbolKind};
use structix_tools::lang::{Language, ParseError};
use structix_tools::report::findings::RenamedFile;
use structix_tools::report::html::html_page;
use structix_tools::report::{build_report, build_report_with_context, build_report_with_renames};

fn file(path: &str, lexical: Option<u64>, token: Option<u64>, symbols: Vec<Symbol>) -> FileAnalysis {
    let mut f = FileAnalysis::new(path.to_string(), Language::TypeScript);
    f.lexical_hash = lexical;
    f.token_hash = token;
    f.ast_hash = lexical;
    f.symbols = symbols;
    f
}

fn symbol(file: &str, name: &str, signature: &str, exported: bool) -> Symbol {
    let span = SourceSpan::new(file, 2, 1, 4, 2);
    Symbol::new(format!("{file}#{name}"), name.to_string(), SymbolKind::Function, file.to_string(), span)
        .with_signature(signature.to_string())
        .exported(exported)
}

fn sample() -> (Vec<FileAnalysis>, Vec<FileAnalysis>) {
    let base = vec![
        file("src/app.ts", Some(1), Some(1), vec![symbol("src/app.ts", "greet", "greet(a)", true)]),
        file("src/copy.ts", Some(2), Some(2), vec![symbol("src/copy.ts", "greet", "greet(b)", true)]),
    ];
    let head = vec![
        file("src/app.ts", Some(2), Some(2), vec![symbol("src/app.ts", "greet", "greet(b)", true)]),
        file("src/copy.ts", Some(2), Some(2), vec![symbol("src/copy.ts", "greet", "greet(b)", true)]),
    ];
    (base, head)
}

#[test]
fn report_summarises_changes() {
    let (base, head) = sample();
    let report = build_report(&base, &head);
    assert_eq!(report.summary, "Detected 1 modified file, 1 exact clone group, 1 symbol change, and 1 api change.");
    assert_eq!(report.change_set.modified.len(), 1);
    assert_eq!(report.clone_groups.len(), 1);
    assert_eq!(report.clone_groups[0].members, vec!["src/app.ts", "src/copy.ts"]);
    assert_eq!(report.api_changes.len(), 1);
    assert_eq!(report.base_components.len(), 1);
    assert_eq!(report.base_components[0].id, "src");
}

#[test]
fn report_findings_in_order() {
    let (base, head) = sample();
    let report = build_report(&base, &head);
    let codes: Vec<&str> = report.findings.iter().map(|f| f.code.as_str()).collect();
    assert_eq!(codes, vec!["file.modified", "clone.exact", "symbol.modified", "api.changed"]);
    let modified = &report.findings[0];
    assert_eq!(modified.title, "Modified `src/app.ts`");
    assert_eq!(modified.detail, "src/app.ts symbols: greet");
    assert_eq!(modified.confidence, 96);
    assert_eq!(modified.evidence[0].message, "modified file: src/app.ts");
    assert_eq!(modified.evidence[0].spans.len(), 1);
    let clone = &report.findings[1];
    assert_eq!(clone.detail, "Exact clone group across `src/app.ts`, `src/copy.ts`");
    assert_eq!(clone.evidence[0].spans.len(), 2);
    let api = &report.findings[3];
    assert_eq!(api.severity, Severity::Medium);
    assert_eq!(api.risk_score, 82);
    assert_eq!(api.title, "Changed API `greet`");
    assert_eq!(api.detail, "exported `greet` changed in src/app.ts");
}

#[test]
fn markdown_lists_sections() {
    let (base, head) = sample();
    let report = build_report(&base, &head);
    let md = report.markdown();
    assert!(md.starts_with("# Change Report\n\nDetected 1 modified file"));
    assert!(md.contains("\n## Symbol Changes\n- Modified symbol `greet`: src/app.ts changed `greet` (Function)\n"));
    assert!(md.contains("\n## API Changes\n- Changed API `greet`: exported `greet` changed in src/app.ts\n"));
    assert!(md.ends_with("- Changed API `greet`: exported `greet` changed in src/app.ts\n"));
}

#[test]
fn pr_comment_leads_with_risk() {
    let (base, head) = sample();
    let report = build_report(&base, &head);
    let comment = report.pr_comment();
    assert!(comment.starts_with("## Risk\n- risk 82%: Changed API `greet` — exported `greet` changed in src/app.ts\n\n# Change Report"));
}

#[test]
fn pr_comment_without_risk() {
    let files = vec![file("a.ts", Some(1), Some(1), vec![])];
    let report = build_report(&files, &files);
    assert_eq!(report.summary, "No relevant changes detected.");
    assert_eq!(report.pr_comment(), "## Risk\n- No high-risk API changes detected.\n\n# Change Report\n\nNo relevant changes detected.\n\n## Highlights\n- No relevant changes detected.\n");
}

#[test]
fn pr_comment_orders_by_risk() {
    let base = vec![file("a.ts", Some(1), None, vec![symbol("a.ts", "gone", "g()", true), symbol("a.ts", "keep", "k()", true)])];
    let head = vec![file("a.ts", Some(2), None, vec![symbol("a.ts", "keep", "k(x)", true), symbol("a.ts", "added", "a()", true)])];
    let report = build_report(&base, &head);
    let comment = report.pr_comment();
    let removed = comment.find("risk 98%").expect("removed API listed");
    let changed = comment.find("risk 82%").expect("changed API listed");
    let added = comment.find("risk 20%").expect("added API listed");
    assert!(removed < changed && changed < added);
}

#[test]
fn renames_leave_added_and_removed_lists() {
    let base = vec![file("old.ts", Some(1), None, vec![])];
    let head = vec![file("new.ts", Some(1), None, vec![])];
    let renames = vec![RenamedFile::new("old.ts", "new.ts")];
    let report = build_report_with_renames(&base, &head, &renames);
    assert!(report.change_set.added.is_empty());
    assert!(report.change_set.removed.is_empty());
    assert_eq!(report.summary, "Detected 1 renamed file.");
    let finding = &report.findings[0];
    assert_eq!(finding.code, "file.renamed");
    assert_eq!(finding.severity, Severity::Low);
    assert_eq!(finding.detail, "Renamed `old.ts` -> `new.ts` with content preserved");
}

#[test]
fn report_keeps_refs() {
    let files = vec![file("a.ts", Some(1), None, vec![])];
    let report = build_report_with_context("main", "feature", &files, &[], &[]);
    assert_eq!(report.base_ref, "main");
    assert_eq!(report.head_ref, "feature");
    assert_eq!(report.summary, "Detected 1 removed file.");
    assert_eq!(report.findings[0].detail, "a.ts was removed from the head revision");
}

#[test]
fn clone_drift_is_added_to_a_report() {
    let base = vec![file("a.ts", Some(1), Some(5), vec![]), file("b.ts", Some(2), Some(5), vec![])];
    let head = vec![file("a.ts", Some(1), Some(5), vec![]), file("b.ts", Some(3), Some(6), vec![])];
    let report = build_report(&base, &head);
    let count = report.findings.len();
    let summary = report.summary.clone();
    let report = add_clone_drifts(report, &base, &head);
    assert_eq!(report.findings.len(), count + 1);
    let last = report.findings.last().unwrap();
    assert_eq!(last.code, "clone.drift");
    assert_eq!(last.detail, "Clone group drifted across `a.ts`, `b.ts`; changed members: `b.ts`");
    assert_eq!(report.summary, format!("{summary} Also detected 1 clone drift group."));
}

#[test]
fn html_page_escapes_closing_tags() {
    let page = html_page("{\"x\":\"</script>\"}");
    assert!(page.starts_with("<!DOCTYPE html>"));
    assert!(page.contains("{\"x\":\"<\\/script>\"}"));
    assert!(!page.contains("__REPORT_JSON__"));
}

#[test]
fn loads_follow_the_changes() {
    let changes = vec![
        ChangedFile::added("a.ts"),
        ChangedFile::modified("b.ts"),
        ChangedFile::deleted("c.ts"),
        ChangedFile { path: "e.ts".to_string(), kind: ChangeKind::Renamed { from: "d.ts".to_string() } },
        ChangedFile { path: "g.ts".to_string(), kind: ChangeKind::Copied { from: "f.ts".to_string() } },
    ];
    let loads: Vec<(Side, String)> = change_loads(&changes).into_iter().map(|l| (l.side, l.path)).collect();
    assert_eq!(loads, vec![
        (Side::Head, "a.ts".to_string()),
        (Side::Base, "b.ts".to_string()),
        (Side::Head, "b.ts".to_string()),
        (Side::Base, "c.ts".to_string()),
        (Side::Base, "d.ts".to_string()),
        (Side::Head, "e.ts".to_string()),
        (Side::Head, "g.ts".to_string()),
    ]);
    let renames = change_renames(&changes);
    assert_eq!(renames.len(), 1);
    assert_eq!(renames[0].from, "d.ts");
    assert_eq!(renames[0].to, "e.ts");
}

#[test]
fn scope_and_unseen_paths() {
    let changes = vec![ChangedFile::modified("samples/demo/app.ts"), ChangedFile::modified("site/index.ts")];
    let scope = vec!["samples/demo".to_string()];
    let kept = changes_in_scope(&changes, &scope);
    assert_eq!(kept.len(), 1);
    assert_eq!(kept[0].path, "samples/demo/app.ts");
    let loaded = vec![FileAnalysis::new("samples/demo/app.ts".to_string(), Language::TypeScript)];
    let listed = vec!["samples/demo/app.ts".to_string(), "samples/demo/lib.ts".to_string(), "site/index.ts".to_string()];
    assert_eq!(unseen_paths(&listed, &loaded, &scope), vec!["samples/demo/lib.ts"]);
    assert_eq!(unseen_paths(&listed, &loaded, &[]), vec!["samples/demo/lib.ts", "site/index.ts"]);
}

#[test]
fn analysis_errors_display_their_message() {
    let git: AnalysisError = GitError::new("git failed".to_string()).into();
    assert_eq!(git.to_string(), "git failed");
    let parse: AnalysisError = ParseError::new("bad".to_string()).into();
    assert_eq!(parse.to_string(), "bad");
    let unsupported = AnalysisError::UnsupportedLanguage { path: "x.py".to_string() };
    assert_eq!(unsupported.to_string(), "unsupported language for x.py");
}
