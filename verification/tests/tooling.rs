use structix_tools::analyzer_cli::{help_text, parse_args, Command, OutputFormat};
use structix_tools::architecture::{component_id_from_path, component_summaries};
use structix_tools::cli::{
    build_diff_prompt, build_duplicates_prompt, build_manifest, clones_listing, days_to_ymd, diff_listing,
    extract_all, files_affected, timestamp_of,
};
use structix_tools::explainer::{advice_prompt, narration_prompt};
use structix_tools::git_reader::wanted_path;
use structix_tools::html_report::build_html_report;
use structix_tools::input::filter::is_ignored_path;
use structix_tools::input::git::{changed_files, read_file, tracked_files};
use structix_tools::input::snapshot::{ChangeKind, ChangedFile, Snapshot};
use structix_tools::ir::file::FileAnalysis;
use structix_tools::lang::Language;
use structix_tools::manifest::schema::{ChangeKind as EntityChangeKind, EntityChange};
use structix_tools::parser::types::{CodeEntity, EntityKind};

fn args(v: &[&str]) -> Vec<String> {
    v.iter().map(|s| s.to_string()).collect()
}

fn entity(name: &str, file: &str, line: usize, source: &str) -> CodeEntity {
    CodeEntity {
        kind: EntityKind::Function,
        name: name.to_string(),
        file_path: file.to_string(),
        start_line: line,
        end_line: line + 1,
        source: source.to_string(),
        signature: format!("{name}()"),
        qualifiers: vec![],
        parent: None,
    }
}

fn change(kind: EntityChangeKind, name: &str, file: &str, before: Option<&str>, after: Option<&str>) -> EntityChange {
    EntityChange {
        kind,
        entity_key: format!("{file}::{name}"),
        name: name.to_string(),
        file_path: file.to_string(),
        entity_kind: "function".to_string(),
        before_signature: before.map(|s| s.to_string()),
        after_signature: after.map(|s| s.to_string()),
        before_source: None,
        after_source: None,
        old_file_path: None,
        old_name: None,
    }
}

#[test]
fn parse_args_reads_flags() {
    let got = parse_args(&args(&["--repo", "r", "--base", "b", "--head", "h", "--format", "pr-comment", "--path", "x", "--path", "y"]))
        .expect("valid arguments");
    match got {
        Command::Analyze(inv) => {
            assert_eq!(inv.repo, "r");
            assert_eq!(inv.base, "b");
            assert_eq!(inv.head, "h");
            assert_eq!(inv.format, OutputFormat::PrComment);
            assert_eq!(inv.paths, vec!["x", "y"]);
        },
        Command::Help(_) => panic!("expected an analysis"),
    }
}

#[test]
fn parse_args_errors() {
    assert_eq!(parse_args(&args(&["--base", "b"])).unwrap_err().message, "missing --repo");
    assert_eq!(parse_args(&args(&["--repo", "r", "--head", "h"])).unwrap_err().message, "missing --base");
    assert_eq!(parse_args(&args(&["--repo", "r", "--base", "b"])).unwrap_err().message, "missing --head");
    assert_eq!(parse_args(&args(&["--repo"])).unwrap_err().message, "missing value for --repo");
    assert_eq!(parse_args(&args(&["--format", "xml"])).unwrap_err().message, "unsupported format: xml");
    assert_eq!(parse_args(&args(&["--bogus"])).unwrap_err().message, "unknown argument: --bogus");
}

#[test]
fn parse_args_help() {
    assert_eq!(parse_args(&args(&["--repo", "r", "-h", "--bogus"])).unwrap(), Command::Help(help_text()));
    assert!(help_text().starts_with("analyzer-cli --repo <path>"));
    assert!(help_text().ends_with("\n\nPrints a report for the diff between two git refs."));
}

#[test]
fn component_ids_follow_conventions() {
    assert_eq!(component_id_from_path("framework/src/Volo.Abp.Core/Foo.cs"), "framework/src/Volo.Abp.Core");
    assert_eq!(component_id_from_path("npm/ng-packs/packages/core/src/x.ts"), "npm/ng-packs/packages/core");
    assert_eq!(component_id_from_path("templates/app/angular/src/main.ts"), "templates/app/angular/src");
    assert_eq!(component_id_from_path("modules/identity/src/Volo.Identity/x.cs"), "modules/identity");
    assert_eq!(component_id_from_path("modules/cms/angular/projects/cms/src/x.ts"), "modules/cms/angular/projects/cms");
    assert_eq!(component_id_from_path("src/app.ts"), "src");
    assert_eq!(component_id_from_path("apps\\web\\src\\pages\\index.ts"), "apps/web/src/pages");
    assert_eq!(component_id_from_path("lib/src"), "lib");
    assert_eq!(component_id_from_path("README.md"), "README.md");
    assert_eq!(component_id_from_path("//"), "");
}

#[test]
fn component_summaries_group_and_sort() {
    let files = vec![
        FileAnalysis::new("web/src/pages/b.ts".to_string(), Language::TypeScript),
        FileAnalysis::new("api/x.cs".to_string(), Language::CSharp),
        FileAnalysis::new("web/src/pages/a.ts".to_string(), Language::TypeScript),
    ];
    let summaries = component_summaries(&files);
    assert_eq!(summaries.len(), 2);
    assert_eq!(summaries[0].id, "api");
    assert_eq!(summaries[0].label, "api");
    assert_eq!(summaries[1].id, "web/src/pages");
    assert_eq!(summaries[1].label, "pages");
    assert_eq!(summaries[1].file_count, 2);
    assert_eq!(summaries[1].files, vec!["web/src/pages/a.ts", "web/src/pages/b.ts"]);
}

#[test]
fn ignored_paths() {
    assert!(is_ignored_path("src/bin/Debug/app.dll"));
    assert!(is_ignored_path("web\\Node_Modules\\x.ts"));
    assert!(is_ignored_path("api/Model.Generated.cs"));
    assert!(is_ignored_path("api/View.g.cs"));
    assert!(!is_ignored_path("src/binary/app.ts"));
    let snapshot = Snapshot::new("a", "b", vec![ChangedFile::added("dist/x.js"), ChangedFile::modified("src/x.ts")]);
    let kept = snapshot.interesting_changes();
    assert_eq!(kept.len(), 1);
    assert_eq!(kept[0].path, "src/x.ts");
}

#[test]
fn changed_files_parses_name_status() {
    let out = b"M\tsrc/a.ts\nA\tsrc/b.ts\r\nD\tsrc/c.ts\nR100\told.ts\tnew.ts\nC75\tx.ts\ty.ts\nT\tweird.ts\n\n";
    let changes = changed_files(out).expect("valid output");
    assert_eq!(changes, vec![
        ChangedFile::modified("src/a.ts"),
        ChangedFile::added("src/b.ts"),
        ChangedFile::deleted("src/c.ts"),
        ChangedFile { path: "new.ts".to_string(), kind: ChangeKind::Renamed { from: "old.ts".to_string() } },
        ChangedFile { path: "y.ts".to_string(), kind: ChangeKind::Copied { from: "x.ts".to_string() } },
    ]);
}

#[test]
fn git_output_must_be_utf8() {
    let bad: &[u8] = &[0x66, 0xff, 0x0a];
    assert!(changed_files(bad).unwrap_err().message.starts_with("git diff output was not valid UTF-8: "));
    assert!(read_file(bad).unwrap_err().message.starts_with("git show output was not valid UTF-8: "));
    assert!(tracked_files(bad).unwrap_err().message.starts_with("git ls-tree output was not valid UTF-8: "));
    assert_eq!(read_file("héllo\n".as_bytes()).unwrap(), "héllo\n");
    assert_eq!(tracked_files(b" a.ts \n\n  \nb/c.cs\n").unwrap(), vec!["a.ts", "b/c.cs"]);
}

#[test]
fn calendar_dates() {
    assert_eq!(days_to_ymd(0), (1970, 1, 1));
    assert_eq!(days_to_ymd(31), (1970, 2, 1));
    assert_eq!(days_to_ymd(789), (1972, 2, 29));
    assert_eq!(days_to_ymd(19723), (2024, 1, 1));
    assert_eq!(days_to_ymd(11016), (2000, 2, 29));
    assert_eq!(timestamp_of(0), "1970-01-01T00-00-00");
    assert_eq!(timestamp_of(1700000000), "2023-11-14T22-13-20");
}

#[test]
fn wanted_paths() {
    let filters = vec!["src".to_string()];
    assert!(wanted_path("src/a.ts", &filters));
    assert!(wanted_path("src/b.tsx", &[]));
    assert!(!wanted_path("src/a.js", &filters));
    assert!(!wanted_path("lib/a.cs", &filters));
}

#[test]
fn extract_all_skips_unknown_files() {
    let files = vec![
        ("a.ts".to_string(), "export function f() { return 1; }".to_string()),
        ("notes.txt".to_string(), "function g() {}".to_string()),
    ];
    let entities = extract_all(&files);
    assert!(entities.iter().any(|e| e.name == "f"));
    assert!(entities.iter().all(|e| e.file_path == "a.ts"));
}

#[test]
fn duplicates_prompt_lists_groups() {
    let a = entity("a", "x.ts", 3, "function a() {}");
    let b = entity("b", "y.ts", 7, "function b() {}");
    let exact = vec![vec![&a, &b]];
    let prompt = build_duplicates_prompt(&exact, &[]);
    assert!(prompt.starts_with("I ran Structix duplicate detection on my codebase. For each clone group below"));
    assert!(prompt.contains("## Exact clones (1 group(s))\n\n### Group 1\n**a** (`x.ts` line 3)\n```\nfunction a() {}\n```\n\n**b** (`y.ts` line 7)"));
    assert!(!prompt.contains("Structural clones"));
    let none = build_duplicates_prompt(&[], &[]);
    assert!(none.ends_with("and name a shared abstraction.\n\nNo duplicates detected.\n"));
}

#[test]
fn snippets_are_cut_after_the_limit() {
    let long = "x".repeat(350);
    let e = entity("long", "l.ts", 1, &long);
    let groups = vec![vec![&e]];
    let prompt = build_duplicates_prompt(&[], &groups);
    assert!(prompt.contains(&format!("```\n{}\n```", "x".repeat(300))));
    let advice = advice_prompt(&groups);
    assert!(advice.starts_with("Advise on these duplicate code groups:\n### Clone Group 1\n\n**long** (l.ts:1)\n```\n"));
    assert!(advice.contains(&format!("```\n{}\n```\n", "x".repeat(350))));
}

#[test]
fn diff_prompt_and_listing() {
    let changes = vec![
        change(EntityChangeKind::Modified, "f", "a.ts", Some("f()"), Some("f(x)")),
        change(EntityChangeKind::Added, "g", "b.ts", None, Some("g()")),
        change(EntityChangeKind::Removed, "h", "a.ts", Some("h()"), None),
    ];
    assert_eq!(files_affected(&changes), vec!["a.ts", "b.ts"]);
    let manifest = build_manifest("HEAD~1", "HEAD", changes);
    assert_eq!(manifest.files_affected, vec!["a.ts", "b.ts"]);
    let prompt = build_diff_prompt(&manifest, "{}");
    assert!(prompt.starts_with("I ran Structix on my repo and got the following structural diff (HEAD~1 → HEAD).\nPlease summarize"));
    assert!(prompt.contains("**3 change(s) across 2 file(s)**\n\n- [~] **f** `a.ts` (function)\n  - before: `f()`\n  - after:  `f(x)`\n- [+] **g** `b.ts` (function)\n- [-] **h** `a.ts` (function)\n"));
    assert!(prompt.ends_with("```json\n{}\n```\n</details>\n"));
    let listing = diff_listing(&manifest);
    assert_eq!(listing, "\nStructural diff: HEAD~1 → HEAD\nFiles affected: 2\nTotal changes: 3\n\n  [~] function f (a.ts)\n      before: f()\n      after:  f(x)\n  [+] function g (b.ts)\n  [-] function h (a.ts)\n");
}

#[test]
fn clone_listing_and_narration() {
    let a = entity("a", "x.ts", 3, "");
    let b = entity("b", "y.ts", 7, "");
    let listing = clones_listing(&[vec![&a, &b]], &[]);
    assert_eq!(listing, "\nExact clones: 1 group(s)\n  a (x.ts:3) ↔ b (y.ts:7)\n\nStructural clones: 0 group(s)\n");
    assert_eq!(narration_prompt("{}"), "Summarize these structural code changes:\n\n```json\n{}\n```");
}

#[test]
fn html_report_escapes_script_ends() {
    let page = build_html_report("{\"a\":\"</script>\"}");
    assert!(page.starts_with("<!DOCTYPE html>"));
    assert!(page.contains("<script id=\"structix-data\" type=\"application/json\">{\"a\":\"<\\/script>\"}</script>\n<script>"));
}

#[test]
fn each_day_follows_the_one_before() {
    assert_eq!(days_to_ymd(364), (1970, 12, 31));
    assert_eq!(days_to_ymd(365), (1971, 1, 1));
    assert_eq!(days_to_ymd(788), (1972, 2, 28));
    assert_eq!(days_to_ymd(790), (1972, 3, 1));
    let mut previous = days_to_ymd(0);
    for day in 1..1500u64 {
        let (y, m, d) = days_to_ymd(day);
        assert!((y, m, d) > previous);
        previous = (y, m, d);
    }
}
