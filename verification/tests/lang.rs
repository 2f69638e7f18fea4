use structix_tools::duplicates::fingerprint::{fingerprint_of_syntax, structural_fingerprint};
use structix_tools::ir::file::FileMetrics;
use structix_tools::ir::model::SymbolKind;
use structix_tools::lang::Language;
use structix_tools::parser::types::{CodeEntity, EntityKind};
use structix_tools::syntax::{parse_syntax, Grammar};

#[test]
fn language_by_extension() {
    assert_eq!(Language::from_path("src/a.ts"), Some(Language::TypeScript));
    assert_eq!(Language::from_path("src/a.TSX"), Some(Language::TypeScript));
    assert_eq!(Language::from_path("src/A.cs"), Some(Language::CSharp));
    assert_eq!(Language::from_path("src/a.js"), None);
    assert_eq!(Language::from_path(".ts"), None);
}

#[test]
fn typescript_analysis_finds_exported_functions() {
    let source = "export function greet(name: string): string {\n    return name;\n}\nclass Hidden {}\n";
    let analysis = Language::TypeScript.parse("src/app.ts", source).expect("parses");
    assert_eq!(analysis.path, "src/app.ts");
    let names: Vec<(&str, SymbolKind, bool)> =
        analysis.symbols.iter().map(|s| (s.name.as_str(), s.kind, s.exported)).collect();
    assert_eq!(names, vec![("greet", SymbolKind::Function, true), ("Hidden", SymbolKind::Class, false)]);
    assert!(analysis.lexical_hash.is_some() && analysis.token_hash.is_some() && analysis.ast_hash.is_some());
}

#[test]
fn token_fingerprint_ignores_identifiers() {
    let a = Language::TypeScript.parse("a.ts", "function f(x: number) { return x + 1; }").unwrap();
    let b = Language::TypeScript.parse("b.ts", "function g(y: number) { return y + 2; }").unwrap();
    assert_eq!(a.token_hash, b.token_hash);
    assert_ne!(a.lexical_hash, b.lexical_hash);
    assert_eq!(a.ast_hash, b.ast_hash);
}

#[test]
fn csharp_analysis_parses() {
    let source = "namespace App;\npublic class Service {\n    public void Run() {}\n}\n";
    let analysis = Language::CSharp.parse("Service.cs", source).expect("parses");
    assert_eq!(analysis.path, "Service.cs");
    assert!(analysis.symbols.iter().any(|s| s.name == "Service"));
}

#[test]
fn metrics_count_every_line_once() {
    let m = FileMetrics::from_source("// c\n\ncode();\n/* a\n b */\nmore();\n");
    assert_eq!(m.comment_lines, 3);
    assert_eq!(m.blank_lines, 1);
    assert_eq!(m.code_lines, 2);
}

#[test]
fn structural_fingerprint_is_a_digest() {
    let nodes = parse_syntax(Grammar::TypeScript, "function f(a) { const x = g(a); return x.y(); }").expect("parses");
    let fp = fingerprint_of_syntax(&nodes).expect("enough tokens");
    assert_eq!(fp.len(), 64);
    assert!(fp.chars().all(|c| c.is_ascii_hexdigit() && !c.is_ascii_uppercase()));
    let tiny = parse_syntax(Grammar::TypeScript, "x").expect("parses");
    assert_eq!(fingerprint_of_syntax(&tiny), None);
}

#[test]
fn structural_fingerprints_match_for_renamed_code() {
    let make = |name: &str, file: &str, source: &str| CodeEntity {
        kind: EntityKind::Function,
        name: name.to_string(),
        file_path: file.to_string(),
        start_line: 1,
        end_line: 1,
        source: source.to_string(),
        signature: String::new(),
        qualifiers: vec![],
        parent: None,
    };
    let a = make("a", "a.ts", "function a(p) { const x = load(p); return x.value(); }");
    let b = make("b", "b.ts", "function b(q) { const y = read(q); return y.other(); }");
    let c = make("c", "c.cs", "class C { void M() { } }");
    assert_eq!(structural_fingerprint(&a), structural_fingerprint(&b));
    assert!(structural_fingerprint(&a).is_some());
    assert_ne!(structural_fingerprint(&a), structural_fingerprint(&c));
}

#[test]
fn parsing_twice_gives_the_same_analysis() {
    let source = "export class A { run(): void {} }\nfunction b(x: number) { return x * 2; }\n";
    let first = Language::TypeScript.parse("src/a.ts", source).expect("parses");
    let second = Language::TypeScript.parse("src/a.ts", source).expect("parses");
    assert_eq!(first, second);
    let again = parse_syntax(Grammar::TypeScript, source).expect("parses");
    assert_eq!(again.len(), parse_syntax(Grammar::TypeScript, source).expect("parses").len());
    assert_eq!(again[0].end, again.len());
}
