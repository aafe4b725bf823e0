use projectlens::domain::static_analyzer::language_spec::{all_specs, find_spec_for_extension, Grammar};
use projectlens::domain::static_analyzer::{analyze_nodes, StaticAnalyzer, SyntaxNode};
use projectlens::models::error::AppError;

#[test]
fn language_table_lists_nine_languages() {
    let names: Vec<&str> = all_specs().iter().map(|s| s.name).collect();
    assert_eq!(names, vec!["typescript", "javascript", "rust", "python", "java", "go", "csharp", "c", "cpp"]);
}

#[test]
fn extension_lookup_ignores_dots_and_case() {
    assert_eq!(find_spec_for_extension(".RS").unwrap().name, "rust");
    assert_eq!(find_spec_for_extension("tsx").unwrap().grammar, Grammar::TypeScript);
    assert_eq!(find_spec_for_extension("hpp").unwrap().name, "cpp");
    assert_eq!(find_spec_for_extension("h").unwrap().name, "c");
    assert!(find_spec_for_extension("md").is_none());
    assert!(StaticAnalyzer::supports_extension("py"));
    assert!(!StaticAnalyzer::supports_extension("txt"));
}

fn node(kind: &str, field: Option<&str>, depth: u32, start: usize, end: usize, row: usize) -> SyntaxNode {
    SyntaxNode {
        kind: kind.to_string(),
        field: field.map(|f| f.to_string()),
        depth,
        start_byte: start,
        end_byte: end,
        start_row: row,
        end_row: row,
    }
}

#[test]
fn metrics_from_syntax_nodes() {
    let source = "use a;\nfn f() { if x { } }\n";
    let spec = find_spec_for_extension("rs").unwrap();
    let nodes = vec![
        node("source_file", None, 0, 0, 27, 0),
        node("use_declaration", None, 1, 0, 6, 0),
        node("function_item", None, 1, 7, 26, 1),
        node("identifier", Some("name"), 2, 10, 11, 1),
        node("block", Some("body"), 2, 14, 26, 1),
        node("if_expression", None, 3, 16, 24, 1),
        node("block", Some("consequence"), 4, 21, 24, 1),
    ];
    let r = analyze_nodes("a.rs", source, &spec, &nodes);
    assert_eq!(r.language, "rust");
    assert_eq!(r.metrics.loc, 2);
    assert_eq!(r.metrics.cyclomatic_complexity, 2);
    assert_eq!(r.metrics.max_nest_depth, 2);
    assert_eq!(r.imports, vec!["use a;".to_string()]);
    assert_eq!(r.functions.len(), 1);
    assert_eq!(r.functions[0].name, "f");
    assert_eq!(r.functions[0].start_line, 2);
}

#[test]
fn analyzes_rust_source_with_tree_sitter() {
    let source = "use std::io;\n\nstruct S;\n\nfn main() {\n    if true {\n        loop { break; }\n    }\n}\n";
    let r = StaticAnalyzer::analyze("src/main.rs", source, "rs").unwrap();
    assert_eq!(r.file_path, "src/main.rs");
    assert_eq!(r.imports, vec!["use std::io;".to_string()]);
    assert_eq!(r.functions.len(), 1);
    assert_eq!(r.functions[0].name, "main");
    assert_eq!(r.functions[0].start_line, 5);
    assert_eq!(r.functions[0].end_line, 9);
    assert_eq!(r.classes[0].name, "S");
    assert_eq!(r.metrics.cyclomatic_complexity, 2);
    assert_eq!(r.metrics.max_nest_depth, 3);
    assert_eq!(r.metrics.loc, 9);
}

#[test]
fn unsupported_extension_is_a_static_error() {
    match StaticAnalyzer::analyze("a.txt", "", "txt") {
        Err(AppError::Static { message, recoverable }) => {
            assert_eq!(message, "未対応の拡張子です: txt");
            assert!(recoverable);
        }
        other => panic!("unexpected {:?}", other.is_ok()),
    }
}
