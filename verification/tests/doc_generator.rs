use projectlens::domain::doc_generator::directory_tree::build;
use projectlens::domain::doc_generator::{
    format_extension, generate, generate_all, generate_with_separator, render_content, render_html, resolve_output_dir,
    resolve_output_dir_with, sanitize_filename, DocSource,
};
use projectlens::models::config::AppConfig;
use projectlens::models::analysis::{
    BasicDesign, FileAnalysisResult, ProjectAnalysisResult, RpaComponent, ScannedFile, StaticAnalysisResult, SystemSpec,
    CodeMetrics,
};
use projectlens::models::constants::export_paths::SYSTEM_SPEC_FILENAME;
use projectlens::models::error::AppError;

fn file(path: &str) -> ScannedFile {
    ScannedFile {
        path: path.to_string(),
        hash: "h".into(),
        size_bytes: 10,
        rpa_tool: None,
        macro_tool: None,
    }
}

#[test]
fn builds_nested_tree_with_dirs_before_files() {
    let files = vec![file("src/main.rs"), file("README.md"), file("src/lib/util.rs")];
    let tree = build(&files, "myproject");

    assert_eq!(tree.name, "myproject");
    assert_eq!(tree.children.len(), 2);
    assert_eq!(tree.children[0].name, "src");
    assert_eq!(tree.children[0].kind, "dir");
    assert_eq!(tree.children[1].name, "README.md");
    assert_eq!(tree.children[1].kind, "file");

    let src = &tree.children[0];
    assert_eq!(src.children.len(), 2);
    assert_eq!(src.children[0].name, "lib");
    assert_eq!(src.children[1].name, "main.rs");

    let lib_dir = &src.children[0];
    assert_eq!(lib_dir.children.len(), 1);
    assert_eq!(lib_dir.children[0].name, "util.rs");
    assert_eq!(lib_dir.children[0].path, "src/lib/util.rs");
}

#[test]
fn tree_root_and_leaf_fields() {
    let files = vec![ScannedFile { size_bytes: 42, ..file("a/b.txt") }, file("a//c.txt")];
    let tree = build(&files, "root");
    assert_eq!(tree.path, "");
    assert_eq!(tree.kind, "dir");
    assert_eq!(tree.size_bytes, None);
    let a = &tree.children[0];
    assert_eq!(a.path, "a");
    assert_eq!(a.size_bytes, None);
    assert_eq!(a.children[0].name, "b.txt");
    assert_eq!(a.children[0].size_bytes, Some(42));
    assert_eq!(a.children[1].path, "a/c.txt");
}

#[test]
fn tree_first_entry_decides_kind_and_duplicates_merge() {
    // "x" first appears as a file; a later deeper path hangs under that file node.
    let files = vec![file("x"), file("x/y"), file("x"), file("B"), file("a")];
    let tree = build(&files, "r");
    let names: Vec<&str> = tree.children.iter().map(|c| c.name.as_str()).collect();
    assert_eq!(names, vec!["B", "a", "x"]);
    assert_eq!(tree.children[2].kind, "file");
    assert_eq!(tree.children[2].children.len(), 1);
    assert_eq!(tree.children[2].children[0].path, "x/y");
}

#[test]
fn empty_scan_gives_bare_root() {
    let tree = build(&[], "empty");
    assert!(tree.children.is_empty());
}

#[test]
fn output_dir_defaults_inside_project() {
    assert_eq!(resolve_output_dir("/p/proj", ""), "/p/proj/projectlens-docs");
    assert_eq!(resolve_output_dir("/p/proj/", ""), "/p/proj/projectlens-docs");
    assert_eq!(resolve_output_dir("/p/proj", "/out"), "/out");
}

#[test]
fn format_extensions_and_unsupported_format() {
    assert_eq!(format_extension("markdown").unwrap(), "md");
    assert_eq!(format_extension("html").unwrap(), "html");
    assert_eq!(format_extension("json").unwrap(), "json");
    match format_extension("pdf") {
        Err(AppError::Export { message, recoverable }) => {
            assert_eq!(message, "未対応の出力形式です: pdf");
            assert!(!recoverable);
        }
        other => panic!("unexpected {:?}", other),
    }
}

#[test]
fn html_rendering_wraps_converted_markdown() {
    let page = render_html("# Title\n\n|a|b|\n|-|-|\n|1|2|\n");
    assert!(page.starts_with("<!doctype html>"));
    assert!(page.contains("<h1>Title</h1>"));
    assert!(page.contains("<table>"));
    assert!(page.ends_with("</body></html>\n"));
    assert_eq!(render_content("markdown", "x").unwrap(), Some("x".to_string()));
    assert_eq!(render_content("json", "x").unwrap(), None);
    assert!(render_content("txt", "x").is_err());
}

#[test]
fn sanitized_file_names() {
    assert_eq!(sanitize_filename("src/a\\b.rs"), "src_a_b.rs");
}

fn file_result(path: &str) -> FileAnalysisResult {
    FileAnalysisResult {
        file_path: path.to_string(),
        role_summary: "role".into(),
        public_apis: vec![],
        design_patterns: vec![],
        importance_score: 5,
        potential_issues: vec![],
        cache_hit: false,
    }
}

fn project() -> ProjectAnalysisResult {
    ProjectAnalysisResult {
        system_spec: SystemSpec { purpose: "p".into(), main_features: vec![], user_flows: "f".into() },
        basic_design: BasicDesign {
            architecture_pattern: "a".into(),
            modules: vec![],
            tech_stack: vec![],
            data_flow: "d".into(),
            technical_debts: vec![],
            mermaid_diagrams: vec![],
        },
    }
}

#[test]
fn generate_plans_documents_in_order() {
    let types = vec!["detailDesign".to_string(), "systemSpec".to_string()];
    let statics = vec![StaticAnalysisResult {
        file_path: "src/a.rs".into(),
        language: "rust".into(),
        metrics: CodeMetrics { loc: 1, cyclomatic_complexity: 1, max_nest_depth: 0 },
        imports: vec![],
        exports: vec![],
        functions: vec![],
        classes: vec![],
    }];
    let frs = vec![file_result("src/a.rs"), file_result("flow.xaml")];
    let rpa = vec![RpaComponent {
        component_path: "flow.xaml".into(),
        tool: "uipath".into(),
        flow_name: "flow".into(),
        flow_kind: "workflow".into(),
        triggers: vec![],
        steps: vec![],
        branch_or_loop_count: 0,
        external_connections: vec![],
        dependencies: vec![],
    }];
    let plan = generate("/out", &types, "markdown", true, &project(), &statics, &frs, &rpa).unwrap();
    assert_eq!(plan.result.output_dir, "/out");
    let paths: Vec<&str> = plan.result.files.iter().map(|f| f.path.as_str()).collect();
    let first = format!("/out/{}.md", SYSTEM_SPEC_FILENAME);
    assert_eq!(paths, vec![first.as_str(), "/out/detail/src_a.rs.md", "/out/detail/flow.xaml.md"]);
    assert_eq!(plan.detail_dir.as_deref(), Some("/out/detail"));
    assert_eq!(plan.documents[0].source, DocSource::SystemSpec);
    assert_eq!(plan.documents[1].source, DocSource::FileDetail(0, Some(0)));
    assert_eq!(plan.documents[2].source, DocSource::RpaDetail(1, 0));
    assert_eq!(plan.result.files[2].source_file_path.as_deref(), Some("flow.xaml"));
    assert!(plan.documents[0].markdown.starts_with("# システム仕様書"));
    assert!(generate("/out", &types, "pdf", true, &project(), &statics, &frs, &rpa).is_err());
}

#[test]
fn windows_separator_joins_paths() {
    assert_eq!(resolve_output_dir_with("C:\\proj", "", '\\'), "C:\\proj\\projectlens-docs");
    assert_eq!(resolve_output_dir_with("C:/proj/", "", '\\'), "C:/proj/projectlens-docs");
    assert_eq!(resolve_output_dir_with("proj\\", "", '/'), "proj\\/projectlens-docs");
    let types = vec!["systemSpec".to_string(), "detailDesign".to_string()];
    let frs = vec![file_result("src/a.rs")];
    let plan = generate_with_separator('\\', "C:\\out", &types, "html", false, &project(), &[], &frs, &[]).unwrap();
    let paths: Vec<&str> = plan.result.files.iter().map(|f| f.path.as_str()).collect();
    let first = format!("C:\\out\\{}.html", SYSTEM_SPEC_FILENAME);
    assert_eq!(paths, vec![first.as_str(), "C:\\out\\detail\\src_a.rs.html"]);
    assert_eq!(plan.detail_dir.as_deref(), Some("C:\\out\\detail"));
}

#[test]
fn default_export_follows_the_settings() {
    let config = AppConfig::default();
    let frs = vec![file_result("src/a.rs")];
    let plan = generate_all("/out", &project(), &[], &frs, &[], &config.export).unwrap();
    assert_eq!(plan.result.files.len(), config.export.default_doc_types.len() - 1 + frs.len());
    assert_eq!(plan.detail_dir.as_deref(), Some("/out/detail"));
}
