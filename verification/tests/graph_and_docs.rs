use projectlens::domain::ai_analyzer::prompts::{rpa_analysis_prompt, vba_analysis_prompt};
use projectlens::domain::doc_generator::markdown::{basic_design, detail_design_for_file, severity_ja, system_spec};
use projectlens::domain::static_analyzer::dependency_graph::{build, resolve_relative};
use projectlens::models::analysis::{
    BasicDesign, CodeMetrics, FeatureSummary, FileAnalysisResult, FunctionInfo, Issue, MermaidDiagram, Severity,
    StaticAnalysisResult, SystemSpec,
};

fn sr(path: &str, imports: &[&str]) -> StaticAnalysisResult {
    StaticAnalysisResult {
        file_path: path.into(),
        language: "typescript".into(),
        metrics: CodeMetrics { loc: 10, cyclomatic_complexity: 2, max_nest_depth: 1 },
        imports: imports.iter().map(|s| s.to_string()).collect(),
        exports: vec![],
        functions: vec![FunctionInfo { name: "f".into(), start_line: 1, end_line: 3 }],
        classes: vec![],
    }
}

#[test]
fn relative_imports_resolve_to_known_files() {
    let known = vec!["src/a.ts".to_string(), "src/lib/b.ts".to_string()];
    assert_eq!(resolve_relative("src/a.ts", "./lib/b", &known).as_deref(), Some("src/lib/b.ts"));
    assert_eq!(resolve_relative("src/lib/b.ts", "../a", &known).as_deref(), Some("src/a.ts"));
    assert_eq!(resolve_relative("src/a.ts", "./missing", &known), None);
}

#[test]
fn graph_counts_edges_and_finds_cycles() {
    let results = vec![
        sr("src/a.ts", &["import { b } from './b'"]),
        sr("src/b.ts", &["import { a } from \"./a\"", "import x from 'lodash'"]),
        sr("src/c.ts", &["import { c } from './c'"]),
    ];
    let g = build(&results);
    assert_eq!(g.nodes.len(), 3);
    assert_eq!(g.edges.len(), 2);
    assert_eq!((g.nodes[0].fan_in, g.nodes[0].fan_out), (1, 1));
    assert_eq!((g.nodes[2].fan_in, g.nodes[2].fan_out), (0, 0));
    assert_eq!(g.cycles.len(), 1);
    let mut cycle = g.cycles[0].clone();
    cycle.sort();
    assert_eq!(cycle, vec!["src/a.ts".to_string(), "src/b.ts".to_string()]);
}

#[test]
fn acyclic_graph_reports_no_cycle_and_longer_cycle_is_found() {
    let chain = vec![
        sr("src/a.ts", &["import { b } from './b'", "import { c } from './c'"]),
        sr("src/b.ts", &["import { c } from './c'"]),
        sr("src/c.ts", &[]),
    ];
    let g = build(&chain);
    assert_eq!(g.edges.len(), 3);
    assert!(g.cycles.is_empty());

    let ring = vec![
        sr("src/a.ts", &["import { b } from './b'"]),
        sr("src/b.ts", &["import { c } from './c'"]),
        sr("src/c.ts", &["import { a } from './a'"]),
    ];
    let g = build(&ring);
    assert_eq!(g.cycles.len(), 1);
    assert_eq!(g.cycles[0], vec!["src/a.ts".to_string(), "src/b.ts".to_string(), "src/c.ts".to_string()]);
}

#[test]
fn markdown_documents() {
    let spec = SystemSpec {
        purpose: "目的".into(),
        main_features: vec![FeatureSummary { name: "F".into(), description: "D".into() }],
        user_flows: "流れ".into(),
    };
    let md = system_spec(&spec);
    assert!(md.starts_with("# システム仕様書\n\n## 目的\n\n目的\n\n## 主要機能\n\n### F\n\nD\n\n"));
    let design = BasicDesign {
        architecture_pattern: "layered".into(),
        modules: vec![],
        tech_stack: vec!["Rust".into()],
        data_flow: "flow".into(),
        technical_debts: vec![],
        mermaid_diagrams: vec![MermaidDiagram { diagram_type: "architecture".into(), title: "T".into(), source: "graph TD; A-->B".into() }],
    };
    let with = basic_design(&design, true);
    let without = basic_design(&design, false);
    assert!(with.contains("```mermaid\ngraph TD; A-->B\n```"));
    assert!(!without.contains("```mermaid"));
    assert_eq!(severity_ja(&Severity::High), "高");
    let fr = FileAnalysisResult {
        file_path: "src/a.ts".into(),
        role_summary: "役割".into(),
        public_apis: vec![],
        design_patterns: vec![],
        importance_score: 7,
        potential_issues: vec![Issue { severity: Severity::Low, description: "d".into(), suggestion: "s".into() }],
        cache_hit: false,
    };
    let detail = detail_design_for_file(&fr, Some(&sr("src/a.ts", &[])));
    assert!(detail.starts_with("# 詳細設計書: src/a.ts"));
    assert!(detail.contains("低"));
}

#[test]
fn rpa_and_vba_prompts_embed_inputs() {
    let p = rpa_analysis_prompt("flows/Main.xaml", "uipath", "{\"steps\":[]}", "<Activity/>");
    assert!(p.contains("flows/Main.xaml"));
    assert!(p.contains("{\"steps\":[]}"));
    assert!(p.contains("<Activity/>"));
    let v = vba_analysis_prompt("book.xlsm", "book.xlsm", "[]", "Sub Main()\nEnd Sub");
    assert!(v.contains("Sub Main()"));
}

#[test]
fn cycle_is_listed_from_the_file_first_reached() {
    let results = vec![
        sr("src/a.ts", &["import { b } from './b';"]),
        sr("src/b.ts", &["import { a } from './a';"]),
    ];
    let g = build(&results);
    assert_eq!((g.nodes[0].fan_in, g.nodes[0].fan_out), (1, 1));
    assert_eq!((g.nodes[1].fan_in, g.nodes[1].fan_out), (1, 1));
    assert_eq!(g.edges.len(), 2);
    assert_eq!(g.cycles, vec![vec!["src/a.ts".to_string(), "src/b.ts".to_string()]]);
}
