//! Result types shared by the analysis phases and the document generator.
use vstd::prelude::*;

verus! {

/// Per-file AI analysis result.
#[derive(Debug, Clone)]
pub struct FileAnalysisResult {
    pub file_path: String,
    /// Summary of the file's role.
    pub role_summary: String,
    pub public_apis: Vec<PublicApi>,
    pub design_patterns: Vec<String>,
    /// Held between 1 and 10.
    pub importance_score: u8,
    pub potential_issues: Vec<Issue>,
    pub cache_hit: bool,
}

#[derive(Debug, Clone)]
pub struct PublicApi {
    pub name: String,
    /// "function" | "class" | "const" | "type"
    pub kind: String,
    pub description: String,
}

#[derive(Debug, Clone)]
pub struct Issue {
    pub severity: Severity,
    pub description: String,
    pub suggestion: String,
}

#[derive(Debug, Clone, Copy, PartialEq, Eq, Structural)]
pub enum Severity {
    High,
    Medium,
    Low,
}

/// Whole-project AI analysis result (source of the system specification and basic design).
#[derive(Debug, Clone)]
pub struct ProjectAnalysisResult {
    pub system_spec: SystemSpec,
    pub basic_design: BasicDesign,
}

#[derive(Debug, Clone)]
pub struct SystemSpec {
    pub purpose: String,
    pub main_features: Vec<FeatureSummary>,
    pub user_flows: String,
}

#[derive(Debug, Clone)]
pub struct FeatureSummary {
    pub name: String,
    pub description: String,
}

#[derive(Debug, Clone)]
pub struct BasicDesign {
    pub architecture_pattern: String,
    pub modules: Vec<ModuleSummary>,
    pub tech_stack: Vec<String>,
    pub data_flow: String,
    pub technical_debts: Vec<TechnicalDebt>,
    pub mermaid_diagrams: Vec<MermaidDiagram>,
}

#[derive(Debug, Clone)]
pub struct ModuleSummary {
    pub name: String,
    pub responsibility: String,
    pub key_files: Vec<String>,
}

#[derive(Debug, Clone)]
pub struct TechnicalDebt {
    pub severity: Severity,
    pub area: String,
    pub description: String,
    pub recommendation: String,
}

#[derive(Debug, Clone)]
pub struct MermaidDiagram {
    /// "architecture" | "dependency" | "dataflow"
    pub diagram_type: String,
    pub title: String,
    pub source: String,
}

/// Static analysis result of one source file.
#[derive(Debug, Clone)]
pub struct StaticAnalysisResult {
    pub file_path: String,
    pub language: String,
    pub metrics: CodeMetrics,
    pub imports: Vec<String>,
    pub exports: Vec<String>,
    pub functions: Vec<FunctionInfo>,
    pub classes: Vec<ClassInfo>,
}

#[derive(Debug, Clone, Copy, PartialEq, Eq, Structural)]
pub struct CodeMetrics {
    pub loc: u32,
    pub cyclomatic_complexity: u32,
    pub max_nest_depth: u32,
}

#[derive(Debug, Clone)]
pub struct FunctionInfo {
    pub name: String,
    pub start_line: u32,
    pub end_line: u32,
}

#[derive(Debug, Clone)]
pub struct ClassInfo {
    pub name: String,
    pub start_line: u32,
    pub end_line: u32,
}

/// Import dependency graph between analyzed files.
#[derive(Debug, Clone)]
pub struct DependencyGraph {
    pub nodes: Vec<DependencyNode>,
    pub edges: Vec<DependencyEdge>,
    /// Circular dependencies, each as the list of files on the cycle.
    pub cycles: Vec<Vec<String>>,
}

#[derive(Debug, Clone)]
pub struct DependencyNode {
    pub id: String,
    pub fan_in: u32,
    pub fan_out: u32,
}

#[derive(Debug, Clone)]
pub struct DependencyEdge {
    pub from: String,
    pub to: String,
}

/// Progress event payload.
#[derive(Debug, Clone)]
pub struct ProgressPayload {
    /// "scan" | "static" | "ai" | "doc_gen"
    pub phase: String,
    pub processed: u64,
    pub total: u64,
    pub current_file: Option<String>,
}

/// Common intermediate representation of an RPA definition file.
#[derive(Debug, Clone)]
pub struct RpaComponent {
    pub component_path: String,
    /// "powerplatform" | "pad" | "uipath"
    pub tool: String,
    pub flow_name: String,
    pub flow_kind: String,
    pub triggers: Vec<String>,
    pub steps: Vec<RpaStep>,
    pub branch_or_loop_count: u32,
    pub external_connections: Vec<String>,
    pub dependencies: Vec<String>,
}

#[derive(Debug, Clone)]
pub struct RpaStep {
    pub name: String,
    pub kind: String,
}

/// Mathematical view of an `RpaComponent`.
pub struct RpaComponentView {
    pub component_path: Seq<char>,
    pub tool: Seq<char>,
    pub flow_name: Seq<char>,
    pub flow_kind: Seq<char>,
    pub triggers: Seq<Seq<char>>,
    pub steps: Seq<(Seq<char>, Seq<char>)>,
    pub branch_or_loop_count: u32,
    pub external_connections: Seq<Seq<char>>,
    pub dependencies: Seq<Seq<char>>,
}

pub open spec fn step_view(s: RpaStep) -> (Seq<char>, Seq<char>) {
    (s.name@, s.kind@)
}

impl View for RpaComponent {
    type V = RpaComponentView;

    open spec fn view(&self) -> RpaComponentView {
        RpaComponentView {
            component_path: self.component_path@,
            tool: self.tool@,
            flow_name: self.flow_name@,
            flow_kind: self.flow_kind@,
            triggers: self.triggers@.map_values(|s: String| s@),
            steps: self.steps@.map_values(|s: RpaStep| step_view(s)),
            branch_or_loop_count: self.branch_or_loop_count,
            external_connections: self.external_connections@.map_values(|s: String| s@),
            dependencies: self.dependencies@.map_values(|s: String| s@),
        }
    }
}

/// Common intermediate representation of the VBA project of one workbook.
#[derive(Debug, Clone)]
pub struct VbaComponent {
    pub component_path: String,
    pub workbook_name: String,
    pub modules: Vec<VbaModule>,
    pub external_references: Vec<String>,
}

#[derive(Debug, Clone)]
pub struct VbaModule {
    pub name: String,
    /// "standard" | "class" | "form" | "document"
    pub kind: String,
    pub loc: u32,
}

/// One file kept by the scan.
#[derive(Debug, Clone)]
pub struct ScannedFile {
    pub path: String,
    pub hash: String,
    pub size_bytes: u64,
    /// The RPA tool when the file was detected as an RPA definition.
    pub rpa_tool: Option<String>,
    /// The macro container kind when the file was detected as one.
    pub macro_tool: Option<String>,
}

#[derive(Debug, Clone)]
pub struct ScanResult {
    pub files: Vec<ScannedFile>,
    pub total_count: usize,
}

/// Node of the directory tree shown in the documents.
#[derive(Debug)]
pub struct DirectoryNode {
    pub name: String,
    pub path: String,
    /// "dir" | "file"
    pub kind: String,
    pub children: Vec<DirectoryNode>,
    pub size_bytes: Option<u64>,
}

/// Cache statistics; the size is kept in bytes, the presentation layer converts it.
#[derive(Debug, Clone)]
pub struct CacheStats {
    pub file_entries: u64,
    pub project_entries: u64,
    pub size_bytes: u64,
}

#[derive(Debug, Clone)]
pub struct AnalysisHistoryEntry {
    pub id: i64,
    pub project_path: String,
    /// "completed" | "cancelled" | "error"
    pub status: String,
    pub total_files: u64,
    pub analyzed_files: u64,
    pub cache_hits: u64,
    pub total_tokens: u64,
    pub duration_ms: u64,
    pub error_summary: Option<String>,
    pub started_at: String,
    pub finished_at: Option<String>,
}

#[derive(Debug, Clone)]
pub struct ExportedFile {
    /// "systemSpec" | "basicDesign" | "detailDesign"
    pub doc_type: String,
    pub path: String,
    pub source_file_path: Option<String>,
}

#[derive(Debug, Clone)]
pub struct ExportResult {
    pub output_dir: String,
    pub files: Vec<ExportedFile>,
}

#[derive(Debug, Clone)]
pub struct AnalysisResultSnapshot {
    pub project_result: ProjectAnalysisResult,
    pub file_results: Vec<FileAnalysisResult>,
}

#[derive(Debug, Clone)]
pub struct AnalysisSummary {
    pub total_files: u64,
    pub analyzed_files: u64,
    pub cache_hits: u64,
    pub total_tokens: u64,
    pub duration_ms: u64,
    pub status: String,
}

} // verus!
