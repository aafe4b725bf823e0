//! What the application keeps between commands.
use crate::models::analysis::{FileAnalysisResult, ProjectAnalysisResult, RpaComponent, ScannedFile, StaticAnalysisResult, VbaComponent};
use vstd::prelude::*;

verus! {

/// The last analysis, kept for re-exporting until the application exits.
pub struct LastAnalysisData {
    pub project_result: ProjectAnalysisResult,
    pub static_results: Vec<StaticAnalysisResult>,
    pub file_results: Vec<FileAnalysisResult>,
    pub rpa_components: Vec<RpaComponent>,
    pub vba_components: Vec<VbaComponent>,
    pub scanned_files: Vec<ScannedFile>,
    pub project_path: String,
}

} // verus!
