//! The record of one analysis in the history. Storing and listing the records is the
//! application's (SQLite).
use crate::models::analysis::AnalysisSummary;
use crate::models::error::AppError;
use vstd::prelude::*;
use vstd::string::StringExecFns;

verus! {

#[derive(Debug, Clone)]
pub struct NewHistoryEntry {
    pub project_path: String,
    /// "completed" | "cancelled" | "error"
    pub status: String,
    pub total_files: u64,
    pub analyzed_files: u64,
    pub cache_hits: u64,
    pub total_tokens: u64,
    pub duration_ms: u64,
    pub error_summary: Option<String>,
    pub started_at: String,
    pub finished_at: String,
}

/// The history record of a completed analysis: its summary's counts.
pub fn completed_entry(project_path: String, summary: &AnalysisSummary, duration_ms: u64, started_at: String, finished_at: String) -> (e: NewHistoryEntry)
    ensures
        e.project_path == project_path,
        e.status@ == "completed"@,
        e.total_files == summary.total_files,
        e.analyzed_files == summary.analyzed_files,
        e.cache_hits == summary.cache_hits,
        e.total_tokens == summary.total_tokens,
        e.duration_ms == duration_ms,
        e.error_summary is None,
        e.started_at == started_at,
        e.finished_at == finished_at,
{
    NewHistoryEntry {
        project_path,
        status: String::from_str("completed"),
        total_files: summary.total_files,
        analyzed_files: summary.analyzed_files,
        cache_hits: summary.cache_hits,
        total_tokens: summary.total_tokens,
        duration_ms,
        error_summary: None,
        started_at,
        finished_at,
    }
}

/// The history record of an analysis that was cancelled or failed: no counts, the
/// error's text.
pub fn failed_entry(project_path: String, cancelled: bool, error: &AppError, duration_ms: u64, started_at: String, finished_at: String) -> (e: NewHistoryEntry)
    ensures
        e.project_path == project_path,
        e.status@ == if cancelled { "cancelled"@ } else { "error"@ },
        e.total_files == 0 && e.analyzed_files == 0 && e.cache_hits == 0 && e.total_tokens == 0,
        e.duration_ms == duration_ms,
        e.error_summary matches Some(s) && s@ == error.category_view() + error.message_view(),
        e.started_at == started_at,
        e.finished_at == finished_at,
{
    let status = if cancelled { String::from_str("cancelled") } else { String::from_str("error") };
    NewHistoryEntry {
        project_path,
        status,
        total_files: 0,
        analyzed_files: 0,
        cache_hits: 0,
        total_tokens: 0,
        duration_ms,
        error_summary: Some(error.describe()),
        started_at,
        finished_at,
    }
}

} // verus!
