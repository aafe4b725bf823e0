//! SQLite table names.
use vstd::prelude::*;

verus! {

pub const FILE_ANALYSIS_CACHE: &'static str = "file_analysis_cache";
pub const PROJECT_ANALYSIS_CACHE: &'static str = "project_analysis_cache";
pub const ANALYSIS_HISTORY: &'static str = "analysis_history";
pub const DB_METADATA: &'static str = "db_metadata";

} // verus!
