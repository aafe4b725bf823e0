//! String constants shared across the application.
pub mod credential_store;
pub mod db_metadata_keys;
pub mod doc_types;
pub mod error_categories;
pub mod events;
pub mod export_paths;
pub mod macro_tools;
pub mod newtonx_rpc;
pub mod phases;
pub mod rpa_tools;
pub mod tables;

use vstd::prelude::*;

verus! {

/// Current database schema version.
pub const CURRENT_SCHEMA_VERSION: &'static str = "1";

/// Version of the code analysis prompts (part of the cache key).
pub const PROMPT_VERSION: &'static str = "1.1.0";

/// Version of the RPA analysis prompt, kept apart so code prompt changes keep RPA cache entries.
pub const RPA_PROMPT_VERSION: &'static str = "1.0.0";

/// Version of the VBA analysis prompt.
pub const VBA_PROMPT_VERSION: &'static str = "1.0.0";

/// Folder of the analysis chats on the AI service.
pub const NEWTONX_CHAT_FOLDER_NAME: &'static str = "ProjectLens";

} // verus!
