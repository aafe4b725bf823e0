//! Decisions of the infrastructure layer: the AI sidecar protocol and retries, the cache,
//! the settings file and the history. The I/O itself is performed by the application.
pub mod ai_client;
pub mod cache_repo;
pub mod config_store;
pub mod history_repo;
