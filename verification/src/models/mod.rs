//! Shared data types of the analysis pipeline.
pub mod analysis;
pub mod config;
pub mod constants;
pub mod error;
