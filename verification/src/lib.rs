//! Verified core of a source-code / RPA / VBA project analyzer that produces
//! specification and design documents.
pub mod commands;
pub mod digest;
pub mod domain;
pub mod graph;
pub mod infra;
pub mod models;
pub mod paths;
pub mod state;
pub mod text;
