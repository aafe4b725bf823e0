//! Analysis domain logic.
pub mod ai_analyzer;
pub mod doc_generator;
pub mod orchestrator;
pub mod rpa_analyzer;
pub mod scanner;
pub mod static_analyzer;
pub mod vba_analyzer;
