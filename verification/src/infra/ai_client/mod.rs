//! The AI provider: the sidecar protocol and the retry strategy.
pub mod bridge;
pub mod retry;

use vstd::prelude::*;

verus! {

/// An assistant the user can pick.
#[derive(Debug, Clone)]
pub struct AssistantInfo {
    pub uid: String,
    pub name: String,
}

/// The outcome of a connection test as the sidecar judged it (not whether the request
/// itself went through).
#[derive(Debug, Clone)]
pub struct ConnectionTestResult {
    pub ok: bool,
    pub message: String,
}

} // verus!
