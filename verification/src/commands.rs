//! What the commands of the desktop frontend answer.
use crate::models::error::AppResult;
use vstd::prelude::*;

verus! {

#[derive(Debug, Clone)]
pub struct AuthStatusResponse {
    pub authenticated: bool,
}

#[derive(Debug, Clone)]
pub struct SaveCredentialsResponse {
    pub success: bool,
}

#[derive(Debug, Clone)]
pub struct TestConnectionResponse {
    pub ok: bool,
    pub message: String,
}

/// The answer to a connection test: the sidecar's message when the test went through,
/// else the error's text. A failed test is an answer, not an error.
pub fn test_connection_response(outcome: AppResult<String>) -> (r: TestConnectionResponse)
    ensures
        match outcome {
            Ok(m) => r.ok && r.message == m,
            Err(e) => !r.ok && r.message@ == e.category_view() + e.message_view(),
        },
{
    match outcome {
        Ok(message) => TestConnectionResponse { ok: true, message },
        Err(e) => TestConnectionResponse { ok: false, message: e.describe() },
    }
}

} // verus!
