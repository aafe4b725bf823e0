//! Method names of the AI sidecar protocol.
use vstd::prelude::*;

verus! {

pub const AUTH_STATUS: &'static str = "auth.status";
pub const AUTH_SAVE_CREDENTIALS: &'static str = "auth.save_credentials";
pub const AUTH_CLEAR_CREDENTIALS: &'static str = "auth.clear_credentials";
pub const AI_TEST: &'static str = "ai.test";
pub const AI_ANALYZE: &'static str = "ai.analyze";
pub const SESSION_OPEN: &'static str = "session.open";
pub const SESSION_CLOSE: &'static str = "session.close";
pub const ASSISTANTS_LIST: &'static str = "assistants.list";

} // verus!
