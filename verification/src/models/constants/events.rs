//! Event names of the analysis progress notifications.
use vstd::prelude::*;

verus! {

pub const PROGRESS: &'static str = "analysis://progress";
pub const PHASE_COMPLETE: &'static str = "analysis://phase-complete";
pub const FILE_COMPLETE: &'static str = "analysis://file-complete";
pub const ERROR: &'static str = "analysis://error";
pub const COMPLETE: &'static str = "analysis://complete";
pub const CANCELLED: &'static str = "analysis://cancelled";

} // verus!
