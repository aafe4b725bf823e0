//! Identifiers in the OS credential store.
use vstd::prelude::*;

verus! {

pub const SERVICE_NAME: &'static str = "ProjectLens";
pub const NEWTONX_PAT_ENTRY: &'static str = "newtonx_pat";

} // verus!
