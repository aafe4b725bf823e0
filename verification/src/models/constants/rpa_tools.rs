//! RPA tool identifiers.
use vstd::prelude::*;

verus! {

pub const POWER_PLATFORM: &'static str = "powerplatform";
pub const PAD: &'static str = "pad";
pub const UIPATH: &'static str = "uipath";

} // verus!
