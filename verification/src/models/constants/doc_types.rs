//! Output document kinds.
use vstd::prelude::*;

verus! {

pub const SYSTEM_SPEC: &'static str = "systemSpec";
pub const BASIC_DESIGN: &'static str = "basicDesign";
pub const DETAIL_DESIGN: &'static str = "detailDesign";

} // verus!
