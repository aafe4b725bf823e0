//! Names of the analysis phases.
use vstd::prelude::*;

verus! {

pub const SCAN: &'static str = "scan";
pub const STATIC: &'static str = "static";
pub const AI: &'static str = "ai";
pub const DOC_GEN: &'static str = "doc_gen";

} // verus!
