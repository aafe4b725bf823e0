//! Default output locations (below the project folder).
use vstd::prelude::*;

verus! {

pub const DEFAULT_OUTPUT_DIR_NAME: &'static str = "projectlens-docs";
pub const SYSTEM_SPEC_FILENAME: &'static str = "system-spec";
pub const BASIC_DESIGN_FILENAME: &'static str = "basic-design";
pub const DETAIL_DESIGN_SUBDIR: &'static str = "detail";

} // verus!
