//! Macro container identifiers.
use vstd::prelude::*;

verus! {

pub const EXCEL_VBA: &'static str = "excel_vba";

} // verus!
