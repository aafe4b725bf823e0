//! Keys of the metadata table.
use vstd::prelude::*;

verus! {

pub const SCHEMA_VERSION: &'static str = "schema_version";

} // verus!
