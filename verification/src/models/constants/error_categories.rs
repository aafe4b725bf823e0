//! Error categories (the tag of each  variant).
use vstd::prelude::*;

verus! {

pub const SCAN: &'static str = "scan";
pub const STATIC: &'static str = "static";
pub const AI: &'static str = "ai";
pub const CACHE: &'static str = "cache";
pub const EXPORT: &'static str = "export";
pub const CONFIG: &'static str = "config";

} // verus!
