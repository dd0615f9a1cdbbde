//! Verified core of the constellation contract tooling: routing-spine
//! validation, manifest policy checks, phase gating, audits and lints.
#![allow(non_snake_case)]
#![allow(non_camel_case_types)]

use vstd::prelude::*;

pub mod text;
pub mod routing;
pub mod director;
pub mod json;
pub mod hashing;
pub mod reachability;
pub mod energy;
pub mod schema_compression;
pub mod compression;
pub mod audit;
pub mod file_lint;
pub mod indexer;

verus! {

} // verus!
