//! Shared, dependency-light public types for the iqdb vector-database spine:
//! the vectors that get indexed, the ids that name them, the metadata attached
//! to them, the metrics that compare them, the parameters and filters of a
//! search, the hits it returns, and the one domain error that ties them
//! together.
//!
//! Floating-point components are carried as their IEEE-754 bit patterns
//! (`u32` for `f32`, `u64` for `f64`), so every rule about them — finiteness,
//! equality, ordering — is stated and proved over integers.

pub mod error;
pub mod filter;
pub mod hit;
pub mod id;
pub mod ieee;
pub mod keys;
pub mod metadata;
pub mod metric;
pub mod render;
pub mod search;
pub mod vector;

pub use crate::error::{IqdbError, Result};
pub use crate::filter::Filter;
pub use crate::hit::Hit;
pub use crate::id::VectorId;
pub use crate::metadata::{Metadata, Value};
pub use crate::metric::DistanceMetric;
pub use crate::search::SearchParams;
pub use crate::vector::{Vector, VectorRef};

use vstd::prelude::*;

verus! {

/// The version of this crate, as recorded in its `Cargo.toml`.
///
/// Exposed so a consumer can report the exact build it links against —
/// useful in diagnostics and version-skew checks across the iqdb crate
/// family.
pub const VERSION: &'static str = "1.0.0";

} // verus!
