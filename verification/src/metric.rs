//! The distance metric used to compare vectors.

use vstd::prelude::*;

verus! {

/// The metric used to measure distance (or similarity) between two vectors.
///
/// Which metric is valid depends on how the vectors were produced — cosine and
/// dot product suit normalized embeddings, the geometric metrics suit raw
/// coordinates, and Hamming suits binary codes. The engine selects the matching
/// comparison from this tag.
#[non_exhaustive]
#[derive(Debug, Clone, Copy, PartialEq, Eq, Hash, Structural)]
pub enum DistanceMetric {
    /// Cosine distance — the angle between vectors, ignoring magnitude.
    Cosine,
    /// Dot-product similarity — magnitude-sensitive inner product.
    DotProduct,
    /// Euclidean (L2) distance — straight-line distance between coordinates.
    Euclidean,
    /// Manhattan (L1) distance — sum of absolute per-component differences.
    Manhattan,
    /// Hamming distance — count of differing positions.
    Hamming,
}

} // verus!
