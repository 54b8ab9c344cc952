//! A single search result.

use vstd::prelude::*;
use vstd::std_specs::cmp::PartialEqSpecImpl;

use crate::id::VectorId;
use crate::ieee::{f32_bits_eq, f32_eq};
use crate::metadata::{entries_eq, Metadata};

verus! {

/// One result of a similarity search: a matched record and its distance.
///
/// `id` identifies the matched vector, `distance` is its distance from the
/// query under the search's metric (smaller is nearer), held as the bit
/// pattern of its `f32`, and `metadata` is the record's metadata when the
/// engine was asked to return it. Build a bare hit with [`Hit::new`] and
/// attach metadata by setting the field.
#[derive(Debug)]
pub struct Hit {
    /// The identifier of the matched vector.
    pub id: VectorId,
    /// The distance from the query under the search's metric (smaller is
    /// nearer), as the bit pattern of an `f32`.
    pub distance: u32,
    /// The record's metadata, when the search was asked to return it.
    pub metadata: Option<Metadata>,
}

/// Equality of hits: the same id, IEEE-equal distances, and equal metadata
/// (or none on both).
pub open spec fn hit_eq(a: Hit, b: Hit) -> bool {
    &&& a.id.same_as(b.id)
    &&& f32_eq(a.distance, b.distance)
    &&& match (a.metadata, b.metadata) {
        (None, None) => true,
        (Some(x), Some(y)) => entries_eq(x@, y@),
        _ => false,
    }
}

impl Hit {
    /// Creates a hit for `id` at `distance`, with no metadata attached.
    pub fn new(id: VectorId, distance: u32) -> (h: Self)
        ensures
            h.id == id,
            h.distance == distance,
            h.metadata is None,
    {
        Hit { id, distance, metadata: None }
    }
}

impl Clone for Hit {
    fn clone(&self) -> (c: Self)
        ensures
            c.id.same_as(self.id),
            c.distance == self.distance,
            match (c.metadata, self.metadata) {
                (None, None) => true,
                (Some(x), Some(y)) => x@ == y@,
                _ => false,
            },
    {
        Hit {
            id: self.id.clone(),
            distance: self.distance,
            metadata: match &self.metadata {
                Some(m) => Some(m.clone()),
                None => None,
            },
        }
    }
}

impl PartialEq for Hit {
    fn eq(&self, other: &Self) -> (r: bool) {
        let same_metadata = match (&self.metadata, &other.metadata) {
            (None, None) => true,
            (Some(x), Some(y)) => *x == *y,
            _ => false,
        };
        self.id == other.id && f32_bits_eq(self.distance, other.distance) && same_metadata
    }
}

impl PartialEqSpecImpl for Hit {
    open spec fn obeys_eq_spec() -> bool {
        true
    }

    open spec fn eq_spec(&self, other: &Self) -> bool {
        hit_eq(*self, *other)
    }
}

} // verus!
