//! Parameters for a similarity search.

use vstd::prelude::*;
use vstd::std_specs::cmp::PartialEqSpecImpl;

use crate::filter::{filter_eq, same_filter, Filter};
use crate::metric::DistanceMetric;

verus! {

/// The parameters of a nearest-neighbor search.
///
/// `k` is how many results to return, `metric` is how distance is measured,
/// `ef` is an optional search-breadth knob (the candidate-list size some
/// approximate indexes expose; ignored by exact search), and `filter` is an
/// optional metadata predicate restricting which records are eligible. Start
/// from [`SearchParams::new`] and set the optional fields as needed.
#[derive(Debug)]
pub struct SearchParams {
    /// The number of nearest neighbors to return.
    pub k: usize,
    /// Optional search breadth (candidate-list size) for approximate indexes;
    /// `None` lets the engine choose, and exact search ignores it.
    pub ef: Option<usize>,
    /// The distance metric used to rank candidates.
    pub metric: DistanceMetric,
    /// Optional metadata predicate restricting which records are eligible.
    pub filter: Option<Filter>,
}

/// Equality of search parameters: field by field, filters by [`filter_eq`].
pub open spec fn params_eq(a: SearchParams, b: SearchParams) -> bool {
    &&& a.k == b.k
    &&& a.ef == b.ef
    &&& a.metric == b.metric
    &&& match (a.filter, b.filter) {
        (None, None) => true,
        (Some(x), Some(y)) => filter_eq(x, y),
        _ => false,
    }
}

impl SearchParams {
    /// Creates parameters for a top-`k` search under `metric`, with no search
    /// breadth and no filter.
    pub fn new(k: usize, metric: DistanceMetric) -> (p: Self)
        ensures
            p.k == k,
            p.ef is None,
            p.metric == metric,
            p.filter is None,
    {
        SearchParams { k, ef: None, metric, filter: None }
    }
}

impl Clone for SearchParams {
    fn clone(&self) -> (c: Self)
        ensures
            c.k == self.k,
            c.ef == self.ef,
            c.metric == self.metric,
            match (c.filter, self.filter) {
                (None, None) => true,
                (Some(x), Some(y)) => same_filter(x, y),
                _ => false,
            },
    {
        SearchParams {
            k: self.k,
            ef: self.ef,
            metric: self.metric,
            filter: match &self.filter {
                Some(f) => Some(f.clone()),
                None => None,
            },
        }
    }
}

impl PartialEq for SearchParams {
    fn eq(&self, other: &Self) -> (r: bool) {
        let same_filter = match (&self.filter, &other.filter) {
            (None, None) => true,
            (Some(x), Some(y)) => *x == *y,
            _ => false,
        };
        self.k == other.k && self.ef == other.ef && self.metric == other.metric && same_filter
    }
}

impl PartialEqSpecImpl for SearchParams {
    open spec fn obeys_eq_spec() -> bool {
        true
    }

    open spec fn eq_spec(&self, other: &Self) -> bool {
        params_eq(*self, *other)
    }
}

} // verus!
