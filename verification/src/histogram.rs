//! The histogram: bin edges and bin values.

use crate::array::IntArray;
use vstd::prelude::*;

verus! {

/// A piecewise-constant histogram. Bin `i` spans `edges[i]` to
/// `edges[i + 1]` and has the value `bins[i]`.
#[derive(Clone, Debug)]
pub struct Histogram {
    pub edges: IntArray,
    pub bins: IntArray,
}

/// There is one more edge than there are bins, or there is neither.
pub open spec fn well_shaped(edges: Seq<i64>, bins: Seq<i64>) -> bool {
    edges.len() == bins.len() + 1 || (edges.len() == 0 && bins.len() == 0)
}

/// The edges never decrease.
pub open spec fn ascending(edges: Seq<i64>) -> bool {
    forall|i: int| 0 <= i < edges.len() - 1 ==> #[trigger] edges[i] <= edges[i + 1]
}

/// Whether `n_edges` edges and `n_bins` bins fit together.
pub fn shape_fits(n_edges: usize, n_bins: usize) -> (b: bool)
    ensures
        b == (n_edges == n_bins + 1 || (n_edges == 0 && n_bins == 0)),
{
    if n_edges == 0 {
        n_bins == 0
    } else {
        n_edges - 1 == n_bins
    }
}

impl Histogram {
    /// A histogram is valid when it is well shaped and its edges ascend.
    pub open spec fn valid(&self) -> bool {
        well_shaped(self.edges@, self.bins@) && ascending(self.edges@)
    }

    /// Builds a histogram from its edges and bin values, unchecked.
    pub fn from_vecs(edges: Vec<i64>, bins: Vec<i64>) -> (h: Histogram)
        ensures
            h.edges@ == edges@,
            h.bins@ == bins@,
    {
        Histogram { edges: IntArray::from_vec(edges), bins: IntArray::from_vec(bins) }
    }

    /// Whether the numbers of edges and bins fit together.
    pub fn is_well_shaped(&self) -> (b: bool)
        ensures
            b == well_shaped(self.edges@, self.bins@),
    {
        shape_fits(self.edges.len(), self.bins.len())
    }

    /// Whether the histogram is valid: well shaped, with ascending edges.
    pub fn is_valid(&self) -> (b: bool)
        ensures
            b == self.valid(),
    {
        if !self.is_well_shaped() {
            return false;
        }
        let n: usize = self.edges.len();
        if n == 0 {
            return true;
        }
        let mut i: usize = 0;
        while i < n - 1
            invariant
                n == self.edges@.len(),
                n > 0,
                i <= n - 1,
                forall|j: int| 0 <= j < i ==> #[trigger] self.edges@[j] <= self.edges@[j + 1],
            decreases n - i,
        {
            if self.edges.get(i) > self.edges.get(i + 1) {
                return false;
            }
            i = i + 1;
        }
        true
    }
}

} // verus!
