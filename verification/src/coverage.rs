//! The integral over a range that covers a whole histogram, and over one
//! that misses it.

use crate::histogram::ascending;
use crate::integrate::{cut_terms, integral_of, whole_part, IntegralModel, TermModel};
use vstd::prelude::*;

verus! {

/// The sum of the first `n` bin values.
pub open spec fn bin_sum(bins: Seq<i64>, n: nat) -> int
    decreases n,
{
    if n == 0 {
        0
    } else {
        bin_sum(bins, (n - 1) as nat) + bins[n - 1]
    }
}

/// Ascending edges are ordered over any distance.
pub proof fn lemma_ascending_ordered(edges: Seq<i64>, i: int, j: int)
    requires
        ascending(edges),
        0 <= i <= j < edges.len(),
    ensures
        edges[i] <= edges[j],
    decreases j - i,
{
    if i < j {
        lemma_ascending_ordered(edges, i, j - 1);
        assert(edges[j - 1] <= edges[j - 1 + 1]);
    }
}

proof fn lemma_full_coverage_prefix(edges: Seq<i64>, bins: Seq<i64>, low: int, high: int, n: nat)
    requires
        edges.len() == bins.len() + 1,
        ascending(edges),
        low <= edges[0],
        edges[edges.len() - 1] <= high,
        n <= bins.len(),
    ensures
        whole_part(edges, bins, low, high, n) == bin_sum(bins, n),
        cut_terms(edges, bins, low, high, n) == Seq::<TermModel>::empty(),
    decreases n,
{
    if n > 0 {
        let i = n - 1;
        lemma_full_coverage_prefix(edges, bins, low, high, i as nat);
        lemma_ascending_ordered(edges, 0, i);
        lemma_ascending_ordered(edges, i + 1, edges.len() - 1);
    }
}

proof fn lemma_disjoint_prefix(edges: Seq<i64>, bins: Seq<i64>, low: int, high: int, n: nat)
    requires
        edges.len() == bins.len() + 1,
        ascending(edges),
        low <= high,
        high < edges[0] || edges[edges.len() - 1] < low,
        n <= bins.len(),
    ensures
        whole_part(edges, bins, low, high, n) == 0,
        cut_terms(edges, bins, low, high, n) == Seq::<TermModel>::empty(),
    decreases n,
{
    if n > 0 {
        let i = n - 1;
        lemma_disjoint_prefix(edges, bins, low, high, i as nat);
        lemma_ascending_ordered(edges, 0, i);
        lemma_ascending_ordered(edges, i, i + 1);
        lemma_ascending_ordered(edges, i + 1, edges.len() - 1);
    }
}

/// Over a range that holds every edge of a histogram with ascending edges,
/// the integral is the sum of all bin values, and no bin is cut.
pub proof fn lemma_full_coverage(edges: Seq<i64>, bins: Seq<i64>, low: int, high: int)
    requires
        edges.len() == bins.len() + 1,
        ascending(edges),
        low <= edges[0],
        edges[edges.len() - 1] <= high,
    ensures
        integral_of(edges, bins, low, high) == (IntegralModel {
            whole: bin_sum(bins, bins.len()),
            cuts: Seq::empty(),
        }),
{
    lemma_full_coverage_prefix(edges, bins, low, high, bins.len());
}

/// Over a valid range that lies below the first edge or above the last edge
/// of a histogram with ascending edges, the integral is zero.
pub proof fn lemma_disjoint_range(edges: Seq<i64>, bins: Seq<i64>, low: int, high: int)
    requires
        edges.len() == bins.len() + 1,
        ascending(edges),
        low <= high,
        high < edges[0] || edges[edges.len() - 1] < low,
    ensures
        integral_of(edges, bins, low, high) == IntegralModel::zero(),
{
    lemma_disjoint_prefix(edges, bins, low, high, bins.len());
}

} // verus!
