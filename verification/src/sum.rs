//! The integral as a sum over the bins.

use crate::integrate::{cut_terms, integral_of, scaled_cuts, scaled_term, whole_part, TermModel};
use crate::overlap::{fraction_of, overlap_of, Overlap};
use vstd::prelude::*;

verus! {

/// `scale` times what one bin adds to the integral.
pub open spec fn scaled_bin(bin_lo: int, bin_hi: int, value: int, low: int, high: int, scale: int) -> int {
    match overlap_of(bin_lo, bin_hi, low, high) {
        Overlap::Full => value * scale,
        Overlap::LowerCut | Overlap::UpperCut => scaled_term(
            TermModel { value, fraction: fraction_of(bin_lo, bin_hi, low, high) },
            scale,
        ),
        Overlap::Outside => 0,
    }
}

/// `scale` times the integral over the first `n` bins.
spec fn scaled_prefix(
    edges: Seq<i64>,
    bins: Seq<i64>,
    low: int,
    high: int,
    scale: int,
    n: nat,
) -> int {
    whole_part(edges, bins, low, high, n) * scale + scaled_cuts(
        cut_terms(edges, bins, low, high, n),
        scale,
    )
}

/// `scale` times the sum over the first `n` bins of the bin's value times
/// its weight.
pub open spec fn scaled_sum(
    edges: Seq<i64>,
    bins: Seq<i64>,
    low: int,
    high: int,
    scale: int,
    n: nat,
) -> int
    decreases n,
{
    if n == 0 {
        0
    } else {
        scaled_sum(edges, bins, low, high, scale, (n - 1) as nat) + scaled_bin(
            edges[n - 1] as int,
            edges[n as int] as int,
            bins[n - 1] as int,
            low,
            high,
            scale,
        )
    }
}

/// One more bin adds its own share to the scaled integral.
proof fn lemma_prefix_step(
    edges: Seq<i64>,
    bins: Seq<i64>,
    low: int,
    high: int,
    scale: int,
    n: nat,
)
    ensures
        scaled_prefix(edges, bins, low, high, scale, n + 1) == scaled_prefix(
            edges,
            bins,
            low,
            high,
            scale,
            n,
        ) + scaled_bin(edges[n as int] as int, edges[n as int + 1] as int, bins[n as int] as int, low, high, scale),
{
    let i = n as int;
    let rest = cut_terms(edges, bins, low, high, n);
    let whole = whole_part(edges, bins, low, high, n);
    let value = bins[i] as int;
    assert((n + 1) as nat - 1 == i);
    match overlap_of(edges[i] as int, edges[i + 1] as int, low, high) {
        Overlap::Full => {
            assert((whole + value) * scale == whole * scale + value * scale)
                by (nonlinear_arith);
        },
        Overlap::LowerCut | Overlap::UpperCut => {
            let t = TermModel {
                value: value,
                fraction: fraction_of(edges[i] as int, edges[i + 1] as int, low, high),
            };
            assert(rest.push(t).drop_last() =~= rest);
            assert(rest.push(t).last() == t);
        },
        Overlap::Outside => {},
    }
}

proof fn lemma_prefix_is_sum(
    edges: Seq<i64>,
    bins: Seq<i64>,
    low: int,
    high: int,
    scale: int,
    n: nat,
)
    ensures
        scaled_prefix(edges, bins, low, high, scale, n) == scaled_sum(
            edges,
            bins,
            low,
            high,
            scale,
            n,
        ),
    decreases n,
{
    if n == 0 {
        assert(scaled_prefix(edges, bins, low, high, scale, 0) == 0);
    } else {
        let i = (n - 1) as nat;
        lemma_prefix_is_sum(edges, bins, low, high, scale, i);
        lemma_prefix_step(edges, bins, low, high, scale, i);
    }
}

/// The integral is the sum over all bins, in ascending order, of the bin's
/// value times its weight: one for a fully covered bin, the cut fraction for
/// a cut bin, zero for a bin outside the range.
pub proof fn lemma_integral_is_sum_of_bins(
    edges: Seq<i64>,
    bins: Seq<i64>,
    low: int,
    high: int,
    scale: int,
)
    ensures
        integral_of(edges, bins, low, high).scaled(scale) == scaled_sum(
            edges,
            bins,
            low,
            high,
            scale,
            bins.len(),
        ),
{
    lemma_prefix_is_sum(edges, bins, low, high, scale, bins.len());
}

} // verus!
