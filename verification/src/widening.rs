//! How the integral changes when the range is widened. A bin gains where
//! more of it is covered. The one way to lose is a bin that holds the lower
//! bound of the narrow range and only the upper bound of the wide one.

use crate::coverage::lemma_ascending_ordered;
use crate::histogram::ascending;
use crate::integrate::integral_of;
use crate::overlap::{overlap_of, Overlap};
use crate::sum::{lemma_integral_is_sum_of_bins, scaled_bin, scaled_sum};
use vstd::prelude::*;

verus! {

/// The bin holds the lower bound of the narrow range but only the upper
/// bound of the wide one, and less of it lies below the wide upper bound
/// than above the narrow lower bound: its weight is lower for the wide range.
pub open spec fn loses_weight(
    bin_lo: int,
    bin_hi: int,
    low: int,
    high: int,
    wide_low: int,
    wide_high: int,
) -> bool {
    &&& overlap_of(bin_lo, bin_hi, low, high) == Overlap::LowerCut
    &&& overlap_of(bin_lo, bin_hi, wide_low, wide_high) == Overlap::UpperCut
    &&& wide_high - bin_lo < bin_hi - low
}

/// `scale` times what a bin that loses weight loses: its value times the
/// covered width that is gone, over the width of the bin. Zero for any other
/// bin.
pub open spec fn scaled_loss(
    bin_lo: int,
    bin_hi: int,
    value: int,
    low: int,
    high: int,
    wide_low: int,
    wide_high: int,
    scale: int,
) -> int {
    if loses_weight(bin_lo, bin_hi, low, high, wide_low, wide_high) {
        value * (((bin_hi - low) - (wide_high - bin_lo)) * (scale / (bin_hi - bin_lo)))
    } else {
        0
    }
}

/// `scale` times what a bin that does not lose weight adds to the integral
/// when the range is widened. Zero for a bin that loses weight.
pub open spec fn scaled_gain(
    bin_lo: int,
    bin_hi: int,
    value: int,
    low: int,
    high: int,
    wide_low: int,
    wide_high: int,
    scale: int,
) -> int {
    if loses_weight(bin_lo, bin_hi, low, high, wide_low, wide_high) {
        0
    } else {
        scaled_bin(bin_lo, bin_hi, value, wide_low, wide_high, scale) - scaled_bin(
            bin_lo,
            bin_hi,
            value,
            low,
            high,
            scale,
        )
    }
}

/// The losses of the first `n` bins together.
pub open spec fn total_loss(
    edges: Seq<i64>,
    bins: Seq<i64>,
    low: int,
    high: int,
    wide_low: int,
    wide_high: int,
    scale: int,
    n: nat,
) -> int
    decreases n,
{
    if n == 0 {
        0
    } else {
        total_loss(edges, bins, low, high, wide_low, wide_high, scale, (n - 1) as nat)
            + scaled_loss(
            edges[n - 1] as int,
            edges[n as int] as int,
            bins[n - 1] as int,
            low,
            high,
            wide_low,
            wide_high,
            scale,
        )
    }
}

/// The gains of the first `n` bins together.
pub open spec fn total_gain(
    edges: Seq<i64>,
    bins: Seq<i64>,
    low: int,
    high: int,
    wide_low: int,
    wide_high: int,
    scale: int,
    n: nat,
) -> int
    decreases n,
{
    if n == 0 {
        0
    } else {
        total_gain(edges, bins, low, high, wide_low, wide_high, scale, (n - 1) as nat)
            + scaled_gain(
            edges[n - 1] as int,
            edges[n as int] as int,
            bins[n - 1] as int,
            low,
            high,
            wide_low,
            wide_high,
            scale,
        )
    }
}

/// The length of the part of the bin that counts for the range.
spec fn covered_width(bin_lo: int, bin_hi: int, low: int, high: int) -> int {
    match overlap_of(bin_lo, bin_hi, low, high) {
        Overlap::Full => bin_hi - bin_lo,
        Overlap::LowerCut => bin_hi - low,
        Overlap::UpperCut => high - bin_lo,
        Overlap::Outside => 0,
    }
}

/// The scaled share of a bin that is not fully covered is its value times
/// the covered width times `scale / width`.
proof fn lemma_scaled_bin_by_width(
    bin_lo: int,
    bin_hi: int,
    value: int,
    low: int,
    high: int,
    scale: int,
)
    requires
        overlap_of(bin_lo, bin_hi, low, high) != Overlap::Full,
    ensures
        scaled_bin(bin_lo, bin_hi, value, low, high, scale) == value * (covered_width(
            bin_lo,
            bin_hi,
            low,
            high,
        ) * (scale / (bin_hi - bin_lo))),
{
    let q = scale / (bin_hi - bin_lo);
    if overlap_of(bin_lo, bin_hi, low, high) == Overlap::Outside {
        assert(value * (0 * q) == 0) by (nonlinear_arith);
    }
}

/// A bin whose value is not negative and which does not lose weight has at
/// least the share for the wide range that it has for the narrow one.
proof fn lemma_share_grows(
    bin_lo: int,
    bin_hi: int,
    value: int,
    low: int,
    high: int,
    wide_low: int,
    wide_high: int,
    scale: int,
)
    requires
        value >= 0,
        wide_low <= low <= high <= wide_high,
        scale > 0,
        !loses_weight(bin_lo, bin_hi, low, high, wide_low, wide_high),
    ensures
        scaled_bin(bin_lo, bin_hi, value, low, high, scale) <= scaled_bin(
            bin_lo,
            bin_hi,
            value,
            wide_low,
            wide_high,
            scale,
        ),
{
    let before = overlap_of(bin_lo, bin_hi, low, high);
    let after = overlap_of(bin_lo, bin_hi, wide_low, wide_high);
    let w = bin_hi - bin_lo;
    let q = scale / w;
    let narrow = covered_width(bin_lo, bin_hi, low, high);
    let wide = covered_width(bin_lo, bin_hi, wide_low, wide_high);
    if before == Overlap::Full {
        assert(after == Overlap::Full);
    } else if bin_lo >= bin_hi {
        assert(before == Overlap::Outside);
        lemma_scaled_bin_by_width(bin_lo, bin_hi, value, low, high, scale);
        assert(value * (0 * q) == 0) by (nonlinear_arith);
        if after == Overlap::Full {
            assert(0 <= value * scale) by (nonlinear_arith)
                requires
                    value >= 0,
                    scale > 0,
            ;
        } else {
            assert(after == Overlap::Outside);
        }
    } else {
        lemma_scaled_bin_by_width(bin_lo, bin_hi, value, low, high, scale);
        vstd::arithmetic::div_mod::lemma_fundamental_div_mod(scale, w);
        vstd::arithmetic::div_mod::lemma_div_pos_is_pos(scale, w);
        assert(0 <= narrow <= w);
        if after == Overlap::Full {
            assert(value * (narrow * q) <= value * scale) by (nonlinear_arith)
                requires
                    value >= 0,
                    q >= 0,
                    0 <= narrow <= w,
                    w * q <= scale,
            ;
        } else {
            lemma_scaled_bin_by_width(bin_lo, bin_hi, value, wide_low, wide_high, scale);
            assert(narrow <= wide);
            assert(value * (narrow * q) <= value * (wide * q)) by (nonlinear_arith)
                requires
                    value >= 0,
                    q >= 0,
                    narrow <= wide,
            ;
        }
    }
}

/// For one bin, the share for the wide range is the share for the narrow
/// range plus the bin's gain minus its loss, whatever the bin and the
/// ranges.
pub proof fn lemma_bin_difference(
    bin_lo: int,
    bin_hi: int,
    value: int,
    low: int,
    high: int,
    wide_low: int,
    wide_high: int,
    scale: int,
)
    ensures
        scaled_bin(bin_lo, bin_hi, value, wide_low, wide_high, scale) - scaled_bin(
            bin_lo,
            bin_hi,
            value,
            low,
            high,
            scale,
        ) == scaled_gain(bin_lo, bin_hi, value, low, high, wide_low, wide_high, scale)
            - scaled_loss(bin_lo, bin_hi, value, low, high, wide_low, wide_high, scale),
{
    if loses_weight(bin_lo, bin_hi, low, high, wide_low, wide_high) {
        let q = scale / (bin_hi - bin_lo);
        let a = bin_hi - low;
        let b = wide_high - bin_lo;
        lemma_scaled_bin_by_width(bin_lo, bin_hi, value, low, high, scale);
        lemma_scaled_bin_by_width(bin_lo, bin_hi, value, wide_low, wide_high, scale);
        assert(value * (b * q) - value * (a * q) == 0 - value * ((a - b) * q))
            by (nonlinear_arith);
    }
}

/// For a bin whose value is not negative, and a range widened on either
/// side, neither the gain nor the loss is negative.
pub proof fn lemma_bin_gain_and_loss(
    bin_lo: int,
    bin_hi: int,
    value: int,
    low: int,
    high: int,
    wide_low: int,
    wide_high: int,
    scale: int,
)
    requires
        value >= 0,
        wide_low <= low <= high <= wide_high,
        scale > 0,
    ensures
        scaled_gain(bin_lo, bin_hi, value, low, high, wide_low, wide_high, scale) >= 0,
        scaled_loss(bin_lo, bin_hi, value, low, high, wide_low, wide_high, scale) >= 0,
{
    if loses_weight(bin_lo, bin_hi, low, high, wide_low, wide_high) {
        let w = bin_hi - bin_lo;
        let q = scale / w;
        let gone = (bin_hi - low) - (wide_high - bin_lo);
        assert(w > 0);
        vstd::arithmetic::div_mod::lemma_div_pos_is_pos(scale, w);
        assert(value * (gone * q) >= 0) by (nonlinear_arith)
            requires
                value >= 0,
                gone > 0,
                q >= 0,
        ;
    } else {
        lemma_share_grows(bin_lo, bin_hi, value, low, high, wide_low, wide_high, scale);
    }
}

proof fn lemma_prefix_difference(
    edges: Seq<i64>,
    bins: Seq<i64>,
    low: int,
    high: int,
    wide_low: int,
    wide_high: int,
    scale: int,
    n: nat,
)
    ensures
        scaled_sum(edges, bins, wide_low, wide_high, scale, n) - scaled_sum(
            edges,
            bins,
            low,
            high,
            scale,
            n,
        ) == total_gain(edges, bins, low, high, wide_low, wide_high, scale, n) - total_loss(
            edges,
            bins,
            low,
            high,
            wide_low,
            wide_high,
            scale,
            n,
        ),
    decreases n,
{
    if n > 0 {
        lemma_prefix_difference(
            edges,
            bins,
            low,
            high,
            wide_low,
            wide_high,
            scale,
            (n - 1) as nat,
        );
        lemma_bin_difference(
            edges[n - 1] as int,
            edges[n as int] as int,
            bins[n - 1] as int,
            low,
            high,
            wide_low,
            wide_high,
            scale,
        );
    }
}

proof fn lemma_prefix_gain_and_loss(
    edges: Seq<i64>,
    bins: Seq<i64>,
    low: int,
    high: int,
    wide_low: int,
    wide_high: int,
    scale: int,
    n: nat,
)
    requires
        n <= bins.len(),
        forall|i: int| 0 <= i < bins.len() ==> #[trigger] bins[i] >= 0,
        wide_low <= low <= high <= wide_high,
        scale > 0,
    ensures
        total_gain(edges, bins, low, high, wide_low, wide_high, scale, n) >= 0,
        total_loss(edges, bins, low, high, wide_low, wide_high, scale, n) >= 0,
        wide_low == low ==> total_loss(edges, bins, low, high, wide_low, wide_high, scale, n)
            == 0,
    decreases n,
{
    if n > 0 {
        lemma_prefix_gain_and_loss(
            edges,
            bins,
            low,
            high,
            wide_low,
            wide_high,
            scale,
            (n - 1) as nat,
        );
        assert(bins[n - 1] >= 0);
        lemma_bin_gain_and_loss(
            edges[n - 1] as int,
            edges[n as int] as int,
            bins[n - 1] as int,
            low,
            high,
            wide_low,
            wide_high,
            scale,
        );
    }
}

/// The integral over the wide range is the integral over the narrow range
/// plus the gains of all bins minus their losses, both integrals taken times
/// `scale`. This holds of every histogram and every two ranges.
pub proof fn lemma_widening_difference(
    edges: Seq<i64>,
    bins: Seq<i64>,
    low: int,
    high: int,
    wide_low: int,
    wide_high: int,
    scale: int,
)
    ensures
        integral_of(edges, bins, wide_low, wide_high).scaled(scale) - integral_of(
            edges,
            bins,
            low,
            high,
        ).scaled(scale) == total_gain(
            edges,
            bins,
            low,
            high,
            wide_low,
            wide_high,
            scale,
            bins.len(),
        ) - total_loss(edges, bins, low, high, wide_low, wide_high, scale, bins.len()),
{
    lemma_integral_is_sum_of_bins(edges, bins, low, high, scale);
    lemma_integral_is_sum_of_bins(edges, bins, wide_low, wide_high, scale);
    lemma_prefix_difference(edges, bins, low, high, wide_low, wide_high, scale, bins.len());
}

/// For a histogram with no negative bin and a range widened on either side,
/// neither the gains nor the losses are negative, and the integral over the
/// wide range is at least the integral over the narrow one exactly when the
/// losses are at most the gains. Both integrals are taken times `scale`,
/// for any positive `scale`.
pub proof fn lemma_widening_never_decreases(
    edges: Seq<i64>,
    bins: Seq<i64>,
    low: int,
    high: int,
    wide_low: int,
    wide_high: int,
    scale: int,
)
    requires
        edges.len() == bins.len() + 1,
        forall|i: int| 0 <= i < bins.len() ==> #[trigger] bins[i] >= 0,
        wide_low <= low <= high <= wide_high,
        scale > 0,
    ensures
        total_gain(edges, bins, low, high, wide_low, wide_high, scale, bins.len()) >= 0,
        total_loss(edges, bins, low, high, wide_low, wide_high, scale, bins.len()) >= 0,
        total_loss(edges, bins, low, high, wide_low, wide_high, scale, bins.len()) <= total_gain(
            edges,
            bins,
            low,
            high,
            wide_low,
            wide_high,
            scale,
            bins.len(),
        ) <==> integral_of(edges, bins, low, high).scaled(scale) <= integral_of(
            edges,
            bins,
            wide_low,
            wide_high,
        ).scaled(scale),
{
    lemma_widening_difference(edges, bins, low, high, wide_low, wide_high, scale);
    lemma_prefix_gain_and_loss(edges, bins, low, high, wide_low, wide_high, scale, bins.len());
}

/// With ascending edges at most one bin loses weight: the one that holds
/// the narrow range.
pub proof fn lemma_one_bin_loses(
    edges: Seq<i64>,
    low: int,
    high: int,
    wide_low: int,
    wide_high: int,
    i: int,
    j: int,
)
    requires
        ascending(edges),
        0 <= i < j < edges.len() - 1,
        low <= high <= wide_high,
        loses_weight(edges[i] as int, edges[i + 1] as int, low, high, wide_low, wide_high),
    ensures
        !loses_weight(edges[j] as int, edges[j + 1] as int, low, high, wide_low, wide_high),
        edges[i] <= low <= high < edges[i + 1],
{
    lemma_ascending_ordered(edges, i + 1, j);
}

/// For a histogram with no negative bin, raising the upper bound of the
/// range never lowers the integral: no bin loses weight.
pub proof fn lemma_raising_upper_bound_never_decreases(
    edges: Seq<i64>,
    bins: Seq<i64>,
    low: int,
    high: int,
    wide_high: int,
    scale: int,
)
    requires
        edges.len() == bins.len() + 1,
        forall|i: int| 0 <= i < bins.len() ==> #[trigger] bins[i] >= 0,
        low <= high <= wide_high,
        scale > 0,
    ensures
        integral_of(edges, bins, low, high).scaled(scale) <= integral_of(
            edges,
            bins,
            low,
            wide_high,
        ).scaled(scale),
{
    lemma_widening_difference(edges, bins, low, high, low, wide_high, scale);
    lemma_prefix_gain_and_loss(edges, bins, low, high, low, wide_high, scale, bins.len());
}

} // verus!
