//! How much of one bin a query range covers.

use vstd::prelude::*;

verus! {

/// The position of a bin relative to a closed query range.
#[derive(Clone, Copy, Debug, PartialEq, Eq, Structural)]
pub enum Overlap {
    /// The range contains the whole bin.
    Full,
    /// The lower bound of the range lies within the bin.
    LowerCut,
    /// The upper bound of the range lies within the bin.
    UpperCut,
    /// The bin contributes nothing.
    Outside,
}

/// A fraction `num / den` of a bin's width.
#[derive(Clone, Copy, Debug, PartialEq, Eq, Structural)]
pub struct Fraction {
    pub num: i128,
    pub den: i128,
}

/// The mathematical value of a [`Fraction`].
pub struct Ratio {
    pub num: int,
    pub den: int,
}

impl View for Fraction {
    type V = Ratio;

    open spec fn view(&self) -> Ratio {
        Ratio { num: self.num as int, den: self.den as int }
    }
}

/// The case that decides a bin's weight. The cases are tried in the order
/// written: a bin that holds both bounds of the range is a `LowerCut`.
pub open spec fn overlap_of(bin_lo: int, bin_hi: int, low: int, high: int) -> Overlap {
    if low <= bin_lo && bin_hi <= high {
        Overlap::Full
    } else if bin_lo <= low && low <= bin_hi {
        Overlap::LowerCut
    } else if bin_lo <= high && high <= bin_hi {
        Overlap::UpperCut
    } else {
        Overlap::Outside
    }
}

/// The weight of a bin: one when fully covered, the part of its width above
/// `low` or below `high` when cut, zero otherwise.
pub open spec fn fraction_of(bin_lo: int, bin_hi: int, low: int, high: int) -> Ratio {
    match overlap_of(bin_lo, bin_hi, low, high) {
        Overlap::Full => Ratio { num: 1, den: 1 },
        Overlap::LowerCut => Ratio { num: bin_hi - low, den: bin_hi - bin_lo },
        Overlap::UpperCut => Ratio { num: high - bin_lo, den: bin_hi - bin_lo },
        Overlap::Outside => Ratio { num: 0, den: 1 },
    }
}

/// Classifies the bin `(bin_lo, bin_hi)` against the range `(low, high)`.
pub fn classify(bin_lo: i64, bin_hi: i64, low: i64, high: i64) -> (o: Overlap)
    ensures
        o == overlap_of(bin_lo as int, bin_hi as int, low as int, high as int),
{
    if low <= bin_lo && bin_hi <= high {
        Overlap::Full
    } else if bin_lo <= low && low <= bin_hi {
        Overlap::LowerCut
    } else if bin_lo <= high && high <= bin_hi {
        Overlap::UpperCut
    } else {
        Overlap::Outside
    }
}

/// The weight of the bin `(bin_lo, bin_hi)` for the range `(low, high)`, as
/// an exact fraction. It never exceeds one, and for a valid range the
/// denominator is positive.
pub fn overlap_fraction(bin_lo: i64, bin_hi: i64, low: i64, high: i64) -> (f: Fraction)
    ensures
        f@ == fraction_of(bin_lo as int, bin_hi as int, low as int, high as int),
        0 <= f.num <= f.den,
        low <= high ==> f.den > 0,
{
    let width: i128 = bin_hi as i128 - bin_lo as i128;
    match classify(bin_lo, bin_hi, low, high) {
        Overlap::Full => Fraction { num: 1, den: 1 },
        Overlap::LowerCut => Fraction { num: bin_hi as i128 - low as i128, den: width },
        Overlap::UpperCut => Fraction { num: high as i128 - bin_lo as i128, den: width },
        Overlap::Outside => Fraction { num: 0, den: 1 },
    }
}

/// Whatever the bin, the weight is a fraction between zero and one:
/// `0 <= num <= den`. For a valid range the denominator is positive, so the
/// weight is defined.
pub proof fn lemma_fraction_in_unit_interval(bin_lo: int, bin_hi: int, low: int, high: int)
    ensures
        0 <= fraction_of(bin_lo, bin_hi, low, high).num <= fraction_of(
            bin_lo,
            bin_hi,
            low,
            high,
        ).den,
        low <= high ==> fraction_of(bin_lo, bin_hi, low, high).den > 0,
{
}

} // verus!
