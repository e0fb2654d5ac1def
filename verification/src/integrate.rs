//! The integral of a histogram over a closed range.

use crate::histogram::Histogram;
use crate::overlap::{classify, fraction_of, overlap_fraction, overlap_of, Fraction, Overlap, Ratio};
use vstd::prelude::*;

verus! {

/// Why an integral could not be taken.
#[derive(Clone, Copy, Debug, PartialEq, Eq, Structural)]
pub enum IntegrateError {
    /// The number of edges is not the number of bins plus one.
    ShapeMismatch,
    /// The lower bound of the range is above its upper bound.
    InvalidRange,
}

/// The contribution of one cut bin: its value times a fraction of its width.
#[derive(Clone, Copy, Debug, PartialEq, Eq, Structural)]
pub struct Term {
    pub value: i64,
    pub fraction: Fraction,
}

/// The mathematical value of a [`Term`].
pub struct TermModel {
    pub value: int,
    pub fraction: Ratio,
}

impl View for Term {
    type V = TermModel;

    open spec fn view(&self) -> TermModel {
        TermModel { value: self.value as int, fraction: self.fraction@ }
    }
}

/// An exact integral: the sum of the fully covered bins, and one term for
/// each cut bin, in ascending bin order.
#[derive(Clone, Debug, PartialEq, Eq)]
pub struct Integral {
    pub whole: i128,
    pub cuts: Vec<Term>,
}

/// The mathematical value of an [`Integral`].
pub struct IntegralModel {
    pub whole: int,
    pub cuts: Seq<TermModel>,
}

impl View for Integral {
    type V = IntegralModel;

    open spec fn view(&self) -> IntegralModel {
        IntegralModel {
            whole: self.whole as int,
            cuts: self.cuts@.map_values(|t: Term| t@),
        }
    }
}

/// `scale` times the value of the term, exact when the denominator divides
/// `scale`.
pub open spec fn scaled_term(t: TermModel, scale: int) -> int {
    t.value * (t.fraction.num * (scale / t.fraction.den))
}

/// Where the denominator of a term divides `scale`, the scaled term is
/// exact: times the denominator it is the value times the numerator times
/// `scale`.
pub proof fn lemma_scaled_term_exact(t: TermModel, scale: int)
    requires
        t.fraction.den > 0,
        scale % t.fraction.den == 0,
    ensures
        scaled_term(t, scale) * t.fraction.den == t.value * t.fraction.num * scale,
{
    let d = t.fraction.den;
    let q = scale / d;
    vstd::arithmetic::div_mod::lemma_fundamental_div_mod(scale, d);
    assert((t.value * (t.fraction.num * q)) * d == t.value * t.fraction.num * scale)
        by (nonlinear_arith)
        requires
            scale == d * q,
    ;
}

/// `scale` times the sum of the terms.
pub open spec fn scaled_cuts(cuts: Seq<TermModel>, scale: int) -> int
    decreases cuts.len(),
{
    if cuts.len() == 0 {
        0
    } else {
        scaled_cuts(cuts.drop_last(), scale) + scaled_term(cuts.last(), scale)
    }
}

/// Every term has a weight between zero and one, with a positive
/// denominator.
pub open spec fn unit_weights(cuts: Seq<TermModel>) -> bool {
    forall|j: int|
        0 <= j < cuts.len() ==> 0 <= (#[trigger] cuts[j]).fraction.num <= cuts[j].fraction.den
            && cuts[j].fraction.den > 0
}

/// Whether `x` is a value of `i128`.
pub open spec fn fits(x: int) -> bool {
    i128::MIN <= x <= i128::MAX
}

/// Whether `scale` times the term can be computed within `i128`.
pub open spec fn term_fits(t: TermModel, scale: int) -> bool {
    &&& t.fraction.den > 0
    &&& fits(t.fraction.num * (scale / t.fraction.den))
    &&& fits(scaled_term(t, scale))
}

impl IntegralModel {
    /// The integral of a histogram without bins.
    pub open spec fn zero() -> IntegralModel {
        IntegralModel { whole: 0, cuts: Seq::empty() }
    }

    /// Every cut term has a weight between zero and one, with a positive
    /// denominator.
    pub open spec fn well_formed(self) -> bool {
        unit_weights(self.cuts)
    }

    /// Whether `scale` times the integral can be summed term by term within
    /// `i128`: each term fits, and so does the sum after each term.
    pub open spec fn scaled_fits(self, scale: int) -> bool {
        &&& forall|j: int| 0 <= j < self.cuts.len() ==> term_fits(#[trigger] self.cuts[j], scale)
        &&& forall|k: int|
            0 <= k <= self.cuts.len() ==> fits(
                self.whole * scale + scaled_cuts(#[trigger] self.cuts.take(k), scale),
            )
    }

    /// `scale` times the integral, exact when every denominator among the
    /// cut terms divides `scale`.
    pub open spec fn scaled(self, scale: int) -> int {
        self.whole * scale + scaled_cuts(self.cuts, scale)
    }
}

/// The sum of the values of the fully covered bins among the first `n`.
pub open spec fn whole_part(edges: Seq<i64>, bins: Seq<i64>, low: int, high: int, n: nat) -> int
    decreases n,
{
    if n == 0 {
        0
    } else {
        let i = n - 1;
        let rest = whole_part(edges, bins, low, high, i as nat);
        match overlap_of(edges[i] as int, edges[i + 1] as int, low, high) {
            Overlap::Full => rest + bins[i],
            _ => rest,
        }
    }
}

/// The terms of the cut bins among the first `n`, in ascending bin order.
pub open spec fn cut_terms(edges: Seq<i64>, bins: Seq<i64>, low: int, high: int, n: nat) -> Seq<
    TermModel,
>
    decreases n,
{
    if n == 0 {
        Seq::empty()
    } else {
        let i = n - 1;
        let rest = cut_terms(edges, bins, low, high, i as nat);
        match overlap_of(edges[i] as int, edges[i + 1] as int, low, high) {
            Overlap::LowerCut | Overlap::UpperCut => rest.push(
                TermModel {
                    value: bins[i] as int,
                    fraction: fraction_of(edges[i] as int, edges[i + 1] as int, low, high),
                },
            ),
            _ => rest,
        }
    }
}

/// The integral over `(low, high)` of the histogram with these edges and
/// bins: the sum over all bins of the bin's value times its weight.
pub open spec fn integral_of(edges: Seq<i64>, bins: Seq<i64>, low: int, high: int) -> IntegralModel {
    IntegralModel {
        whole: whole_part(edges, bins, low, high, bins.len()),
        cuts: cut_terms(edges, bins, low, high, bins.len()),
    }
}

/// For a valid range every cut term among the first `n` bins has a weight
/// between zero and one, with a positive denominator.
pub proof fn lemma_cut_terms_well_formed(
    edges: Seq<i64>,
    bins: Seq<i64>,
    low: int,
    high: int,
    n: nat,
)
    requires
        low <= high,
    ensures
        unit_weights(cut_terms(edges, bins, low, high, n)),
    decreases n,
{
    if n > 0 {
        let i = n - 1;
        let rest = cut_terms(edges, bins, low, high, i as nat);
        let cuts = cut_terms(edges, bins, low, high, n);
        lemma_cut_terms_well_formed(edges, bins, low, high, i as nat);
        assert forall|j: int| 0 <= j < cuts.len() implies 0 <= (#[trigger] cuts[j]).fraction.num
            <= cuts[j].fraction.den && cuts[j].fraction.den > 0 by {
            if j < rest.len() {
                assert(cuts[j] == rest[j]);
            }
        }
    }
}

/// What `try_integrate` returns, and `integrate` on the inputs it accepts.
/// Without edges the integral is zero whatever the range; a shape mismatch
/// comes before an invalid range.
pub open spec fn integrate_spec(edges: Seq<i64>, bins: Seq<i64>, low: int, high: int) -> Result<
    IntegralModel,
    IntegrateError,
> {
    if edges.len() == 0 {
        Ok(IntegralModel::zero())
    } else if edges.len() != bins.len() + 1 {
        Err(IntegrateError::ShapeMismatch)
    } else if low > high {
        Err(IntegrateError::InvalidRange)
    } else {
        Ok(integral_of(edges, bins, low, high))
    }
}

/// An outcome of integration with the integral taken by its view.
pub open spec fn outcome_view(r: Result<Integral, IntegrateError>) -> Result<
    IntegralModel,
    IntegrateError,
> {
    match r {
        Ok(v) => Ok(v@),
        Err(e) => Err(e),
    }
}

/// The integral over `(low, high)` of a histogram with one more edge than
/// bins.
fn integrate_bins(hist: &Histogram, low: i64, high: i64) -> (r: Integral)
    requires
        hist.edges@.len() == hist.bins@.len() + 1,
        low <= high,
    ensures
        r@ == integral_of(hist.edges@, hist.bins@, low as int, high as int),
        r@.well_formed(),
{
    let n: usize = hist.bins.len();
    let ghost edges = hist.edges@;
    let ghost bins = hist.bins@;
    let mut whole: i128 = 0;
    let mut cuts: Vec<Term> = Vec::new();
    let mut i: usize = 0;
    while i < n
        invariant
            i <= n,
            n == bins.len(),
            edges.len() == n + 1,
            edges == hist.edges@,
            bins == hist.bins@,
            low <= high,
            whole == whole_part(edges, bins, low as int, high as int, i as nat),
            cuts@.map_values(|t: Term| t@) =~= cut_terms(
                edges,
                bins,
                low as int,
                high as int,
                i as nat,
            ),
            -(i * 0x8000_0000_0000_0000) <= whole <= i * 0x8000_0000_0000_0000,
        decreases n - i,
    {
        let bin_lo: i64 = hist.edges.get(i);
        let bin_hi: i64 = hist.edges.get(i + 1);
        let value: i64 = hist.bins.get(i);
        match classify(bin_lo, bin_hi, low, high) {
            Overlap::Full => {
                whole = whole + value as i128;
            },
            Overlap::LowerCut | Overlap::UpperCut => {
                let ghost before = cuts@;
                let term = Term { value, fraction: overlap_fraction(bin_lo, bin_hi, low, high) };
                cuts.push(term);
                assert(cuts@.map_values(|t: Term| t@) =~= before.map_values(|t: Term| t@).push(
                    term@,
                ));
            },
            Overlap::Outside => {},
        }
        i = i + 1;
    }
    proof {
        lemma_cut_terms_well_formed(edges, bins, low as int, high as int, n as nat);
    }
    Integral { whole, cuts }
}

/// The integral of a histogram without edges.
fn zero_integral() -> (r: Integral)
    ensures
        r@ == IntegralModel::zero(),
{
    let zero = Integral { whole: 0, cuts: Vec::new() };
    assert(zero@.cuts =~= IntegralModel::zero().cuts);
    zero
}

/// Integrates the histogram over the closed range `(range.0, range.1)`.
/// A histogram with edges must have one more edge than bins, and the lower
/// bound of the range must not be above the upper one; `try_integrate`
/// tests both.
pub fn integrate(hist: Histogram, range: (i64, i64)) -> (r: Integral)
    requires
        hist.edges@.len() == 0 || (hist.edges@.len() == hist.bins@.len() + 1 && range.0
            <= range.1),
    ensures
        outcome_view(Ok(r)) == integrate_spec(
            hist.edges@,
            hist.bins@,
            range.0 as int,
            range.1 as int,
        ),
        r@.well_formed(),
{
    if hist.edges.is_empty() {
        zero_integral()
    } else {
        integrate_bins(&hist, range.0, range.1)
    }
}

/// Integrates the histogram over the closed range `(range.0, range.1)`, or
/// says why it cannot: the shape is tested first, then the range.
pub fn try_integrate(hist: Histogram, range: (i64, i64)) -> (r: Result<Integral, IntegrateError>)
    ensures
        outcome_view(r) == integrate_spec(hist.edges@, hist.bins@, range.0 as int, range.1 as int),
        r matches Ok(v) ==> v@.well_formed(),
{
    if hist.edges.is_empty() {
        return Ok(zero_integral());
    }
    if hist.edges.len() - 1 != hist.bins.len() {
        return Err(IntegrateError::ShapeMismatch);
    }
    if range.0 > range.1 {
        return Err(IntegrateError::InvalidRange);
    }
    Ok(integrate_bins(&hist, range.0, range.1))
}

impl Integral {
    /// `scale` times the integral, summed term by term in ascending bin
    /// order, or `None` where a term or a sum on the way leaves `i128`. The
    /// result is exact when every denominator divides `scale`.
    pub fn scaled(&self, scale: u64) -> (r: Option<i128>)
        ensures
            r is Some <==> self@.scaled_fits(scale as int),
            r matches Some(v) ==> v == self@.scaled(scale as int),
    {
        let ghost model = self@;
        let ghost s = scale as int;
        assert(model.cuts.take(0) =~= Seq::<TermModel>::empty());
        let mut acc: i128 = match self.whole.checked_mul(scale as i128) {
            Some(v) => v,
            None => {
                return None;
            },
        };
        let n: usize = self.cuts.len();
        let mut j: usize = 0;
        while j < n
            invariant
                j <= n,
                n == self.cuts@.len(),
                model == self@,
                s == scale as int,
                acc == model.whole * s + scaled_cuts(model.cuts.take(j as int), s),
                forall|i: int| 0 <= i < j ==> term_fits(#[trigger] model.cuts[i], s),
                forall|k: int|
                    0 <= k <= j ==> fits(
                        model.whole * s + scaled_cuts(#[trigger] model.cuts.take(k), s),
                    ),
            decreases n - j,
        {
            let term: Term = self.cuts[j];
            proof {
                assert(model.cuts[j as int] == term@);
                assert(model.cuts.take(j + 1).drop_last() =~= model.cuts.take(j as int));
                assert(model.cuts.take(j + 1).last() == term@);
            }
            if term.fraction.den <= 0 {
                return None;
            }
            let per_unit: i128 = (scale as u128 / term.fraction.den as u128) as i128;
            let part: i128 = match term.fraction.num.checked_mul(per_unit) {
                Some(v) => v,
                None => {
                    return None;
                },
            };
            let share: i128 = match (term.value as i128).checked_mul(part) {
                Some(v) => v,
                None => {
                    return None;
                },
            };
            acc = match acc.checked_add(share) {
                Some(v) => v,
                None => {
                    return None;
                },
            };
            j = j + 1;
        }
        assert(model.cuts.take(n as int) =~= model.cuts);
        Some(acc)
    }
}

/// Two outcomes of integration on the same histogram and range are equal:
/// the integral depends on nothing else.
pub proof fn lemma_integrate_deterministic(
    edges: Seq<i64>,
    bins: Seq<i64>,
    low: int,
    high: int,
    first: Result<Integral, IntegrateError>,
    second: Result<Integral, IntegrateError>,
)
    requires
        outcome_view(first) == integrate_spec(edges, bins, low, high),
        outcome_view(second) == integrate_spec(edges, bins, low, high),
    ensures
        outcome_view(first) == outcome_view(second),
        first is Ok ==> second is Ok && first->Ok_0.whole == second->Ok_0.whole
            && first->Ok_0.cuts@ =~= second->Ok_0.cuts@,
        first is Err ==> second == first,
{
    if first is Ok {
        let a = first->Ok_0;
        let b = second->Ok_0;
        assert(a@.cuts.len() == a.cuts@.len());
        assert(b@.cuts.len() == b.cuts@.len());
        assert forall|j: int| 0 <= j < a.cuts@.len() implies a.cuts@[j] == b.cuts@[j] by {
            assert(a@.cuts[j] == a.cuts@[j]@);
            assert(b@.cuts[j] == b.cuts@[j]@);
        }
    }
}

} // verus!
