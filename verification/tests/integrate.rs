use histo_integrate::array::IntArray;
use histo_integrate::integrate::{Integral, IntegrateError, Term};
use histo_integrate::overlap::{classify, Fraction, Overlap};
use histo_integrate::{integrate, try_integrate, Histogram};

/// Coordinates are held in hundredths.
fn fixed(x: f64) -> i64 {
    (x * 100.0) as i64
}

fn array(values: &[f64]) -> IntArray {
    IntArray::from_vec(values.iter().map(|x| *x as i64).collect())
}

fn edges(values: &[f64]) -> IntArray {
    IntArray::from_vec(values.iter().map(|x| fixed(*x)).collect())
}

/// The integral as a number: bin widths are whole, so a hundred times the
/// integral is exact.
fn value(integral: &Integral) -> f64 {
    integral.scaled(100).unwrap() as f64 / 100.0
}

#[test]
fn integrate_no_data() {
    let hist = Histogram { edges: edges(&[]), bins: array(&[]) };
    let range = (fixed(0.0), fixed(0.0));
    assert_eq!(value(&integrate(hist, range)), 0.0);
}

#[test]
fn integrate_entire_range() {
    let hist = Histogram {
        edges: edges(&[0.0, 1.0, 2.0, 3.0, 4.0, 5.0]),
        bins: array(&[-1.0, 0.0, 1.0, 2.0, 3.0]),
    };
    let range = (fixed(-1.0), fixed(6.0));
    assert_eq!(value(&integrate(hist, range)), 5.0);
}

#[test]
#[should_panic]
fn integrate_bad_range() {
    let hist = Histogram {
        edges: edges(&[0.0, 1.0, 2.0, 3.0, 4.0, 5.0]),
        bins: array(&[-1.0, 0.0, 1.0, 2.0, 3.0]),
    };
    let range = (fixed(12.0), fixed(6.0));
    let _ = try_integrate(hist, range).unwrap();
}

#[test]
#[should_panic]
fn integrate_bad_data_len() {
    let hist = Histogram {
        edges: edges(&[0.0, 1.0, 2.0, 3.0, 4.0]),
        bins: array(&[-1.0, 0.0, 1.0, 2.0, 3.0]),
    };
    let range = (fixed(-1.0), fixed(6.0));
    let _ = try_integrate(hist, range).unwrap();
}

#[test]
fn integrate_zero_range() {
    let hist = Histogram {
        edges: edges(&[0.0, 1.0, 2.0, 3.0, 4.0, 5.0]),
        bins: array(&[-1.0, 0.0, 1.0, 2.0, 3.0]),
    };
    let range = (fixed(6.0), fixed(6.0));
    assert_eq!(value(&integrate(hist, range)), 0.0);
}

#[test]
fn integrate_partial_bin_coverage_lower_side_of_range() {
    let hist = Histogram {
        edges: edges(&[0.0, 1.0, 2.0, 3.0, 4.0, 5.0]),
        bins: array(&[-1.0, 0.0, 1.0, 2.0, 3.0]),
    };
    let range = (fixed(2.75), fixed(6.0));
    assert_eq!(value(&integrate(hist, range)), 5.25);
}

#[test]
fn integrate_partial_bin_coverage_upper_side_of_range() {
    let hist = Histogram {
        edges: edges(&[0.0, 1.0, 2.0, 3.0, 4.0, 5.0]),
        bins: array(&[-1.0, 0.0, 1.0, 2.0, 4.0]),
    };
    let range = (fixed(-1.0), fixed(4.25));
    assert_eq!(value(&integrate(hist, range)), 3.0);
}

fn sample() -> Histogram {
    Histogram::from_vecs(vec![0, 100, 200, 300, 400, 500], vec![-1, 0, 1, 2, 3])
}

#[test]
fn lower_cut_is_reported_exactly() {
    let got = integrate(sample(), (275, 600));
    assert_eq!(got.whole, 5);
    assert_eq!(
        got.cuts,
        vec![Term { value: 1, fraction: Fraction { num: 25, den: 100 } }]
    );
}

#[test]
fn upper_cut_is_reported_exactly() {
    let hist = Histogram::from_vecs(vec![0, 100, 200, 300, 400, 500], vec![-1, 0, 1, 2, 4]);
    let got = integrate(hist, (-100, 425));
    assert_eq!(got.whole, 2);
    assert_eq!(
        got.cuts,
        vec![Term { value: 4, fraction: Fraction { num: 25, den: 100 } }]
    );
}

#[test]
fn full_coverage_has_no_cut_terms() {
    let got = integrate(sample(), (-100, 600));
    assert_eq!(got, Integral { whole: 5, cuts: vec![] });
}

#[test]
fn range_exactly_on_the_outer_edges_is_full_coverage() {
    let got = integrate(sample(), (0, 500));
    assert_eq!(got, Integral { whole: 5, cuts: vec![] });
}

#[test]
fn invalid_range_is_an_error() {
    assert_eq!(try_integrate(sample(), (1200, 600)), Err(IntegrateError::InvalidRange));
}

#[test]
fn shape_mismatch_is_an_error() {
    let hist = Histogram::from_vecs(vec![0, 100, 200, 300, 400], vec![-1, 0, 1, 2, 3]);
    assert_eq!(try_integrate(hist, (-100, 600)), Err(IntegrateError::ShapeMismatch));
}

#[test]
fn shape_mismatch_comes_before_invalid_range() {
    let hist = Histogram::from_vecs(vec![0, 100, 200, 300, 400], vec![-1, 0, 1, 2, 3]);
    assert_eq!(try_integrate(hist, (1200, 600)), Err(IntegrateError::ShapeMismatch));
}

#[test]
fn too_many_edges_is_a_shape_mismatch() {
    let hist = Histogram::from_vecs(vec![0, 100, 200, 300], vec![7]);
    assert_eq!(try_integrate(hist, (0, 100)), Err(IntegrateError::ShapeMismatch));
}

#[test]
fn no_edges_gives_zero_for_any_range() {
    let empty = Integral { whole: 0, cuts: vec![] };
    assert_eq!(try_integrate(Histogram::from_vecs(vec![], vec![]), (-5, 5)), Ok(empty.clone()));
    assert_eq!(try_integrate(Histogram::from_vecs(vec![], vec![]), (5, -5)), Ok(empty.clone()));
    assert_eq!(try_integrate(Histogram::from_vecs(vec![], vec![1, 2]), (0, 1)), Ok(empty));
}

#[test]
fn single_edge_without_bins_gives_zero() {
    let got = integrate(Histogram::from_vecs(vec![3], vec![]), (0, 10));
    assert_eq!(got, Integral { whole: 0, cuts: vec![] });
}

#[test]
fn range_inside_one_bin_counts_from_the_lower_bound_to_the_bin_end() {
    let hist = Histogram::from_vecs(vec![0, 10], vec![3]);
    let got = integrate(hist, (2, 3));
    assert_eq!(got.whole, 0);
    assert_eq!(got.cuts, vec![Term { value: 3, fraction: Fraction { num: 8, den: 10 } }]);
}

#[test]
fn lower_bound_on_an_edge_cuts_both_neighbours() {
    let hist = Histogram::from_vecs(vec![0, 10, 20], vec![3, 5]);
    let got = integrate(hist, (10, 15));
    assert_eq!(got.whole, 0);
    assert_eq!(
        got.cuts,
        vec![
            Term { value: 3, fraction: Fraction { num: 0, den: 10 } },
            Term { value: 5, fraction: Fraction { num: 10, den: 10 } },
        ]
    );
}

#[test]
fn zero_width_bin_is_full_or_outside() {
    let inside = integrate(Histogram::from_vecs(vec![5, 5], vec![9]), (5, 5));
    assert_eq!(inside, Integral { whole: 9, cuts: vec![] });
    let outside = integrate(Histogram::from_vecs(vec![5, 5], vec![9]), (6, 7));
    assert_eq!(outside, Integral { whole: 0, cuts: vec![] });
}

#[test]
fn extreme_values_do_not_overflow() {
    let hist = Histogram::from_vecs(vec![i64::MIN, 0, i64::MAX], vec![i64::MAX, i64::MAX]);
    let full = integrate(hist, (i64::MIN, i64::MAX));
    assert_eq!(full.whole, 2 * (i64::MAX as i128));
    let hist = Histogram::from_vecs(vec![i64::MIN, i64::MAX], vec![i64::MIN]);
    let cut = integrate(hist, (i64::MIN, 0));
    assert_eq!(
        cut.cuts,
        vec![Term {
            value: i64::MIN,
            fraction: Fraction { num: i64::MAX as i128 - i64::MIN as i128, den: u64::MAX as i128 },
        }]
    );
}

#[test]
fn integrating_twice_gives_the_same_integral() {
    let first = integrate(sample(), (275, 425));
    let second = integrate(sample(), (275, 425));
    assert_eq!(first, second);
    assert_eq!(value(&first), value(&second));
}

#[test]
fn widening_does_not_lower_the_integral() {
    let bins = vec![1, 0, 4, 2, 3];
    let edges = vec![0, 100, 200, 300, 400, 500];
    let narrow = integrate(Histogram::from_vecs(edges.clone(), bins.clone()), (150, 325));
    let lower = integrate(Histogram::from_vecs(edges.clone(), bins.clone()), (50, 325));
    let upper = integrate(Histogram::from_vecs(edges.clone(), bins.clone()), (150, 475));
    let both = integrate(Histogram::from_vecs(edges, bins), (-10, 510));
    assert_eq!(value(&narrow), 4.5);
    assert_eq!(value(&lower), 5.0);
    assert_eq!(value(&upper), 8.25);
    assert_eq!(value(&both), 10.0);
    assert!(value(&narrow) <= value(&lower));
    assert!(value(&narrow) <= value(&upper));
    assert!(value(&upper) <= value(&both));
}

#[test]
fn widening_below_a_bin_that_holds_the_range_lowers_its_weight() {
    let narrow = integrate(Histogram::from_vecs(vec![0, 10], vec![1]), (2, 3));
    let wide = integrate(Histogram::from_vecs(vec![0, 10], vec![1]), (-1, 3));
    assert_eq!(narrow.cuts, vec![Term { value: 1, fraction: Fraction { num: 8, den: 10 } }]);
    assert_eq!(wide.cuts, vec![Term { value: 1, fraction: Fraction { num: 3, den: 10 } }]);
}

#[test]
fn scaled_gives_the_integral_in_units_of_the_scale() {
    let got = integrate(sample(), (275, 600));
    assert_eq!(got.scaled(100), Some(525));
    assert_eq!(got.scaled(200), Some(1050));
    let hist = Histogram::from_vecs(vec![0, 100, 200, 300, 400, 500], vec![-1, 0, 1, 2, 4]);
    assert_eq!(integrate(hist, (-100, 425)).scaled(100), Some(300));
    assert_eq!(integrate(sample(), (-100, 600)).scaled(1), Some(5));
    assert_eq!(integrate(sample(), (600, 600)).scaled(7), Some(0));
}

#[test]
fn scaled_adds_negative_terms() {
    let hist = Histogram::from_vecs(vec![0, 4, 8], vec![-3, 5]);
    let got = integrate(hist, (1, 6));
    assert_eq!(
        got.cuts,
        vec![
            Term { value: -3, fraction: Fraction { num: 3, den: 4 } },
            Term { value: 5, fraction: Fraction { num: 2, den: 4 } },
        ]
    );
    assert_eq!(got.scaled(4), Some(1));
    assert_eq!(got.scaled(8), Some(2));
}

#[test]
fn scaled_is_none_on_overflow() {
    let hist = Histogram::from_vecs(vec![0, 1, 2], vec![i64::MAX, i64::MAX]);
    let got = integrate(hist, (0, 2));
    assert_eq!(got.scaled(1), Some(2 * (i64::MAX as i128)));
    assert_eq!(got.scaled(u64::MAX), None);
    let sum = Integral {
        whole: i128::MAX,
        cuts: vec![Term { value: 1, fraction: Fraction { num: 1, den: 1 } }],
    };
    assert_eq!(sum.scaled(1), None);
    let product = Integral {
        whole: 0,
        cuts: vec![Term { value: 2, fraction: Fraction { num: i128::MAX, den: 1 } }],
    };
    assert_eq!(product.scaled(1), None);
}

#[test]
fn scaled_is_none_without_a_positive_denominator() {
    let zero = Integral {
        whole: 1,
        cuts: vec![Term { value: 1, fraction: Fraction { num: 0, den: 0 } }],
    };
    assert_eq!(zero.scaled(10), None);
    let negative = Integral {
        whole: 1,
        cuts: vec![Term { value: 1, fraction: Fraction { num: -1, den: -2 } }],
    };
    assert_eq!(negative.scaled(10), None);
}

#[test]
fn widening_does_not_lower_the_scaled_integral() {
    let bins = vec![1, 0, 4, 2, 3];
    let edges = vec![0, 100, 200, 300, 400, 500];
    let hist = Histogram::from_vecs(edges, bins);
    let narrow = integrate(hist.clone(), (150, 325)).scaled(100).unwrap();
    let wide = integrate(hist.clone(), (50, 475)).scaled(100).unwrap();
    assert_eq!(narrow, 450);
    assert_eq!(wide, 875);
    assert!(narrow <= wide);
}

#[test]
fn zero_width_range_on_the_last_edge_has_no_area() {
    let got = integrate(sample(), (500, 500));
    assert_eq!(got.whole, 0);
    assert_eq!(got.cuts, vec![Term { value: 3, fraction: Fraction { num: 0, den: 100 } }]);
    assert_eq!(got.scaled(100), Some(0));
    assert_eq!(value(&got), 0.0);
}

#[test]
fn range_below_the_first_edge_has_no_area() {
    let got = integrate(sample(), (-300, -100));
    assert_eq!(got, Integral { whole: 0, cuts: vec![] });
}

#[test]
fn widening_changes_the_integral_by_the_gains_less_the_losses() {
    let edges: Vec<i64> = vec![0, 4, 4, 8, 12];
    let bins: Vec<i64> = vec![2, 7, 0, 5];
    let hist = Histogram::from_vecs(edges.clone(), bins.clone());
    let share = |i: usize, range: (i64, i64)| {
        let bin = Histogram::from_vecs(vec![edges[i], edges[i + 1]], vec![bins[i]]);
        integrate(bin, range).scaled(4).unwrap()
    };
    let mut lowered = 0;
    let mut compared = 0;
    for low in -2..14 {
        for high in low..14 {
            let narrow = integrate(hist.clone(), (low, high)).scaled(4).unwrap();
            for wide_low in -2..=low {
                for wide_high in high..14 {
                    let mut gain = 0;
                    let mut loss = 0;
                    for i in 0..bins.len() {
                        let loses = classify(edges[i], edges[i + 1], low, high)
                            == Overlap::LowerCut
                            && classify(edges[i], edges[i + 1], wide_low, wide_high)
                                == Overlap::UpperCut
                            && wide_high - edges[i] < edges[i + 1] - low;
                        let change = share(i, (wide_low, wide_high)) - share(i, (low, high));
                        if loses {
                            assert!(change <= 0);
                            loss -= change;
                        } else {
                            assert!(change >= 0);
                            gain += change;
                        }
                    }
                    let wide = integrate(hist.clone(), (wide_low, wide_high)).scaled(4).unwrap();
                    assert_eq!(wide - narrow, gain - loss);
                    assert_eq!(narrow <= wide, loss <= gain);
                    if wide < narrow {
                        lowered += 1;
                    }
                    compared += 1;
                }
            }
        }
    }
    assert!(compared > 1000);
    assert!(lowered > 0);
}

#[test]
fn checked_and_unchecked_integration_agree() {
    for range in [(275, 600), (-100, 425), (0, 500), (600, 600), (120, 130)] {
        assert_eq!(try_integrate(sample(), range), Ok(integrate(sample(), range)));
    }
    let empty = Histogram::from_vecs(vec![], vec![4]);
    assert_eq!(integrate(empty, (9, -9)), Integral { whole: 0, cuts: vec![] });
}

#[test]
fn range_inside_a_bin_weighs_it_by_the_part_above_the_lower_bound() {
    let got = integrate(Histogram::from_vecs(vec![0, 4], vec![8]), (1, 2));
    assert_eq!(got.cuts, vec![Term { value: 8, fraction: Fraction { num: 3, den: 4 } }]);
    assert_eq!(got.scaled(4), Some(24));
}

#[test]
fn a_loss_in_one_bin_can_be_made_up_by_the_bins_below() {
    let hist = Histogram::from_vecs(vec![0, 10, 20], vec![100, 1]);
    assert_eq!(integrate(hist.clone(), (12, 13)).scaled(10), Some(8));
    assert_eq!(integrate(hist.clone(), (-5, 13)).scaled(10), Some(1003));
    let alone = Histogram::from_vecs(vec![0, 4], vec![1]);
    assert_eq!(integrate(alone.clone(), (1, 2)).scaled(4), Some(3));
    assert_eq!(integrate(alone, (-4, 2)).scaled(4), Some(2));
}

#[test]
fn raising_the_upper_bound_never_lowers_the_integral() {
    let hist = Histogram::from_vecs(vec![0, 4, 4, 8, 12], vec![2, 7, 0, 5]);
    let mut compared = 0;
    for low in -2..14 {
        for high in low..14 {
            let narrow = integrate(hist.clone(), (low, high)).scaled(4).unwrap();
            for wide_high in high..14 {
                let wide = integrate(hist.clone(), (low, wide_high)).scaled(4).unwrap();
                assert!(narrow <= wide);
                compared += 1;
            }
        }
    }
    assert!(compared > 500);
}
