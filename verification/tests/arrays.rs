use histo_integrate::array::IntArray;
use histo_integrate::Histogram;

#[test]
fn array_keeps_elements_in_order() {
    let a = IntArray::from_vec(vec![7, -3, 11]);
    assert_eq!(a.len(), 3);
    assert!(!a.is_empty());
    assert_eq!(a.get(0), 7);
    assert_eq!(a.get(1), -3);
    assert_eq!(a.get(2), 11);
}

#[test]
fn empty_array_is_empty() {
    let a = IntArray::from_vec(vec![]);
    assert_eq!(a.len(), 0);
    assert!(a.is_empty());
}

#[test]
fn histogram_from_vecs_keeps_both_sequences() {
    let h = Histogram::from_vecs(vec![0, 1, 2], vec![5, 6]);
    assert_eq!(h.edges.len(), 3);
    assert_eq!(h.bins.len(), 2);
    assert_eq!(h.edges.get(2), 2);
    assert_eq!(h.bins.get(0), 5);
}

#[test]
fn shape_is_one_more_edge_than_bins_or_nothing() {
    assert!(Histogram::from_vecs(vec![0, 1, 2], vec![5, 6]).is_well_shaped());
    assert!(Histogram::from_vecs(vec![], vec![]).is_well_shaped());
    assert!(Histogram::from_vecs(vec![4], vec![]).is_well_shaped());
    assert!(!Histogram::from_vecs(vec![0, 1], vec![5, 6]).is_well_shaped());
    assert!(!Histogram::from_vecs(vec![], vec![5]).is_well_shaped());
    assert!(!Histogram::from_vecs(vec![0, 1, 2], vec![5]).is_well_shaped());
}

#[test]
fn validity_asks_for_ascending_edges() {
    assert!(Histogram::from_vecs(vec![0, 1, 1, 2], vec![5, 6, 7]).is_valid());
    assert!(Histogram::from_vecs(vec![], vec![]).is_valid());
    assert!(!Histogram::from_vecs(vec![0, 2, 1], vec![5, 6]).is_valid());
    assert!(!Histogram::from_vecs(vec![0, 1], vec![5, 6]).is_valid());
}

#[test]
fn shape_fits_on_lengths() {
    assert!(histo_integrate::histogram::shape_fits(6, 5));
    assert!(histo_integrate::histogram::shape_fits(0, 0));
    assert!(!histo_integrate::histogram::shape_fits(5, 5));
    assert!(!histo_integrate::histogram::shape_fits(0, 1));
    assert!(!histo_integrate::histogram::shape_fits(usize::MAX, usize::MAX));
}

#[test]
fn cloned_array_holds_the_same_elements() {
    let a = IntArray::from_vec(vec![4, 5]);
    let b = a.clone();
    assert_eq!(b.len(), 2);
    assert_eq!(b.get(0), 4);
    assert_eq!(b.get(1), 5);
    assert_eq!(a.get(1), 5);
}
