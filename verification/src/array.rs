//! One-dimensional arrays of `i64`, stored in an `ndarray` array.

use ndarray::Array1;
use vstd::prelude::*;

verus! {

/// A one-dimensional `ndarray::Array1<i64>`. The verifier sees none of its
/// insides; what it holds is named by [`items`].
#[verifier::external_body]
#[derive(Debug)]
pub struct IntArray {
    inner: Array1<i64>,
}

/// The elements of an array, in index order.
pub uninterp spec fn items(a: IntArray) -> Seq<i64>;

impl View for IntArray {
    type V = Seq<i64>;

    open spec fn view(&self) -> Seq<i64> {
        items(*self)
    }
}

/// `Array1::from_vec`: the one-dimensional array that holds the elements of
/// `v` in the same order. The outside code checks the length only for
/// elements of size zero, so it does not panic here.
#[verifier::external_body]
fn array_from_vec(v: Vec<i64>) -> (a: IntArray)
    ensures
        items(a) == v@,
{
    IntArray { inner: Array1::from_vec(v) }
}

/// `ArrayBase::len`: the number of elements of the array.
#[verifier::external_body]
fn array_len(a: &IntArray) -> (n: usize)
    ensures
        n == items(*a).len(),
{
    a.inner.len()
}

/// `ArrayBase::is_empty`: whether the array has no element.
#[verifier::external_body]
fn array_is_empty(a: &IntArray) -> (b: bool)
    ensures
        b == (items(*a).len() == 0),
{
    a.inner.is_empty()
}

/// Indexing of a one-dimensional array by `usize`: the element at position
/// `i`. The outside code panics when `i` is out of bounds, which the
/// precondition rules out.
#[verifier::external_body]
fn array_index(a: &IntArray, i: usize) -> (x: i64)
    requires
        i < items(*a).len(),
    ensures
        x == items(*a)[i as int],
{
    a.inner[i]
}

/// `Clone` of an owned array: a new array with the same elements in the
/// same order.
#[verifier::external_body]
fn array_clone(a: &IntArray) -> (b: IntArray)
    ensures
        items(b) == items(*a),
{
    IntArray { inner: a.inner.clone() }
}

impl Clone for IntArray {
    fn clone(&self) -> (a: IntArray)
        ensures
            a@ == self@,
    {
        array_clone(self)
    }
}

impl IntArray {
    /// The array that holds the elements of `v` in order.
    pub fn from_vec(v: Vec<i64>) -> (a: IntArray)
        ensures
            a@ == v@,
    {
        array_from_vec(v)
    }

    /// The number of elements.
    pub fn len(&self) -> (n: usize)
        ensures
            n == self@.len(),
    {
        array_len(self)
    }

    /// Whether the array has no element.
    pub fn is_empty(&self) -> (b: bool)
        ensures
            b == (self@.len() == 0),
    {
        array_is_empty(self)
    }

    /// The element at position `i`.
    pub fn get(&self, i: usize) -> (x: i64)
        requires
            i < self@.len(),
        ensures
            x == self@[i as int],
    {
        array_index(self, i)
    }
}

} // verus!
