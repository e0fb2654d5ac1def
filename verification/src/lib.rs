//! Exact integration of piecewise-constant histograms over integer
//! coordinates.
//!
//! A histogram is a sequence of bin edges and a sequence of bin values. Its
//! integral over a closed range is the sum of the bin values, each weighted
//! by the fraction of the bin that the range covers. The integral is kept
//! exact: the fully covered bins are summed, and each cut bin is listed
//! with its weight as a fraction.

pub mod array;
pub mod coverage;
pub mod histogram;
pub mod integrate;
pub mod overlap;
pub mod sum;
pub mod widening;

pub use crate::histogram::Histogram;
pub use crate::integrate::{integrate, try_integrate};
