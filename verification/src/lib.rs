//! Spatial point-pattern statistics in exact fixed-point arithmetic.
//!
//! The crate estimates Ripley's K-function and its variance-stabilised
//! L-transform over a set of 2D points, and generates synthetic point
//! patterns under a Gibbs-Strauss hardcore-inhibition process by rejection
//! sampling.
//!
//! All geometry is carried out on integer coordinates: a coordinate is a
//! count of length units, where the caller picks how long a unit is. With
//! that choice every distance comparison is exact, K estimates are exact
//! rationals, and L values are fixed-point numbers whose rounding is part
//! of the contract.

pub mod geom;
pub mod gibbs;
pub mod isqrt;
pub mod ripley;
pub mod rng;

use vstd::prelude::*;

verus! {

/// Why a request was rejected before any computation began.
#[derive(Clone, Copy, Debug, PartialEq, Eq, Structural)]
pub enum SpazialError {
    /// Fewer than two points for a K/L statistic, a zero area or maximum
    /// distance, a zero region dimension, an acceptance probability above
    /// one, or a zero iteration budget.
    InvalidInput,
}

} // verus!
