//! Points with fixed-point coordinates and exact distance comparisons.

use crate::isqrt::{isqrt, isqrt_spec, lemma_isqrt_correct};
use vstd::prelude::*;

verus! {

/// Largest coordinate magnitude the library accepts, in units. The bound
/// keeps every squared distance inside a `u64`.
pub const COORD_LIMIT: i64 = 1_000_000_000;

/// A 2D point; each coordinate is an integer count of length units.
#[derive(Clone, Copy, Debug, PartialEq, Eq, Structural)]
pub struct Point {
    pub x: i64,
    pub y: i64,
}

/// Both coordinates are within the accepted range.
pub open spec fn coord_ok(p: Point) -> bool {
    -COORD_LIMIT <= p.x <= COORD_LIMIT && -COORD_LIMIT <= p.y <= COORD_LIMIT
}

/// Every point of the sequence is within the accepted range.
pub open spec fn coords_ok(ps: Seq<Point>) -> bool {
    forall|i: int| 0 <= i < ps.len() ==> coord_ok(#[trigger] ps[i])
}

/// The squared Euclidean distance between two points, in squared units.
pub open spec fn sq_dist_spec(p: Point, q: Point) -> int {
    (q.x - p.x) * (q.x - p.x) + (q.y - p.y) * (q.y - p.y)
}

/// The Euclidean distance between `p` and `q` is at most `num / den`.
/// Stated by cross-multiplying the squared comparison, which is exact:
/// `sqrt(s) <= num / den` iff `den^2 * s <= num^2` for nonnegative values.
pub open spec fn within_dist(p: Point, q: Point, num: int, den: int) -> bool {
    den * den * sq_dist_spec(p, q) <= num * num
}

/// The squared Euclidean distance between two points.
pub fn sq_dist(p: Point, q: Point) -> (r: u64)
    requires
        coord_ok(p),
        coord_ok(q),
    ensures
        r == sq_dist_spec(p, q),
        r <= 8_000_000_000_000_000_000,
{
    let dx: i64 = q.x - p.x;
    let dy: i64 = q.y - p.y;
    assert(dx * dx + dy * dy <= 8_000_000_000_000_000_000i64 && dx * dx >= 0 && dy * dy >= 0)
        by (nonlinear_arith)
        requires
            -2_000_000_000 <= dx <= 2_000_000_000,
            -2_000_000_000 <= dy <= 2_000_000_000,
    ;
    (dx * dx + dy * dy) as u64
}

/// Decides `within_dist` exactly by comparing cross-multiplied squares.
pub fn within(p: Point, q: Point, num: u64, den: u64) -> (r: bool)
    requires
        coord_ok(p),
        coord_ok(q),
        1 <= den <= 100,
        num <= 400_000_000_000,
    ensures
        r == within_dist(p, q, num as int, den as int),
{
    let sq: u64 = sq_dist(p, q);
    assert((den as int) * (den as int) <= 10000
        && (den as int) * (den as int) * (sq as int) < 0x10000000000000000000000000000
        && (num as int) * (num as int) < 0x10000000000000000000000000000) by (nonlinear_arith)
        requires
            1 <= den <= 100,
            num <= 400_000_000_000,
            0 <= sq <= 0xffff_ffff_ffff_ffff,
    ;
    let lhs: u128 = (den as u128) * (den as u128) * (sq as u128);
    let rhs: u128 = (num as u128) * (num as u128);
    lhs <= rhs
}

/// The Euclidean distance between two points, rounded down to a whole
/// number of units.
pub fn euclidean_distance(p: Point, q: Point) -> (r: u64)
    requires
        coord_ok(p),
        coord_ok(q),
    ensures
        r == isqrt_spec(sq_dist_spec(p, q)),
{
    let sq: u64 = sq_dist(p, q);
    let s: u128 = isqrt(sq as u128);
    proof {
        lemma_isqrt_correct(sq as int);
        assert(s <= 4_000_000_000) by (nonlinear_arith)
            requires
                s >= 0,
                (s as int) * (s as int) <= sq,
                sq <= 8_000_000_000_000_000_000,
        ;
    }
    s as u64
}

} // verus!
