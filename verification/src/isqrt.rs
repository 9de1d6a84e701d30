//! Integer square root: the floor of the real square root.

use vstd::prelude::*;

verus! {

/// The floor of the square root of `x` (and 0 for negative `x`), defined by
/// counting up: the root grows by one exactly when the next square fits.
pub open spec fn isqrt_spec(x: int) -> int
    decreases x,
{
    if x <= 0 {
        0
    } else {
        let r = isqrt_spec(x - 1);
        if (r + 1) * (r + 1) <= x {
            r + 1
        } else {
            r
        }
    }
}

/// `isqrt_spec(x)` really is the floor of the square root: its square is at
/// most `x` and the next square is above `x`.
pub proof fn lemma_isqrt_correct(x: int)
    requires
        x >= 0,
    ensures
        isqrt_spec(x) >= 0,
        isqrt_spec(x) * isqrt_spec(x) <= x,
        (isqrt_spec(x) + 1) * (isqrt_spec(x) + 1) > x,
    decreases x,
{
    if x == 0 {
        assert(isqrt_spec(0) == 0);
    } else {
        lemma_isqrt_correct(x - 1);
        let r = isqrt_spec(x - 1);
        if (r + 1) * (r + 1) <= x {
            assert((r + 1) * (r + 1) > x - 1);
            assert((r + 1) * (r + 1) == x);
            assert((r + 2) * (r + 2) > x) by (nonlinear_arith)
                requires
                    r >= 0,
                    (r + 1) * (r + 1) == x,
            ;
        }
    }
}

/// There is only one floor square root: any nonnegative `r` whose square is
/// at most `x` while `(r + 1)^2` exceeds `x` equals `isqrt_spec(x)`.
pub proof fn lemma_isqrt_unique(x: int, r: int)
    requires
        x >= 0,
        r >= 0,
        r * r <= x,
        (r + 1) * (r + 1) > x,
    ensures
        r == isqrt_spec(x),
{
    lemma_isqrt_correct(x);
    let s = isqrt_spec(x);
    if r < s {
        assert(false) by (nonlinear_arith)
            requires
                0 <= r < s,
                s * s <= x,
                (r + 1) * (r + 1) > x,
        ;
    }
    if r > s {
        assert(false) by (nonlinear_arith)
            requires
                0 <= s < r,
                r * r <= x,
                (s + 1) * (s + 1) > x,
        ;
    }
}

/// Computes the floor of the square root by binary search.
pub fn isqrt(x: u128) -> (r: u128)
    ensures
        r == isqrt_spec(x as int),
        r < 0x1_0000_0000_0000_0000,
{
    let mut lo: u128 = 0;
    let mut hi: u128 = 0x1_0000_0000_0000_0000;
    while lo + 1 < hi
        invariant
            0 <= lo < hi <= 0x1_0000_0000_0000_0000,
            (lo as int) * (lo as int) <= x,
            (hi as int) * (hi as int) > x,
        decreases hi - lo,
    {
        let mid: u128 = lo + (hi - lo) / 2;
        assert(lo < mid < hi);
        assert((mid as int) * (mid as int) < 0x1_0000_0000_0000_0000_0000_0000_0000_0000)
            by (nonlinear_arith)
            requires
                0 <= mid < 0x1_0000_0000_0000_0000,
        ;
        if mid * mid <= x {
            lo = mid;
        } else {
            hi = mid;
        }
    }
    proof {
        lemma_isqrt_unique(x as int, lo as int);
    }
    lo
}

} // verus!
