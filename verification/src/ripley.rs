//! Ripley's K-function and its L-transform over a point set.
//!
//! A K estimate is the exact rational `2 * area * count / (n * (n - 1))`,
//! where `count` is the number of unordered point pairs whose distance is at
//! most the threshold. Curves sample the estimator at the hundred distances
//! `i * max_d / 100`, `i = 1 ..= 100`; every comparison against such a
//! rational threshold is done exactly by cross-multiplication.

use vstd::prelude::*;

use crate::geom::{coords_ok, within, within_dist, Point};
use crate::isqrt::{isqrt, isqrt_spec};
use crate::SpazialError;
use rayon::iter::{IntoParallelIterator, ParallelIterator};

verus! {

/// Most points a statistic accepts; keeps pair counts inside a `u64`.
pub const MAX_POINTS: usize = 1_000_000;

/// Largest observation-window area, in squared units.
pub const MAX_AREA: u64 = 1_000_000_000_000_000_000;

/// Largest distance threshold, in units; covers the diagonal of the largest
/// window the coordinate range allows.
pub const MAX_DIST: u64 = 4_000_000_000;

/// An exact nonnegative rational value.
#[derive(Clone, Copy, Debug, PartialEq, Eq, Structural)]
pub struct Ratio {
    pub num: u128,
    pub den: u128,
}

/// An exact signed fixed-point value: `num / den`.
#[derive(Clone, Copy, Debug, PartialEq, Eq, Structural)]
pub struct SRatio {
    pub num: i128,
    pub den: u128,
}

/// How many points of `ps` lie within distance `num / den` of `q`.
pub open spec fn close_count(ps: Seq<Point>, q: Point, num: int, den: int) -> nat
    decreases ps.len(),
{
    if ps.len() == 0 {
        0
    } else {
        close_count(ps.drop_last(), q, num, den) + if within_dist(ps.last(), q, num, den) {
            1nat
        } else {
            0nat
        }
    }
}

/// How many unordered pairs of distinct points of `ps` lie within distance
/// `num / den` of each other; each pair is counted once.
pub open spec fn pair_count(ps: Seq<Point>, num: int, den: int) -> nat
    decreases ps.len(),
{
    if ps.len() == 0 {
        0
    } else {
        pair_count(ps.drop_last(), num, den) + close_count(ps.drop_last(), ps.last(), num, den)
    }
}

/// The pair count split by rows: the sum over `i < k` of the number of
/// earlier points within the threshold of point `i`.
pub open spec fn row_sum(ps: Seq<Point>, k: int, num: int, den: int) -> nat
    decreases k,
{
    if k <= 0 {
        0
    } else {
        row_sum(ps, k - 1, num, den) + close_count(ps.take(k - 1), ps[k - 1], num, den)
    }
}

/// Summing the rows up to the length of the sequence counts every pair once.
pub proof fn lemma_row_sum_is_pair_count(ps: Seq<Point>, num: int, den: int)
    ensures
        row_sum(ps, ps.len() as int, num, den) == pair_count(ps, num, den),
    decreases ps.len(),
{
    if ps.len() > 0 {
        let n = ps.len() as int;
        lemma_row_sum_is_pair_count(ps.drop_last(), num, den);
        assert(ps.take(n - 1) =~= ps.drop_last());
        assert(forall|k: int| 0 <= k < n ==> #[trigger] ps.drop_last().take(k) =~= ps.take(k));
        lemma_row_sum_prefix(ps.drop_last(), ps, n - 1, num, den);
    }
}

/// Row sums up to `k` only look at the first `k` points, so a longer
/// sequence with the same prefix has the same row sum.
proof fn lemma_row_sum_prefix(ps: Seq<Point>, qs: Seq<Point>, k: int, num: int, den: int)
    requires
        0 <= k <= ps.len(),
        ps.len() <= qs.len(),
        forall|i: int| 0 <= i < ps.len() ==> ps[i] == qs[i],
    ensures
        row_sum(ps, k, num, den) == row_sum(qs, k, num, den),
    decreases k,
{
    if k > 0 {
        lemma_row_sum_prefix(ps, qs, k - 1, num, den);
        assert(ps.take(k - 1) =~= qs.take(k - 1));
    }
}

/// Each count of close neighbours is at most the number of points looked at.
pub proof fn lemma_close_count_le_len(ps: Seq<Point>, q: Point, num: int, den: int)
    ensures
        close_count(ps, q, num, den) <= ps.len(),
    decreases ps.len(),
{
    if ps.len() > 0 {
        lemma_close_count_le_len(ps.drop_last(), q, num, den);
    }
}

/// Counts how many of the first `i` points lie within distance `num / den`
/// of point `i`: one row of the pairwise comparison.
pub fn count_row(ps: &Vec<Point>, i: usize, num: u64, den: u64) -> (c: u64)
    requires
        i < ps@.len(),
        ps@.len() <= MAX_POINTS,
        coords_ok(ps@),
        1 <= den <= 100,
        num <= 400_000_000_000,
    ensures
        c == close_count(ps@.take(i as int), ps@[i as int], num as int, den as int),
{
    let q: Point = ps[i];
    let mut c: u64 = 0;
    let mut j: usize = 0;
    while j < i
        invariant
            0 <= j <= i < ps@.len() <= MAX_POINTS,
            coords_ok(ps@),
            1 <= den <= 100,
            num <= 400_000_000_000,
            q == ps@[i as int],
            c == close_count(ps@.take(j as int), q, num as int, den as int),
            c <= j,
        decreases i - j,
    {
        let hit = within(ps[j], q, num, den);
        proof {
            assert(ps@.take(j + 1).drop_last() =~= ps@.take(j as int));
            assert(ps@.take(j + 1).last() == ps@[j as int]);
        }
        if hit {
            c = c + 1;
        }
        j = j + 1;
    }
    proof {
        assert(ps@.take(i as int) =~= ps@.take(j as int));
    }
    c
}

/// A pair count never exceeds the square of the number of points.
pub proof fn lemma_pair_count_bound(ps: Seq<Point>, num: int, den: int)
    ensures
        pair_count(ps, num, den) <= ps.len() * ps.len(),
    decreases ps.len(),
{
    if ps.len() > 0 {
        lemma_pair_count_bound(ps.drop_last(), num, den);
        lemma_close_count_le_len(ps.drop_last(), ps.last(), num, den);
        let n = ps.len() as int;
        assert((n - 1) * (n - 1) + (n - 1) <= n * n) by (nonlinear_arith)
            requires
                n >= 1,
        ;
    }
}

/// Relies on rayon's parallel iterator over an index range: `map` applies
/// the verified `count_row` to each index of `0..len` and `sum` adds the
/// per-row results, so the call returns the total of all rows.
#[verifier::external_body]
fn count_pairs_par(ps: &Vec<Point>, num: u64, den: u64) -> (c: u64)
    requires
        ps@.len() <= MAX_POINTS,
        coords_ok(ps@),
        1 <= den <= 100,
        num <= 400_000_000_000,
    ensures
        c == row_sum(ps@, ps@.len() as int, num as int, den as int),
{
    (0..ps.len()).into_par_iter().map(|i| count_row(ps, i, num, den)).sum()
}

/// The exact K estimate for one rational distance threshold `num / den`.
fn k_ratio(ps: &Vec<Point>, area: u64, num: u64, den: u64) -> (k: Ratio)
    requires
        2 <= ps@.len() <= MAX_POINTS,
        coords_ok(ps@),
        1 <= area <= MAX_AREA,
        1 <= den <= 100,
        num <= 400_000_000_000,
    ensures
        k.num == 2 * area * pair_count(ps@, num as int, den as int),
        k.den == ps@.len() * (ps@.len() - 1),
{
    let c: u64 = count_pairs_par(ps, num, den);
    proof {
        lemma_row_sum_is_pair_count(ps@, num as int, den as int);
        lemma_pair_count_bound(ps@, num as int, den as int);
        assert(ps@.len() * ps@.len() <= 1_000_000_000_000) by (nonlinear_arith)
            requires
                ps@.len() <= MAX_POINTS,
        ;
    }
    assert(2 * (area as int) * (c as int) < 0x1_0000_0000_0000_0000_0000_0000_0000_0000
        && 2 * (area as int) <= 0x2000_0000_0000_0000_0000) by (nonlinear_arith)
        requires
            1 <= area <= MAX_AREA,
            0 <= c <= 1_000_000_000_000,
    ;
    let knum: u128 = 2 * (area as u128) * (c as u128);
    let n: usize = ps.len();
    assert((n as int) * ((n - 1) as int) <= 1_000_000_000_000) by (nonlinear_arith)
        requires
            2 <= n <= MAX_POINTS,
    ;
    let kden: u128 = (n as u128) * ((n - 1) as u128);
    Ratio { num: knum, den: kden }
}

/// Estimates Ripley's K for one distance `d`, in units: the exact rational
/// `2 * area * count / (n * (n - 1))` with `count` the number of unordered
/// pairs at distance at most `d`.
pub fn kest(points: &Vec<Point>, area: u64, d: u64) -> (k: Ratio)
    requires
        2 <= points@.len() <= MAX_POINTS,
        coords_ok(points@),
        1 <= area <= MAX_AREA,
        d <= MAX_DIST,
    ensures
        k.num == 2 * area * pair_count(points@, d as int, 1),
        k.den == points@.len() * (points@.len() - 1),
{
    k_ratio(points, area, d, 1)
}

/// The numerator of the K estimate for threshold `num / den`: twice the
/// window area times the pair count.
pub open spec fn k_num_spec(ps: Seq<Point>, area: int, num: int, den: int) -> int {
    2 * area * pair_count(ps, num, den)
}

/// The denominator of the K estimate: `n * (n - 1)`.
pub open spec fn k_den_spec(ps: Seq<Point>) -> int {
    ps.len() * (ps.len() - 1)
}

/// Numerator of the rational stand-in for pi used by the L-transform.
pub const PI_NUM: u64 = 355;

/// Denominator of the rational stand-in for pi used by the L-transform.
pub const PI_DEN: u64 = 113;

/// The L value at distance `dnum / 100`, as a numerator over 100: the floor
/// of `100 * sqrt(K / (355/113))` minus `dnum`.
pub open spec fn l_num_spec(ps: Seq<Point>, area: int, dnum: int) -> int {
    isqrt_spec((k_num_spec(ps, area, dnum, 100) * 10000 * PI_DEN) / (k_den_spec(ps) * PI_NUM))
        - dnum
}

/// Samples the K estimator at the hundred distances `i * max_d / 100` for
/// `i = 1 ..= 100` and returns the (distance, K) pairs in that order.
pub fn kfun(points: &Vec<Point>, area: u64, max_d: u64) -> (res: Vec<(Ratio, Ratio)>)
    requires
        2 <= points@.len() <= MAX_POINTS,
        coords_ok(points@),
        1 <= area <= MAX_AREA,
        1 <= max_d <= MAX_DIST,
    ensures
        res@.len() == 100,
        forall|j: int|
            0 <= j < 100 ==> {
                let e = #[trigger] res@[j];
                e.0.num == (j + 1) * max_d && e.0.den == 100 && e.1.num == k_num_spec(
                    points@,
                    area as int,
                    (j + 1) * max_d,
                    100,
                ) && e.1.den == k_den_spec(points@)
            },
{
    let mut res: Vec<(Ratio, Ratio)> = Vec::new();
    let mut i: u64 = 1;
    while i <= 100
        invariant
            1 <= i <= 101,
            res@.len() == i - 1,
            2 <= points@.len() <= MAX_POINTS,
            coords_ok(points@),
            1 <= area <= MAX_AREA,
            1 <= max_d <= MAX_DIST,
            forall|j: int|
                0 <= j < i - 1 ==> {
                    let e = #[trigger] res@[j];
                    e.0.num == (j + 1) * max_d && e.0.den == 100 && e.1.num == k_num_spec(
                        points@,
                        area as int,
                        (j + 1) * max_d,
                        100,
                    ) && e.1.den == k_den_spec(points@)
                },
        decreases 101 - i,
    {
        assert((i as int) * (max_d as int) <= 400_000_000_000) by (nonlinear_arith)
            requires
                1 <= i <= 100,
                1 <= max_d <= MAX_DIST,
        ;
        let dnum: u64 = i * max_d;
        let k = k_ratio(points, area, dnum, 100);
        res.push((Ratio { num: dnum as u128, den: 100 }, k));
        i = i + 1;
    }
    res
}

/// Validity of the inputs of a K/L request: at least two points, a positive
/// area and a positive maximum distance.
pub open spec fn kl_input_ok(ps: Seq<Point>, area: u64, max_d: u64) -> bool {
    ps.len() >= 2 && area >= 1 && max_d >= 1
}

/// Builds the K-function curve: one hundred sampling distances paired with
/// the exact K estimates at those distances. Rejects degenerate input
/// (fewer than two points, zero area or zero maximum distance) up front.
pub fn k_test(points: &Vec<Point>, area: u64, max_d: u64) -> (r: Result<
    (Vec<Ratio>, Vec<Ratio>),
    SpazialError,
>)
    requires
        points@.len() <= MAX_POINTS,
        coords_ok(points@),
        area <= MAX_AREA,
        max_d <= MAX_DIST,
    ensures
        r is Ok <==> kl_input_ok(points@, area, max_d),
        r matches Ok(v) ==> {
            &&& v.0@.len() == 100
            &&& v.1@.len() == 100
            &&& forall|j: int|
                0 <= j < 100 ==> (#[trigger] v.0@[j]).num == (j + 1) * max_d && v.0@[j].den == 100
                    && (#[trigger] v.1@[j]).num == k_num_spec(
                    points@,
                    area as int,
                    (j + 1) * max_d,
                    100,
                ) && v.1@[j].den == k_den_spec(points@)
        },
        r matches Err(e) ==> e == SpazialError::InvalidInput,
{
    if points.len() < 2 || area == 0 || max_d == 0 {
        return Err(SpazialError::InvalidInput);
    }
    let curve = kfun(points, area, max_d);
    let mut ds: Vec<Ratio> = Vec::new();
    let mut ks: Vec<Ratio> = Vec::new();
    let mut idx: usize = 0;
    while idx < curve.len()
        invariant
            0 <= idx <= curve@.len(),
            ds@.len() == idx,
            ks@.len() == idx,
            forall|j: int| 0 <= j < idx ==> #[trigger] ds@[j] == curve@[j].0,
            forall|j: int| 0 <= j < idx ==> #[trigger] ks@[j] == curve@[j].1,
        decreases curve@.len() - idx,
    {
        ds.push(curve[idx].0);
        ks.push(curve[idx].1);
        idx = idx + 1;
    }
    Ok((ds, ks))
}

/// Builds the L-function curve: the same hundred sampling distances paired
/// with the fixed-point L-transform `sqrt(K / pi) - d` of the K estimates,
/// with pi taken as 355/113 and the square root rounded down at a
/// hundredth of a unit. Rejects degenerate input up front.
pub fn l_test(points: &Vec<Point>, area: u64, max_d: u64) -> (r: Result<
    (Vec<Ratio>, Vec<SRatio>),
    SpazialError,
>)
    requires
        points@.len() <= MAX_POINTS,
        coords_ok(points@),
        area <= MAX_AREA,
        max_d <= MAX_DIST,
    ensures
        r is Ok <==> kl_input_ok(points@, area, max_d),
        r matches Ok(v) ==> {
            &&& v.0@.len() == 100
            &&& v.1@.len() == 100
            &&& forall|j: int|
                0 <= j < 100 ==> (#[trigger] v.0@[j]).num == (j + 1) * max_d && v.0@[j].den == 100
                    && (#[trigger] v.1@[j]).num == l_num_spec(points@, area as int, (j + 1) * max_d)
                    && v.1@[j].den == 100
        },
        r matches Err(e) ==> e == SpazialError::InvalidInput,
{
    if points.len() < 2 || area == 0 || max_d == 0 {
        return Err(SpazialError::InvalidInput);
    }
    let curve = kfun(points, area, max_d);
    let mut ds: Vec<Ratio> = Vec::new();
    let mut ls: Vec<SRatio> = Vec::new();
    let mut idx: usize = 0;
    while idx < curve.len()
        invariant
            0 <= idx <= curve@.len(),
            ds@.len() == idx,
            ls@.len() == idx,
            2 <= points@.len() <= MAX_POINTS,
            1 <= area <= MAX_AREA,
            1 <= max_d <= MAX_DIST,
            curve@.len() == 100,
            forall|j: int|
                0 <= j < 100 ==> {
                    let e = #[trigger] curve@[j];
                    e.0.num == (j + 1) * max_d && e.0.den == 100 && e.1.num == k_num_spec(
                        points@,
                        area as int,
                        (j + 1) * max_d,
                        100,
                    ) && e.1.den == k_den_spec(points@)
                },
            forall|j: int| 0 <= j < idx ==> #[trigger] ds@[j] == curve@[j].0,
            forall|j: int|
                0 <= j < idx ==> (#[trigger] ls@[j]).num == l_num_spec(
                    points@,
                    area as int,
                    (j + 1) * max_d,
                ) && ls@[j].den == 100,
        decreases curve@.len() - idx,
    {
        let (d, k) = curve[idx];
        proof {
            lemma_pair_count_bound(points@, (idx + 1) * max_d, 100);
            assert(points@.len() * points@.len() <= 1_000_000_000_000 && 2 <= points@.len() * (
            points@.len() - 1) && points@.len() * (points@.len() - 1) <= 1_000_000_000_000)
                by (nonlinear_arith)
                requires
                    2 <= points@.len() <= MAX_POINTS,
            ;
            assert(0 < (idx + 1) * (max_d as int) <= 400_000_000_000) by (nonlinear_arith)
                requires
                    0 <= idx < 100,
                    1 <= max_d <= MAX_DIST,
            ;
            assert(2 * (area as int) * pair_count(points@, (idx + 1) * max_d, 100) <= 2 * (
            MAX_AREA as int) * 1_000_000_000_000) by (nonlinear_arith)
                requires
                    1 <= area <= MAX_AREA,
                    0 <= pair_count(points@, (idx + 1) * max_d, 100) <= 1_000_000_000_000,
            ;
            assert({
                let e = curve@[idx as int];
                e.0.num == (idx + 1) * max_d && e.0.den == 100 && e.1.num == k_num_spec(
                    points@,
                    area as int,
                    (idx + 1) * max_d,
                    100,
                ) && e.1.den == k_den_spec(points@)
            });
        }
        let divisor: u128 = k.den * 355;
        let q: u128 = (k.num * 10000 * 113) / divisor;
        let s: u128 = isqrt(q);
        let l = SRatio { num: (s as i128) - (d.num as i128), den: 100 };
        ds.push(d);
        ls.push(l);
        idx = idx + 1;
    }
    Ok((ds, ls))
}

/// When every point of `ps` lies within the threshold of `q`, all of them
/// are counted.
proof fn lemma_close_count_full(ps: Seq<Point>, q: Point, num: int, den: int)
    requires
        forall|i: int| 0 <= i < ps.len() ==> within_dist(#[trigger] ps[i], q, num, den),
    ensures
        close_count(ps, q, num, den) == ps.len(),
    decreases ps.len(),
{
    if ps.len() > 0 {
        lemma_close_count_full(ps.drop_last(), q, num, den);
    }
}

/// When every pair lies within the threshold, the pair count is the number
/// of unordered pairs `n * (n - 1) / 2`, stated without division.
proof fn lemma_pair_count_full(ps: Seq<Point>, num: int, den: int)
    requires
        forall|i: int, j: int|
            0 <= i < j < ps.len() ==> within_dist(#[trigger] ps[i], #[trigger] ps[j], num, den),
    ensures
        2 * pair_count(ps, num, den) == ps.len() * (ps.len() - 1),
    decreases ps.len(),
{
    if ps.len() > 0 {
        let n = ps.len() as int;
        lemma_pair_count_full(ps.drop_last(), num, den);
        assert(forall|i: int|
            0 <= i < n - 1 ==> within_dist(#[trigger] ps.drop_last()[i], ps.last(), num, den));
        lemma_close_count_full(ps.drop_last(), ps.last(), num, den);
        assert((n - 1) * (n - 2) + 2 * (n - 1) == n * (n - 1)) by (nonlinear_arith);
    }
}

/// With at least two points and a threshold at least as large as every
/// pairwise distance, the K estimate equals the window area exactly: its
/// numerator is `area` times its denominator.
pub proof fn lemma_k_saturates(ps: Seq<Point>, area: int, num: int, den: int)
    requires
        ps.len() >= 2,
        forall|i: int, j: int|
            0 <= i < j < ps.len() ==> within_dist(#[trigger] ps[i], #[trigger] ps[j], num, den),
    ensures
        k_num_spec(ps, area, num, den) == area * k_den_spec(ps),
{
    lemma_pair_count_full(ps, num, den);
    let p = pair_count(ps, num, den) as int;
    let n = ps.len() as int;
    assert(2 * area * p == area * (n * (n - 1))) by (nonlinear_arith)
        requires
            2 * p == n * (n - 1),
    ;
}

/// A point within the smaller threshold is within the larger one.
proof fn lemma_close_count_monotone(ps: Seq<Point>, q: Point, num1: int, num2: int, den: int)
    requires
        0 <= num1 <= num2,
    ensures
        close_count(ps, q, num1, den) <= close_count(ps, q, num2, den),
    decreases ps.len(),
{
    if ps.len() > 0 {
        lemma_close_count_monotone(ps.drop_last(), q, num1, num2, den);
        assert(within_dist(ps.last(), q, num1, den) ==> within_dist(ps.last(), q, num2, den))
            by (nonlinear_arith)
            requires
                0 <= num1 <= num2,
        ;
    }
}

/// Enlarging the distance threshold never loses a counted pair.
pub proof fn lemma_pair_count_monotone(ps: Seq<Point>, num1: int, num2: int, den: int)
    requires
        0 <= num1 <= num2,
    ensures
        pair_count(ps, num1, den) <= pair_count(ps, num2, den),
    decreases ps.len(),
{
    if ps.len() > 0 {
        lemma_pair_count_monotone(ps.drop_last(), num1, num2, den);
        lemma_close_count_monotone(ps.drop_last(), ps.last(), num1, num2, den);
    }
}

/// The K estimator is monotonically non-decreasing in the distance: for two
/// thresholds over the same denominator, the K numerator at the smaller one
/// is at most the K numerator at the larger one (the denominators of the
/// two estimates are equal, so this compares the estimates themselves).
pub proof fn lemma_k_monotone(ps: Seq<Point>, area: int, num1: int, num2: int, den: int)
    requires
        area >= 0,
        0 <= num1 <= num2,
    ensures
        k_num_spec(ps, area, num1, den) <= k_num_spec(ps, area, num2, den),
{
    lemma_pair_count_monotone(ps, num1, num2, den);
    let p1 = pair_count(ps, num1, den) as int;
    let p2 = pair_count(ps, num2, den) as int;
    assert(2 * area * p1 <= 2 * area * p2) by (nonlinear_arith)
        requires
            area >= 0,
            0 <= p1 <= p2,
    ;
}

/// In the degenerate case of a zero K estimate the L value is exactly
/// minus the sampling distance: the L numerator over 100 is `-dnum`.
pub proof fn lemma_l_degenerate(ps: Seq<Point>, area: int, dnum: int)
    requires
        ps.len() >= 2,
        pair_count(ps, dnum, 100) == 0,
    ensures
        l_num_spec(ps, area, dnum) == -dnum,
{
    let n = ps.len() as int;
    assert(k_num_spec(ps, area, dnum, 100) == 0) by (nonlinear_arith)
        requires
            pair_count(ps, dnum, 100) == 0,
            k_num_spec(ps, area, dnum, 100) == 2 * area * pair_count(ps, dnum, 100),
    ;
    assert(n * (n - 1) >= 2) by (nonlinear_arith)
        requires
            n >= 2,
    ;
    assert((0int * 10000 * PI_DEN) / (k_den_spec(ps) * PI_NUM) == 0) by (nonlinear_arith)
        requires
            k_den_spec(ps) * PI_NUM >= 2,
    ;
    assert(isqrt_spec(0) == 0);
}

} // verus!
