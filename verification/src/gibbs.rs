//! Gibbs-Strauss hardcore point-process generation by rejection sampling.
//!
//! Candidates are drawn uniformly over the region, kept with a fixed
//! acceptance probability, and accepted only when they keep the hardcore
//! distance to every point accepted before. The run stops when the target
//! count is reached or the iteration budget is spent; it may return fewer
//! points than requested, which callers observe through the length.

use crate::geom::{coord_ok, sq_dist, sq_dist_spec, Point};
use crate::rng::{gen_below, rng_from_seed};
use crate::SpazialError;
use vstd::prelude::*;

verus! {

/// Acceptance probabilities are fixed-point fractions over this unit.
pub const PROB_UNIT: u64 = 1_000_000_000;

/// Largest region dimension, in units; keeps every candidate coordinate
/// within the accepted coordinate range.
pub const DIM_LIMIT: u64 = 1_000_000_000;

/// One iteration's worth of randomness: a candidate coordinate pair and an
/// acceptance draw below `PROB_UNIT`.
#[derive(Clone, Copy, Debug, PartialEq, Eq, Structural)]
pub struct Draw {
    pub x: u64,
    pub y: u64,
    pub keep: u64,
}

/// Parameters of the generated process. The intensity, in points per
/// squared unit, is the exact fraction `intensity_num / intensity_den`;
/// the acceptance probability is `accept_prob / PROB_UNIT`; region and
/// hardcore radius are in units.
#[derive(Clone, Copy, Debug)]
pub struct GibbsParams {
    pub intensity_num: u64,
    pub intensity_den: u64,
    pub hardcore_radius: u64,
    pub accept_prob: u64,
    pub width: u64,
    pub height: u64,
    pub max_iterations: Option<usize>,
}

/// The inputs the generator accepts: a nonzero intensity denominator, an
/// acceptance probability of at most one, positive region dimensions in
/// range, and a positive iteration cap when one is given.
pub open spec fn params_ok(p: GibbsParams) -> bool {
    &&& p.intensity_den >= 1
    &&& p.accept_prob <= PROB_UNIT
    &&& 1 <= p.width <= DIM_LIMIT
    &&& 1 <= p.height <= DIM_LIMIT
    &&& (p.max_iterations matches Some(m) ==> m >= 1)
}

/// Requested number of points: the floor of intensity times region area.
pub open spec fn target_count(p: GibbsParams) -> int {
    (p.intensity_num * p.width * p.height) / (p.intensity_den as int)
}

/// The iteration budget: the given cap, or a hundred draws per requested
/// point when none is given.
pub open spec fn iteration_budget(p: GibbsParams) -> int {
    match p.max_iterations {
        Some(m) => m as int,
        None => 100 * target_count(p),
    }
}

/// The squared hardcore radius, in squared units.
pub open spec fn hardcore_sq(p: GibbsParams) -> int {
    p.hardcore_radius * p.hardcore_radius
}

/// The candidate point a draw proposes.
pub open spec fn draw_point(d: Draw) -> Point {
    Point { x: d.x as i64, y: d.y as i64 }
}

/// A draw lies in the region and below the probability unit.
pub open spec fn draw_ok(d: Draw, p: GibbsParams) -> bool {
    d.x < p.width && d.y < p.height && d.keep < PROB_UNIT
}

/// Every draw of the sequence is in range.
pub open spec fn draws_ok(ds: Seq<Draw>, p: GibbsParams) -> bool {
    forall|i: int| 0 <= i < ds.len() ==> draw_ok(#[trigger] ds[i], p)
}

/// The candidate keeps at least the squared distance `rr` to every point.
pub open spec fn separated_from(pts: Seq<Point>, c: Point, rr: int) -> bool {
    forall|i: int| 0 <= i < pts.len() ==> sq_dist_spec(#[trigger] pts[i], c) >= rr
}

/// Every pair of distinct points keeps at least the squared distance `rr`.
pub open spec fn pairwise_separated(pts: Seq<Point>, rr: int) -> bool {
    forall|i: int, j: int|
        0 <= i < j < pts.len() ==> sq_dist_spec(#[trigger] pts[i], #[trigger] pts[j]) >= rr
}

/// Every point lies in `[0, w) x [0, h)`.
pub open spec fn in_window(pts: Seq<Point>, w: int, h: int) -> bool {
    forall|i: int| 0 <= i < pts.len() ==> 0 <= (#[trigger] pts[i]).x < w && 0 <= pts[i].y < h
}

/// One rejection-sampling step: keep the candidate exactly when the
/// acceptance draw passes and the hardcore constraint holds.
pub open spec fn gibbs_step(pts: Seq<Point>, d: Draw, p: GibbsParams) -> Seq<Point> {
    if d.keep < p.accept_prob && separated_from(pts, draw_point(d), hardcore_sq(p)) {
        pts.push(draw_point(d))
    } else {
        pts
    }
}

/// A whole run: the draws are consumed in order until the target count is
/// reached or they run out. The result is a function of the parameters and
/// the draws alone.
pub open spec fn gibbs_run(pts: Seq<Point>, ds: Seq<Draw>, p: GibbsParams) -> Seq<Point>
    decreases ds.len(),
{
    if ds.len() == 0 || pts.len() >= target_count(p) {
        pts
    } else {
        gibbs_run(gibbs_step(pts, ds[0], p), ds.drop_first(), p)
    }
}

/// Appending one draw to a run either does nothing (target already met) or
/// applies one step to the run's result.
proof fn lemma_gibbs_run_snoc(pts: Seq<Point>, ds: Seq<Draw>, d: Draw, p: GibbsParams)
    ensures
        gibbs_run(pts, ds.push(d), p) == (if gibbs_run(pts, ds, p).len() >= target_count(p) {
            gibbs_run(pts, ds, p)
        } else {
            gibbs_step(gibbs_run(pts, ds, p), d, p)
        }),
    decreases ds.len(),
{
    if pts.len() >= target_count(p) {
        assert(gibbs_run(pts, ds, p) == pts);
        assert(gibbs_run(pts, ds.push(d), p) == pts);
    } else if ds.len() == 0 {
        assert(ds.push(d)[0] == d);
        assert(ds.push(d).drop_first() =~= Seq::<Draw>::empty());
        assert(gibbs_run(pts, ds, p) == pts);
        assert(gibbs_run(pts, ds.push(d), p) == gibbs_run(
            gibbs_step(pts, d, p),
            ds.push(d).drop_first(),
            p,
        ));
        assert(gibbs_run(gibbs_step(pts, d, p), ds.push(d).drop_first(), p) == gibbs_run(
            gibbs_step(pts, d, p),
            Seq::<Draw>::empty(),
            p,
        ));
    } else {
        lemma_gibbs_run_snoc(gibbs_step(pts, ds[0], p), ds.drop_first(), d, p);
        assert(ds.push(d)[0] == ds[0]);
        assert(ds.push(d).drop_first() =~= ds.drop_first().push(d));
        assert(gibbs_run(pts, ds.push(d), p) == gibbs_run(
            gibbs_step(pts, ds[0], p),
            ds.drop_first().push(d),
            p,
        ));
        assert(gibbs_run(pts, ds, p) == gibbs_run(gibbs_step(pts, ds[0], p), ds.drop_first(), p));
    }
}

/// What holds of every run output: the points stay in the window, keep the
/// hardcore separation pairwise, and never exceed the target count (or the
/// starting length, when that already meets the target).
pub proof fn lemma_gibbs_run_props(pts: Seq<Point>, ds: Seq<Draw>, p: GibbsParams)
    requires
        params_ok(p),
        draws_ok(ds, p),
        in_window(pts, p.width as int, p.height as int),
        pairwise_separated(pts, hardcore_sq(p)),
    ensures
        in_window(gibbs_run(pts, ds, p), p.width as int, p.height as int),
        pairwise_separated(gibbs_run(pts, ds, p), hardcore_sq(p)),
        gibbs_run(pts, ds, p).len() <= (if pts.len() >= target_count(p) {
            pts.len() as int
        } else {
            target_count(p)
        }),
    decreases ds.len(),
{
    if ds.len() == 0 || pts.len() >= target_count(p) {
    } else {
        let next = gibbs_step(pts, ds[0], p);
        assert(draw_ok(ds[0], p));
        assert(forall|i: int| 0 <= i < ds.drop_first().len() ==> draw_ok(
            #[trigger] ds.drop_first()[i],
            p,
        ));
        lemma_gibbs_run_props(next, ds.drop_first(), p);
    }
}

/// Computes the target point count `floor(intensity * width * height)`.
fn compute_target(p: &GibbsParams) -> (t: u128)
    requires
        params_ok(*p),
    ensures
        t == target_count(*p),
        0 <= target_count(*p),
{
    assert((p.intensity_num as int) * (p.width as int) * (p.height as int)
        < 0x1_0000_0000_0000_0000_0000_0000_0000_0000 && (p.intensity_num as int) * (
    p.width as int) <= 0xffff_ffff_ffff_ffff_0000_0000) by (nonlinear_arith)
        requires
            p.intensity_num <= 0xffff_ffff_ffff_ffff,
            1 <= p.width <= DIM_LIMIT,
            1 <= p.height <= DIM_LIMIT,
    ;
    let prod: u128 = (p.intensity_num as u128) * (p.width as u128) * (p.height as u128);
    prod / (p.intensity_den as u128)
}

/// Checks the hardcore constraint of a candidate against every accepted
/// point by an exhaustive squared-distance comparison.
fn all_separated(pts: &Vec<Point>, c: Point, rsq: u128) -> (r: bool)
    requires
        coord_ok(c),
        forall|i: int| 0 <= i < pts@.len() ==> coord_ok(#[trigger] pts@[i]),
    ensures
        r == separated_from(pts@, c, rsq as int),
{
    let mut i: usize = 0;
    while i < pts.len()
        invariant
            0 <= i <= pts@.len(),
            coord_ok(c),
            forall|j: int| 0 <= j < pts@.len() ==> coord_ok(#[trigger] pts@[j]),
            forall|j: int| 0 <= j < i ==> sq_dist_spec(#[trigger] pts@[j], c) >= rsq,
        decreases pts@.len() - i,
    {
        let sq: u64 = sq_dist(pts[i], c);
        if (sq as u128) < rsq {
            assert(sq_dist_spec(pts@[i as int], c) < rsq);
            return false;
        }
        i = i + 1;
    }
    true
}

/// Replays a run on an explicit draw sequence. The output is completely
/// determined by the parameters and the draws: two calls on equal inputs
/// return equal point sets.
pub fn gibbs_from_draws(p: &GibbsParams, draws: &Vec<Draw>) -> (pts: Vec<Point>)
    requires
        params_ok(*p),
        draws_ok(draws@, *p),
    ensures
        pts@ == gibbs_run(Seq::empty(), draws@, *p),
        in_window(pts@, p.width as int, p.height as int),
        pairwise_separated(pts@, hardcore_sq(*p)),
        pts@.len() <= target_count(*p),
{
    let target: u128 = compute_target(p);
    assert((p.hardcore_radius as int) * (p.hardcore_radius as int)
        < 0x1_0000_0000_0000_0000_0000_0000_0000_0000) by (nonlinear_arith)
        requires
            p.hardcore_radius <= 0xffff_ffff_ffff_ffff,
    ;
    let rsq: u128 = (p.hardcore_radius as u128) * (p.hardcore_radius as u128);
    let mut pts: Vec<Point> = Vec::new();
    let mut k: usize = 0;
    while k < draws.len()
        invariant
            0 <= k <= draws@.len(),
            params_ok(*p),
            draws_ok(draws@, *p),
            target == target_count(*p),
            rsq == hardcore_sq(*p),
            pts@ == gibbs_run(Seq::empty(), draws@.take(k as int), *p),
            in_window(pts@, p.width as int, p.height as int),
        decreases draws@.len() - k,
    {
        let d: Draw = draws[k];
        proof {
            assert(draws@.take(k + 1) =~= draws@.take(k as int).push(d));
            lemma_gibbs_run_snoc(Seq::empty(), draws@.take(k as int), d, *p);
            assert(draw_ok(d, *p));
        }
        if (pts.len() as u128) < target {
            let c = Point { x: d.x as i64, y: d.y as i64 };
            assert(forall|j: int| 0 <= j < pts@.len() ==> coord_ok(#[trigger] pts@[j]));
            if d.keep < p.accept_prob {
                if all_separated(&pts, c, rsq) {
                    pts.push(c);
                }
            }
        }
        k = k + 1;
    }
    proof {
        assert(draws@.take(draws@.len() as int) =~= draws@);
        lemma_gibbs_run_props(Seq::empty(), draws@, *p);
    }
    pts
}

/// Generates a Gibbs-Strauss pattern from a seeded random source: up to
/// the target count of points drawn uniformly over the region, thinned by
/// the acceptance probability and the hardcore constraint, within the
/// iteration budget. The run stops only by reaching the target or by
/// spending the whole budget, one draw per iteration; a shortfall against
/// the target is observed through the returned length.
pub fn gibbs_strauss_process(p: &GibbsParams, seed: u64) -> (r: Result<Vec<Point>, SpazialError>)
    requires
        p.max_iterations is None ==> 100 * target_count(*p) <= usize::MAX,
    ensures
        r is Ok <==> params_ok(*p),
        r matches Ok(pts) ==> {
            &&& in_window(pts@, p.width as int, p.height as int)
            &&& pairwise_separated(pts@, hardcore_sq(*p))
            &&& pts@.len() <= target_count(*p)
            &&& exists|ds: Seq<Draw>|
                draws_ok(ds, *p) && ds.len() <= iteration_budget(*p) && pts@ == gibbs_run(
                    Seq::empty(),
                    ds,
                    *p,
                ) && (pts@.len() >= target_count(*p) || ds.len() >= iteration_budget(*p))
        },
        r matches Err(e) ==> e == SpazialError::InvalidInput,
{
    if p.intensity_den == 0 || p.accept_prob > PROB_UNIT || p.width == 0 || p.width > DIM_LIMIT
        || p.height == 0 || p.height > DIM_LIMIT {
        return Err(SpazialError::InvalidInput);
    }
    match p.max_iterations {
        Some(m) => if m == 0 {
            return Err(SpazialError::InvalidInput);
        },
        None => {},
    }
    let target: u128 = compute_target(p);
    let iters: usize = match p.max_iterations {
        Some(m) => m,
        None => {
            assert(100 * target <= usize::MAX);
            (100 * target) as usize
        },
    };
    assert((p.hardcore_radius as int) * (p.hardcore_radius as int)
        < 0x1_0000_0000_0000_0000_0000_0000_0000_0000) by (nonlinear_arith)
        requires
            p.hardcore_radius <= 0xffff_ffff_ffff_ffff,
    ;
    let rsq: u128 = (p.hardcore_radius as u128) * (p.hardcore_radius as u128);
    let mut rng = rng_from_seed(seed);
    let mut pts: Vec<Point> = Vec::new();
    let ghost mut ds: Seq<Draw> = Seq::empty();
    let mut it: usize = 0;
    while it < iters && (pts.len() as u128) < target
        invariant
            0 <= it <= iters,
            iters == iteration_budget(*p),
            params_ok(*p),
            target == target_count(*p),
            rsq == hardcore_sq(*p),
            ds.len() == it,
            draws_ok(ds, *p),
            pts@ == gibbs_run(Seq::empty(), ds, *p),
            in_window(pts@, p.width as int, p.height as int),
        decreases iters - it,
    {
        let x = gen_below(&mut rng, p.width);
        let y = gen_below(&mut rng, p.height);
        let keep = gen_below(&mut rng, PROB_UNIT);
        let d = Draw { x, y, keep };
        proof {
            lemma_gibbs_run_snoc(Seq::empty(), ds, d, *p);
            assert(draw_ok(d, *p));
        }
        let c = Point { x: d.x as i64, y: d.y as i64 };
        assert(forall|j: int| 0 <= j < pts@.len() ==> coord_ok(#[trigger] pts@[j]));
        if d.keep < p.accept_prob {
            if all_separated(&pts, c, rsq) {
                pts.push(c);
            }
        }
        proof {
            ds = ds.push(d);
        }
        it = it + 1;
    }
    proof {
        lemma_gibbs_run_props(Seq::empty(), ds, *p);
    }
    Ok(pts)
}

} // verus!
