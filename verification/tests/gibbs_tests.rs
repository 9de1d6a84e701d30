use spazial::gibbs::{gibbs_from_draws, gibbs_strauss_process, Draw, GibbsParams, PROB_UNIT};
use spazial::geom::Point;
use spazial::SpazialError;

fn base_params() -> GibbsParams {
    GibbsParams {
        intensity_num: 1,
        intensity_den: 5_000_000,
        hardcore_radius: 1000,
        accept_prob: PROB_UNIT,
        width: 10_000,
        height: 10_000,
        max_iterations: None,
    }
}

fn sq_dist(a: Point, b: Point) -> u128 {
    let dx = (b.x - a.x) as i128;
    let dy = (b.y - a.y) as i128;
    (dx * dx + dy * dy) as u128
}

#[test]
fn test_gibbs_hardcore_invariants() {
    // target = 1 * 10000 * 10000 / 5000000 = 20 points requested
    let p = base_params();
    let pts = gibbs_strauss_process(&p, 7).unwrap();
    assert!(pts.len() <= 20);
    let rr = (p.hardcore_radius as u128) * (p.hardcore_radius as u128);
    for i in 0..pts.len() {
        assert!(0 <= pts[i].x && pts[i].x < p.width as i64);
        assert!(0 <= pts[i].y && pts[i].y < p.height as i64);
        for j in 0..i {
            assert!(sq_dist(pts[j], pts[i]) >= rr);
        }
    }
    // with probability one and a modest radius the budget of 2000 draws
    // is ample: the target itself must be reached
    assert_eq!(pts.len(), 20);
}

#[test]
fn test_gibbs_deterministic_runs() {
    let p = base_params();
    let a = gibbs_strauss_process(&p, 42).unwrap();
    let b = gibbs_strauss_process(&p, 42).unwrap();
    assert_eq!(a, b);
    assert_eq!(a.len(), 20);
}

#[test]
fn test_gibbs_from_draws_deterministic() {
    let p = GibbsParams {
        intensity_num: 3,
        intensity_den: 1,
        hardcore_radius: 10,
        accept_prob: PROB_UNIT,
        width: 100,
        height: 100,
        max_iterations: Some(50),
    };
    let draws: Vec<Draw> = (0..50)
        .map(|i| Draw { x: (i * 13) % 100, y: (i * 29) % 100, keep: 0 })
        .collect();
    let a = gibbs_from_draws(&p, &draws);
    let b = gibbs_from_draws(&p, &draws);
    assert_eq!(a, b);
}

#[test]
fn test_gibbs_from_draws_exact_replay() {
    // Probability one, radius 1000: the second candidate repeats the first
    // and is rejected by the hardcore constraint; the third lands far away.
    let p = GibbsParams {
        intensity_num: 100,
        intensity_den: 1,
        hardcore_radius: 1000,
        accept_prob: PROB_UNIT,
        width: 5000,
        height: 5000,
        max_iterations: Some(3),
    };
    let draws = vec![
        Draw { x: 100, y: 100, keep: 0 },
        Draw { x: 100, y: 100, keep: 0 },
        Draw { x: 4000, y: 4000, keep: 0 },
    ];
    let pts = gibbs_from_draws(&p, &draws);
    assert_eq!(pts, vec![Point { x: 100, y: 100 }, Point { x: 4000, y: 4000 }]);
}

#[test]
fn test_gibbs_from_draws_acceptance_thinning() {
    // keep-draws at or above the acceptance probability discard candidates.
    let p = GibbsParams {
        intensity_num: 100,
        intensity_den: 1,
        hardcore_radius: 1,
        accept_prob: 500_000_000,
        width: 5000,
        height: 5000,
        max_iterations: Some(2),
    };
    let draws = vec![
        Draw { x: 10, y: 10, keep: 600_000_000 },
        Draw { x: 20, y: 20, keep: 499_999_999 },
    ];
    let pts = gibbs_from_draws(&p, &draws);
    assert_eq!(pts, vec![Point { x: 20, y: 20 }]);
}

#[test]
fn test_gibbs_from_draws_stops_at_target() {
    // target 1: later valid draws are ignored once the target is reached.
    let p = GibbsParams {
        intensity_num: 1,
        intensity_den: 25_000_000,
        hardcore_radius: 1,
        accept_prob: PROB_UNIT,
        width: 5000,
        height: 5000,
        max_iterations: Some(3),
    };
    let draws = vec![
        Draw { x: 10, y: 10, keep: 0 },
        Draw { x: 3000, y: 3000, keep: 0 },
        Draw { x: 4000, y: 1000, keep: 0 },
    ];
    let pts = gibbs_from_draws(&p, &draws);
    assert_eq!(pts, vec![Point { x: 10, y: 10 }]);
}

#[test]
fn test_gibbs_zero_intensity_returns_empty() {
    let p = GibbsParams {
        intensity_num: 0,
        intensity_den: 1,
        hardcore_radius: 1_000_000_000,
        accept_prob: PROB_UNIT,
        width: 10_000,
        height: 10_000,
        max_iterations: None,
    };
    let pts = gibbs_strauss_process(&p, 1).unwrap();
    assert_eq!(pts.len(), 0);
}

#[test]
fn test_gibbs_underfills_when_infeasible() {
    // A radius larger than the region diagonal allows one point at most,
    // however many are requested: a soft shortfall, not an error.
    let p = GibbsParams {
        intensity_num: 50,
        intensity_den: 1,
        hardcore_radius: 100_000,
        accept_prob: PROB_UNIT,
        width: 1000,
        height: 1000,
        max_iterations: Some(500),
    };
    let pts = gibbs_strauss_process(&p, 3).unwrap();
    assert_eq!(pts.len(), 1);
}

#[test]
fn test_gibbs_rejects_invalid_input() {
    let mut p = base_params();
    p.intensity_den = 0;
    assert_eq!(gibbs_strauss_process(&p, 1), Err(SpazialError::InvalidInput));
    let mut p = base_params();
    p.accept_prob = PROB_UNIT + 1;
    assert_eq!(gibbs_strauss_process(&p, 1), Err(SpazialError::InvalidInput));
    let mut p = base_params();
    p.width = 0;
    assert_eq!(gibbs_strauss_process(&p, 1), Err(SpazialError::InvalidInput));
    let mut p = base_params();
    p.height = 0;
    assert_eq!(gibbs_strauss_process(&p, 1), Err(SpazialError::InvalidInput));
    let mut p = base_params();
    p.max_iterations = Some(0);
    assert_eq!(gibbs_strauss_process(&p, 1), Err(SpazialError::InvalidInput));
}
