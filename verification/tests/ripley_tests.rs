use rand::Rng;
use spazial::geom::{euclidean_distance, Point};
use spazial::isqrt::isqrt;
use spazial::ripley::{k_test, kest, kfun, l_test, Ratio};
use spazial::SpazialError;

fn pt(x: i64, y: i64) -> Point {
    Point { x, y }
}

/// Four corners of a unit square at a scale of 1000 units per coordinate.
fn unit_square() -> Vec<Point> {
    vec![pt(0, 0), pt(1000, 0), pt(0, 1000), pt(1000, 1000)]
}

#[test]
fn test_ripleys() {
    // 100 random points on a 100 x 100 window, at 1000 units per length
    // unit; area 10000 and distance 10 in window lengths.
    let mut rng = rand::thread_rng();
    let points: Vec<Point> = (0..100)
        .map(|_| pt(rng.gen_range(0..100_000), rng.gen_range(0..100_000)))
        .collect();
    let area: u64 = 10_000_000_000; // 10000 length units squared
    let t: u64 = 10_000; // 10 length units
    let k_value = kest(&points, area, t);
    let k_in_window_units = k_value.num as f64 / k_value.den as f64 / 1_000_000.0;
    println!("Ripley's K-Funktion Wert: {}", k_in_window_units);
}

#[test]
fn test_ripleys_func() {
    let w: i64 = 500_000; // 500 length units at 1000 units each
    let mut rng = rand::thread_rng();
    let points: Vec<Point> = (0..500)
        .map(|_| pt(rng.gen_range(0..w), rng.gen_range(0..w)))
        .collect();
    let area: u64 = 250_000_000_000; // 500 * 500 length units squared
    let max_d: u64 = 50_000; // 50 length units
    let k_values: Vec<(Ratio, Ratio)> = kfun(&points, area, max_d);
    assert_eq!(k_values.len(), 100);
    let l_values: Vec<(f64, f64)> = k_values
        .iter()
        .map(|(d, k)| {
            let df = d.num as f64 / d.den as f64;
            let kf = k.num as f64 / k.den as f64;
            (df, (kf / std::f64::consts::PI).sqrt())
        })
        .collect();
    assert_eq!(l_values.len(), 100);
}

#[test]
fn test_k_saturates_at_full_distance() {
    // Any threshold above the largest pairwise distance counts every pair,
    // and the K estimate equals the area exactly.
    let points = unit_square();
    let area: u64 = 1_000_000;
    let k = kest(&points, area, 4_000_000_000);
    assert_eq!(k.num, area as u128 * k.den);
}

#[test]
fn test_k_unit_square_curve() {
    // The unit square at scale 1000: area 1.0, max_d 2.0. Pair distances
    // are 1 (four sides) and sqrt(2) (two diagonals).
    let points = unit_square();
    let (ds, ks) = k_test(&points, 1_000_000, 2000).unwrap();
    assert_eq!(ds.len(), 100);
    assert_eq!(ks.len(), 100);
    for idx in 0..100 {
        let i = (idx + 1) as u128;
        assert_eq!(ds[idx].num, i * 2000);
        assert_eq!(ds[idx].den, 100);
        // count pairs with distance <= i * 20 units exactly
        let pairs: u128 = if i >= 71 {
            6 // all pairs, including both diagonals: d >= sqrt(2)
        } else if i >= 50 {
            4 // the four sides of length 1000 units
        } else {
            0
        };
        assert_eq!(ks[idx].num, 2 * 1_000_000 * pairs);
        assert_eq!(ks[idx].den, 12);
    }
    // for d >= sqrt(2) every pair is counted and K equals the area
    assert_eq!(ks[99].num, 1_000_000 * ks[99].den);
}

#[test]
fn test_k_monotone_in_distance() {
    let points = unit_square();
    let (_, ks) = k_test(&points, 777, 3999).unwrap();
    for i in 1..100 {
        assert_eq!(ks[i].den, ks[i - 1].den);
        assert!(ks[i].num >= ks[i - 1].num);
    }
}

#[test]
fn test_k_last_sample_matches_kest() {
    let points = unit_square();
    let area: u64 = 123_456;
    let max_d: u64 = 1500;
    let curve = kfun(&points, area, max_d);
    let single = kest(&points, area, max_d);
    assert_eq!(curve[99].1, single);
}

#[test]
fn test_l_matches_k_transform() {
    // Each L value is the floor of 100 * sqrt(K / (355/113)) minus the
    // distance numerator, over the shared denominator 100.
    let points = unit_square();
    let area: u64 = 1_000_000;
    let max_d: u64 = 2000;
    let (ds, ks) = k_test(&points, area, max_d).unwrap();
    let (ds2, ls) = l_test(&points, area, max_d).unwrap();
    assert_eq!(ds, ds2);
    for i in 0..100 {
        let q = (ks[i].num * 10000 * 113) / (ks[i].den * 355);
        let expected = isqrt(q) as i128 - ds[i].num as i128;
        assert_eq!(ls[i].num, expected);
        assert_eq!(ls[i].den, 100);
    }
}

#[test]
fn test_l_degenerate_is_minus_distance() {
    // No pair within reach: K is 0 on the whole curve and l == -d exactly.
    let points = vec![pt(0, 0), pt(500_000, 0), pt(0, 500_000)];
    let (ds, ls) = l_test(&points, 1_000_000, 1000).unwrap();
    for i in 0..100 {
        assert_eq!(ls[i].num, -(ds[i].num as i128));
        assert_eq!(ls[i].den, 100);
    }
}

#[test]
fn test_curves_have_hundred_increasing_distances() {
    let points = unit_square();
    let max_d: u64 = 997;
    let (ds, ks) = k_test(&points, 42, max_d).unwrap();
    assert_eq!(ds.len(), 100);
    assert_eq!(ks.len(), 100);
    for i in 0..100 {
        assert_eq!(ds[i].num, (i as u128 + 1) * max_d as u128);
        assert_eq!(ds[i].den, 100);
        if i > 0 {
            assert!(ds[i].num > ds[i - 1].num);
        }
    }
    assert_eq!(ds[99].num, 100 * max_d as u128);
}

#[test]
fn test_k_rejects_invalid_input() {
    let one = vec![pt(0, 0)];
    assert_eq!(k_test(&one, 100, 100), Err(SpazialError::InvalidInput));
    let two = unit_square();
    assert_eq!(k_test(&two, 0, 100), Err(SpazialError::InvalidInput));
    assert_eq!(k_test(&two, 100, 0), Err(SpazialError::InvalidInput));
    assert!(k_test(&two, 100, 100).is_ok());
}

#[test]
fn test_l_rejects_invalid_input() {
    let one = vec![pt(3, 4)];
    assert_eq!(l_test(&one, 100, 100), Err(SpazialError::InvalidInput));
    let two = unit_square();
    assert_eq!(l_test(&two, 0, 100), Err(SpazialError::InvalidInput));
    assert_eq!(l_test(&two, 100, 0), Err(SpazialError::InvalidInput));
    assert!(l_test(&two, 100, 100).is_ok());
}

#[test]
fn test_euclidean_distance_exact() {
    assert_eq!(euclidean_distance(pt(0, 0), pt(3, 4)), 5);
    assert_eq!(euclidean_distance(pt(-3, 0), pt(0, -4)), 5);
    assert_eq!(euclidean_distance(pt(0, 0), pt(1, 1)), 1); // floor of sqrt(2)
    assert_eq!(euclidean_distance(pt(7, 9), pt(7, 9)), 0);
}

#[test]
fn test_isqrt_exact() {
    assert_eq!(isqrt(0), 0);
    assert_eq!(isqrt(1), 1);
    assert_eq!(isqrt(15), 3);
    assert_eq!(isqrt(16), 4);
    assert_eq!(isqrt(1_000_000_000_000), 1_000_000);
    assert_eq!(isqrt(u64::MAX as u128), 4_294_967_295);
}
