//! Behavior of the scalar fixed-point operators: the fixed-point product,
//! the overlay blend and its continuity at one half, the crater depth
//! transform, and the smooth cubic threshold.

use terragen::fixed::{deepen, fp_mul, overlay, sstep};
use terragen::{HALF, SCALE};

#[test]
fn fp_mul_squares_one_half_to_one_quarter() {
    assert_eq!(fp_mul(HALF, HALF), SCALE / 4);
    assert_eq!(fp_mul(SCALE, SCALE), SCALE);
    assert_eq!(fp_mul(0, SCALE), 0);
}

#[test]
fn overlay_at_half_bottom_returns_top_exactly() {
    // Continuity at the branch boundary: a bottom of exactly one half
    // hands the top value through unchanged.
    for top in [0, 1, 12_345, HALF, SCALE - 1, SCALE] {
        assert_eq!(overlay(HALF, top), top);
    }
    // One step either side of the boundary moves the result by at most a
    // couple of fixed-point units: no jump at the seam.
    for top in [0, 300_000, HALF, SCALE] {
        let below = overlay(HALF - 1, top);
        let above = overlay(HALF + 1, top);
        assert!((below - above).abs() <= 4);
    }
}

#[test]
fn overlay_of_black_and_white_bottoms() {
    // A black bottom swallows the top; a white bottom saturates.
    assert_eq!(overlay(0, HALF), 0);
    assert_eq!(overlay(SCALE, HALF), SCALE);
}

#[test]
fn deepen_with_unit_depth_is_identity() {
    for top in [0, 100, HALF, SCALE] {
        assert_eq!(deepen(top, SCALE), top);
    }
}

#[test]
fn deepen_compresses_deviation_from_the_mid_level() {
    // Depth 2.0 halves the deviation from one half.
    assert_eq!(deepen(0, 2 * SCALE), HALF / 2);
    assert_eq!(deepen(SCALE, 2 * SCALE), HALF + HALF / 2);
    assert_eq!(deepen(HALF, 5 * SCALE), HALF);
}

#[test]
fn sstep_clamps_below_and_above_the_edges() {
    let lo = terragen::compose::THRESHOLD_LO;
    let hi = terragen::compose::THRESHOLD_HI;
    assert_eq!(sstep(0, lo, hi), 0);
    assert_eq!(sstep(lo, lo, hi), 0);
    assert_eq!(sstep(hi, lo, hi), SCALE);
    assert_eq!(sstep(SCALE, lo, hi), SCALE);
    // The midpoint of the edges maps to one half exactly.
    assert_eq!(sstep((lo + hi) / 2, lo, hi), HALF);
}

#[test]
fn sstep_is_monotone_between_the_edges() {
    let lo = terragen::compose::THRESHOLD_LO;
    let hi = terragen::compose::THRESHOLD_HI;
    let mut prev: i64 = -1;
    let mut x: i64 = lo;
    while x <= hi {
        let v = sstep(x, lo, hi);
        assert!(v >= prev);
        prev = v;
        x += 24_576;
    }
}
