use fractal_explorer::{evaluate, shade, FP_SCALE};
use num_complex::Complex64;

const S: i64 = FP_SCALE;

#[test]
fn origin_never_escapes() {
    assert_eq!(evaluate(0, 0, 1), 1);
    assert_eq!(evaluate(0, 0, 64), 64);
    assert_eq!(evaluate(0, 0, 1 << 20), 1 << 20);
}

#[test]
fn two_escapes_immediately() {
    assert_eq!(evaluate(2 * S, 0, 1), 0);
    assert_eq!(evaluate(2 * S, 0, 100), 0);
    assert_eq!(evaluate(-2 * S, 0, 7), 0);
    assert_eq!(evaluate(0, 2 * S, 5), 0);
    assert_eq!(evaluate(0, -2 * S, 5), 0);
}

#[test]
fn far_outside_points_also_escape_at_zero() {
    assert_eq!(evaluate(3 * S, 0, 100), 0);
    assert_eq!(evaluate(100 * S, 50 * S, 10), 0);
    assert_eq!(evaluate(i64::MAX / 2, i64::MIN / 2, 1000), 0);
}

#[test]
fn interior_point_runs_to_the_cap() {
    // -1 is periodic (orbit -1, 0, -1, 0, ...) and never escapes.
    assert_eq!(evaluate(-S, 0, 50), 50);
}

#[test]
fn near_boundary_point_escapes_after_one_step() {
    // (1 + i): norm 2 < 4; one step gives 1 + 3i with norm 10 >= 4.
    assert_eq!(evaluate(S, S, 10), 1);
}

#[test]
fn matches_float_evaluation_on_exact_points() {
    // Points whose orbits stay on coarse binary fractions are evaluated
    // exactly by both the fixed-point engine and 64-bit floats.
    let cases: [(i64, i64, u32); 5] = [
        (0, 0, 30),
        (2 * S, 0, 30),
        (-2 * S, 0, 30),
        (S, S, 30),
        (-S, 0, 30),
    ];
    for (re, im, cap) in cases {
        let z0 = Complex64::new(re as f64 / S as f64, im as f64 / S as f64);
        assert_eq!(evaluate(re, im, cap), float_escape_time(z0, cap));
    }
}

fn float_escape_time(z0: Complex64, max_iter: u32) -> u32 {
    let mut z = z0;
    let mut n = 0;
    while z.norm_sqr() < 4.0 && n < max_iter {
        z = z * z + z0;
        n += 1;
    }
    n
}

#[test]
fn shade_maps_counts_to_gray_levels() {
    assert_eq!(shade(64, 64), 255);
    assert_eq!(shade(0, 64), 0);
    assert_eq!(shade(32, 64), 127);
    assert_eq!(shade(1, 3), 85);
    assert_eq!(shade(1, 1), 255);
    assert_eq!(shade(1, 255), 1);
    assert_eq!(shade(0, 1 << 20), 0);
}
