use fractal_explorer::{ViewportParameters, CENTER_MAX, DOMAIN_MAX, MAX_ITER_CAP, FP_SCALE,
    INITIAL_DOMAIN, INITIAL_MAX_ITER};

const S: i64 = FP_SCALE;

fn base() -> ViewportParameters {
    ViewportParameters::initial(800, 600).unwrap()
}

#[test]
fn initial_viewport_values() {
    let p = base();
    assert_eq!(p.center_re, 0);
    assert_eq!(p.center_im, 0);
    assert_eq!(p.width, 800);
    assert_eq!(p.height, 600);
    assert_eq!(p.real_domain, INITIAL_DOMAIN);
    assert_eq!(p.real_domain, 4 * S);
    assert_eq!(p.max_iter, INITIAL_MAX_ITER);
}

#[test]
fn out_of_range_values_are_rejected() {
    assert!(ViewportParameters::new(0, 0, 0, 600, 4 * S, 64).is_none());
    assert!(ViewportParameters::new(0, 0, 800, 0, 4 * S, 64).is_none());
    assert!(ViewportParameters::new(0, 0, 800, 600, 0, 64).is_none());
    assert!(ViewportParameters::new(0, 0, 800, 600, -S, 64).is_none());
    assert!(ViewportParameters::new(0, 0, 800, 600, 4 * S, 0).is_none());
    assert!(ViewportParameters::new(0, 0, 800, 600, 4 * S, MAX_ITER_CAP + 1).is_none());
    assert!(ViewportParameters::new(CENTER_MAX + 1, 0, 800, 600, 4 * S, 64).is_none());
    assert!(ViewportParameters::new(0, 0, 800, 600, DOMAIN_MAX + 1, 64).is_none());
    assert!(ViewportParameters::new(0, 0, 32769, 600, 4 * S, 64).is_none());
    assert!(ViewportParameters::new(0, 0, 800, 600, 4 * S, MAX_ITER_CAP).is_some());
}

#[test]
fn iteration_depth_doubles_and_halves_with_clamps() {
    let p = base();
    assert_eq!(p.iterations_up().max_iter, 128);
    assert_eq!(p.iterations_down().max_iter, 32);
    let mut q = p;
    for _ in 0..30 {
        q = q.iterations_up();
    }
    assert_eq!(q.max_iter, MAX_ITER_CAP);
    let mut r = p;
    for _ in 0..30 {
        r = r.iterations_down();
    }
    assert_eq!(r.max_iter, 1);
}

#[test]
fn zoom_steps_scale_the_span_by_exact_twentieths() {
    let p = base();
    assert_eq!(p.zoom_in().real_domain, 4 * S * 19 / 20);
    assert_eq!(p.zoom_out().real_domain, 4 * S * 20 / 19);
    // Zooming out saturates at the representable ceiling.
    let mut q = p;
    for _ in 0..200 {
        q = q.zoom_out();
    }
    assert_eq!(q.real_domain, DOMAIN_MAX);
    // Zooming in never reaches zero.
    let mut r = p;
    for _ in 0..3000 {
        r = r.zoom_in();
    }
    assert!(r.real_domain >= 1);
}

#[test]
fn pan_steps_move_the_center_by_a_fiftieth_of_the_span() {
    let p = base();
    let step = 4 * S / 50;
    assert_eq!(p.pan_horizontal(true).center_re, step);
    assert_eq!(p.pan_horizontal(false).center_re, -step);
    assert_eq!(p.pan_vertical(true).center_im, step);
    assert_eq!(p.pan_vertical(false).center_im, -step);
    assert_eq!(p.pan_horizontal(true).center_im, 0);
}

#[test]
fn pan_saturates_at_the_representable_window() {
    let far = ViewportParameters::new(CENTER_MAX, 0, 800, 600, 4 * S, 64).unwrap();
    assert_eq!(far.pan_horizontal(true).center_re, CENTER_MAX);
    assert_eq!(far.pan_horizontal(false).center_re, CENTER_MAX - 4 * S / 50);
}

#[test]
fn resize_replaces_dimensions_only() {
    let p = base();
    let q = p.with_size(1024, 768).unwrap();
    assert_eq!(q.width, 1024);
    assert_eq!(q.height, 768);
    assert_eq!(q.center_re, p.center_re);
    assert_eq!(q.real_domain, p.real_domain);
    assert_eq!(q.max_iter, p.max_iter);
    assert!(p.with_size(0, 768).is_none());
    assert!(p.with_size(1024, 40000).is_none());
}

#[test]
fn equality_is_structural() {
    let p = base();
    let q = ViewportParameters::new(0, 0, 800, 600, 4 * S, 64).unwrap();
    assert!(p == q);
    assert!(p != p.zoom_in());
    assert!(p != p.iterations_up());
    assert!(p != p.with_size(801, 600).unwrap());
}
