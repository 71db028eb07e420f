use fractal_explorer::{pixel_to_plane, ViewportParameters, FP_SCALE};

const S: i64 = FP_SCALE;

#[test]
fn center_pixel_maps_to_the_viewport_center() {
    let p = ViewportParameters::new(3 * S / 4, -S / 2, 800, 600, 4 * S, 64).unwrap();
    let z = pixel_to_plane(400, 300, &p);
    assert_eq!(z.0, p.center_re);
    assert_eq!(z.1, p.center_im);
}

#[test]
fn horizontal_extremes_span_the_real_domain() {
    let p = ViewportParameters::new(0, 0, 800, 600, 4 * S, 64).unwrap();
    assert_eq!(pixel_to_plane(0, 300, &p).0, -2 * S);
    assert_eq!(pixel_to_plane(800, 300, &p).0, 2 * S);
    assert_eq!(pixel_to_plane(200, 300, &p).0, -S);
}

#[test]
fn vertical_span_is_aspect_corrected() {
    // Vertical span is real_domain * height / width = 3 plane units here,
    // so the top edge sits 1.5 units above the center.
    let p = ViewportParameters::new(0, 0, 800, 600, 4 * S, 64).unwrap();
    assert_eq!(pixel_to_plane(400, 0, &p).1, -3 * S / 2);
    assert_eq!(pixel_to_plane(400, 600, &p).1, 3 * S / 2);
}

#[test]
fn offsets_add_to_a_nonzero_center() {
    let p = ViewportParameters::new(S, 2 * S, 400, 400, 2 * S, 64).unwrap();
    // Left edge: center_re - span / 2.
    assert_eq!(pixel_to_plane(0, 200, &p).0, 0);
    // Square target: vertical span equals the real span.
    assert_eq!(pixel_to_plane(200, 0, &p).1, S);
    assert_eq!(pixel_to_plane(200, 400, &p).1, 3 * S);
}

#[test]
fn offset_rounding_truncates_toward_zero() {
    // Width 3: one pixel to the left of center gives span * (2*1 - 3) / 6,
    // a negative offset truncated toward zero.
    let p = ViewportParameters::new(0, 0, 3, 3, 4 * S, 64).unwrap();
    let expected = -(4 * S / 6);
    assert_eq!(pixel_to_plane(1, 1, &p).0, expected);
}
