//! Mapping from screen pixels to plane points: the horizontal span of the
//! viewport is `real_domain`, the vertical span is aspect-corrected
//! (`real_domain * height / width`), and the viewport center maps to the
//! center of the pixel grid.

use vstd::prelude::*;
use vstd::arithmetic::div_mod::{
    lemma_fundamental_div_mod,
    lemma_div_is_ordered,
    lemma_div_is_ordered_by_denominator,
    lemma_div_pos_is_pos,
};
use crate::fixed::tdiv;
use crate::viewport::{ViewportParameters, DOMAIN_MAX, DIM_MAX};

verus! {

/// How far past a render-target edge a sampled pixel may lie: half of the
/// largest block edge, since blocks are sampled at their center.
pub const SAMPLE_MARGIN: u32 = 64;

/// Bound on the magnitude of a plane offset: the largest span times the
/// largest signed pixel distance, over the smallest denominator.
pub const PLANE_OFFSET_MAX: i64 = 0x100_0000_0000_0000;

/// The plane offset of sample coordinate `x` along an axis of `extent`
/// pixels: the span scaled by the pixel's signed distance from the axis
/// center and divided by the width, `span * (x - extent/2) / w`, written
/// over doubled numerator and denominator so it stays in integers. Both axes
/// divide by the pixel width: that is the aspect correction, the vertical
/// span being `span * height / width` spread over `height` rows.
pub open spec fn plane_offset(span: int, x: int, extent: int, w: int) -> int {
    tdiv(span * (2 * x - extent), 2 * w)
}

/// Real part of the plane point that pixel column `x` represents.
pub open spec fn map_re(p: ViewportParameters, x: int) -> int {
    p.center_re + plane_offset(p.real_domain as int, x, p.width as int, p.width as int)
}

/// Imaginary part of the plane point that pixel row `y` represents.
pub open spec fn map_im(p: ViewportParameters, y: int) -> int {
    p.center_im + plane_offset(p.real_domain as int, y, p.height as int, p.width as int)
}

/// The plane point pixel `(x, y)` represents, in Q32.32.
pub fn pixel_to_plane(x: u32, y: u32, p: &ViewportParameters) -> (r: (i64, i64))
    requires
        p.wf(),
        x <= p.width + SAMPLE_MARGIN,
        y <= p.height + SAMPLE_MARGIN,
    ensures
        r.0 == map_re(*p, x as int),
        r.1 == map_im(*p, y as int),
{
    let re: i64 = p.center_re + scaled_offset(p.real_domain, x, p.width, p.width);
    let im: i64 = p.center_im + scaled_offset(p.real_domain, y, p.height, p.width);
    (re, im)
}

/// Exec computation of `plane_offset` for an in-range sample coordinate.
fn scaled_offset(span: i64, x: u32, extent: u32, w: u32) -> (r: i64)
    requires
        1 <= span <= DOMAIN_MAX,
        1 <= extent <= DIM_MAX,
        1 <= w <= DIM_MAX,
        x <= extent + SAMPLE_MARGIN,
    ensures
        r == plane_offset(span as int, x as int, extent as int, w as int),
        -PLANE_OFFSET_MAX <= r <= PLANE_OFFSET_MAX,
{
    let dxe: i64 = 2 * (x as i64) - (extent as i64);
    let den: u64 = 2 * (w as u64);
    proof {
        assert(span as int * (dxe as int) <= 0x40_8000_0000_0000 && -0x40_8000_0000_0000 <= span as int
            * (dxe as int)) by (nonlinear_arith)
            requires
                1 <= span <= DOMAIN_MAX,
                -(extent as int) <= dxe <= extent + 128,
                1 <= extent <= DIM_MAX,
                DOMAIN_MAX == 0x80_0000_0000,
                DIM_MAX == 32768,
        ;
    }
    if dxe >= 0 {
        let q: u64 = ((span as u64) * (dxe as u64)) / den;
        proof {
            lemma_offset_quotient(span as int, dxe as int, w as int, q as int);
        }
        q as i64
    } else {
        proof {
            assert((span as int) * (-(dxe as int)) == -((span as int) * (dxe as int)) && (
            span as int) * (dxe as int) < 0) by (nonlinear_arith)
                requires
                    span >= 1,
                    dxe <= -1,
            ;
        }
        let q: u64 = ((span as u64) * ((-dxe) as u64)) / den;
        proof {
            lemma_offset_quotient(span as int, -(dxe as int), w as int, q as int);
        }
        -(q as i64)
    }
}

/// The rescaled offset is `tdiv` of the numerator by the doubled width, and
/// its magnitude is bounded by the numerator's.
proof fn lemma_offset_quotient(span: int, mag: int, w: int, q: int)
    requires
        1 <= span,
        0 <= mag,
        1 <= w,
        span * mag <= 0x40_8000_0000_0000,
        q == (span * mag) / (2 * w),
    ensures
        0 <= q <= PLANE_OFFSET_MAX,
        q == tdiv(span * mag, 2 * w),
{
    let num = span * mag;
    assert(num >= 0) by (nonlinear_arith)
        requires
            span >= 1,
            mag >= 0,
            num == span * mag,
    ;
    lemma_div_pos_is_pos(num, 2 * w);
    lemma_div_is_ordered_by_denominator(num, 2, 2 * w);
    lemma_div_is_ordered(num, 0x40_8000_0000_0000, 2);
    assert(0x40_8000_0000_0000int / 2 <= PLANE_OFFSET_MAX);
}

/// The exact center pixel of an even-dimensioned render target maps to the
/// viewport center exactly: the signed pixel distance from the screen center
/// is zero, so the offset vanishes.
pub proof fn lemma_center_pixel_maps_to_center(p: ViewportParameters)
    requires
        p.wf(),
        p.width % 2 == 0,
        p.height % 2 == 0,
    ensures
        map_re(p, p.width as int / 2) == p.center_re,
        map_im(p, p.height as int / 2) == p.center_im,
{
    let w = p.width as int;
    let h = p.height as int;
    lemma_fundamental_div_mod(w, 2);
    lemma_fundamental_div_mod(h, 2);
    assert(2 * (w / 2) - w == 0);
    assert(2 * (h / 2) - h == 0);
    assert(p.real_domain as int * 0 == 0) by (nonlinear_arith);
    vstd::arithmetic::div_mod::lemma_div_basics(2 * w);
    assert(tdiv(0, 2 * w) == 0);
}

} // verus!
