//! View parameters: the mapping between the complex plane and the pixel grid,
//! and the verified update rules the input handling applies to them.

use vstd::prelude::*;
use crate::fixed::FP_SCALE;

verus! {

/// Largest magnitude of a center coordinate, in Q32.32: the plane value 128.
pub const CENTER_MAX: i64 = 0x80_0000_0000;

/// Largest visible span along the real axis, in Q32.32: the plane value 128.
pub const DOMAIN_MAX: i64 = 0x80_0000_0000;

/// Smallest representable positive span.
pub const DOMAIN_MIN: i64 = 1;

/// Iteration cap ceiling: `2^20`.
pub const MAX_ITER_CAP: u32 = 0x10_0000;

/// Largest accepted pixel dimension of the render target.
pub const DIM_MAX: u32 = 32768;

/// Initial visible span along the real axis: the plane value 4.
pub const INITIAL_DOMAIN: i64 = 0x4_0000_0000;

/// Initial iteration cap.
pub const INITIAL_MAX_ITER: u32 = 64;

/// The current view: plane location of the screen center, pixel dimensions of
/// the render target, visible span along the real axis, and the escape-time
/// iteration cap. Plane values are in signed Q32.32 fixed point. Compared by
/// full structural equality each frame to detect change.
#[derive(PartialEq, Eq, Structural, Clone, Copy, Debug)]
pub struct ViewportParameters {
    /// Real part of the plane point mapped to the screen center.
    pub center_re: i64,
    /// Imaginary part of the plane point mapped to the screen center.
    pub center_im: i64,
    /// Pixel width of the render target.
    pub width: u32,
    /// Pixel height of the render target.
    pub height: u32,
    /// Width of the visible plane along the real axis; smaller means more
    /// zoomed in.
    pub real_domain: i64,
    /// Escape-time iteration cap.
    pub max_iter: u32,
}

impl ViewportParameters {
    /// Well-formedness: positive dimensions within the machine bounds, the
    /// iteration cap in `[1, 2^20]`, a positive span, and center coordinates
    /// within the representable window.
    pub open spec fn wf(self) -> bool {
        &&& 1 <= self.width <= DIM_MAX
        &&& 1 <= self.height <= DIM_MAX
        &&& 1 <= self.max_iter <= MAX_ITER_CAP
        &&& DOMAIN_MIN <= self.real_domain <= DOMAIN_MAX
        &&& -CENTER_MAX <= self.center_re <= CENTER_MAX
        &&& -CENTER_MAX <= self.center_im <= CENTER_MAX
    }

    /// Builds a viewport from explicit values; `None` exactly when one of
    /// them is out of range.
    pub fn new(center_re: i64, center_im: i64, width: u32, height: u32, real_domain: i64,
        max_iter: u32) -> (r: Option<ViewportParameters>)
        ensures
            r is Some <==> {
                &&& 1 <= width <= DIM_MAX
                &&& 1 <= height <= DIM_MAX
                &&& 1 <= max_iter <= MAX_ITER_CAP
                &&& DOMAIN_MIN <= real_domain <= DOMAIN_MAX
                &&& -CENTER_MAX <= center_re <= CENTER_MAX
                &&& -CENTER_MAX <= center_im <= CENTER_MAX
            },
            r is Some ==> r->Some_0 == (ViewportParameters {
                center_re,
                center_im,
                width,
                height,
                real_domain,
                max_iter,
            }),
            r is Some ==> r->Some_0.wf(),
    {
        if 1 <= width && width <= DIM_MAX && 1 <= height && height <= DIM_MAX && 1 <= max_iter
            && max_iter <= MAX_ITER_CAP && DOMAIN_MIN <= real_domain && real_domain <= DOMAIN_MAX
            && -CENTER_MAX <= center_re && center_re <= CENTER_MAX && -CENTER_MAX <= center_im
            && center_im <= CENTER_MAX {
            Some(
                ViewportParameters {
                    center_re,
                    center_im,
                    width,
                    height,
                    real_domain,
                    max_iter,
                },
            )
        } else {
            None
        }
    }

    /// The view the explorer starts from: centered on the origin with a span
    /// of 4 plane units; `None` exactly when a dimension is out of range.
    pub fn initial(width: u32, height: u32) -> (r: Option<ViewportParameters>)
        ensures
            r is Some <==> (1 <= width <= DIM_MAX && 1 <= height <= DIM_MAX),
            r is Some ==> r->Some_0 == (ViewportParameters {
                center_re: 0,
                center_im: 0,
                width,
                height,
                real_domain: INITIAL_DOMAIN,
                max_iter: INITIAL_MAX_ITER,
            }),
            r is Some ==> r->Some_0.wf(),
    {
        Self::new(0, 0, width, height, INITIAL_DOMAIN, INITIAL_MAX_ITER)
    }

    /// One pan step along the real axis: the center moves by a fiftieth of
    /// the span (the 2% pan fraction), clamped to the representable window.
    /// `to_right` picks the direction.
    pub fn pan_horizontal(self, to_right: bool) -> (r: ViewportParameters)
        requires
            self.wf(),
        ensures
            r == (ViewportParameters {
                center_re: clamp_center(
                    if to_right {
                        self.center_re + self.real_domain as int / 50
                    } else {
                        self.center_re - self.real_domain as int / 50
                    },
                ) as i64,
                ..self
            }),
            r.wf(),
    {
        let delta: i64 = self.real_domain / 50;
        let moved: i64 = if to_right {
            self.center_re + delta
        } else {
            self.center_re - delta
        };
        ViewportParameters { center_re: clamp_center_exec(moved), ..self }
    }

    /// One pan step along the imaginary axis: the center moves by a fiftieth
    /// of the span, clamped to the representable window. `downward` moves
    /// toward larger imaginary parts (downward on screen).
    pub fn pan_vertical(self, downward: bool) -> (r: ViewportParameters)
        requires
            self.wf(),
        ensures
            r == (ViewportParameters {
                center_im: clamp_center(
                    if downward {
                        self.center_im + self.real_domain as int / 50
                    } else {
                        self.center_im - self.real_domain as int / 50
                    },
                ) as i64,
                ..self
            }),
            r.wf(),
    {
        let delta: i64 = self.real_domain / 50;
        let moved: i64 = if downward {
            self.center_im + delta
        } else {
            self.center_im - delta
        };
        ViewportParameters { center_im: clamp_center_exec(moved), ..self }
    }

    /// One zoom-in step: the span shrinks to 19/20 (the 0.95 zoom factor) of
    /// its value, held at the smallest positive span.
    pub fn zoom_in(self) -> (r: ViewportParameters)
        requires
            self.wf(),
        ensures
            r == (ViewportParameters {
                real_domain: if self.real_domain as int * 19 / 20 >= DOMAIN_MIN {
                    (self.real_domain as int * 19 / 20) as i64
                } else {
                    DOMAIN_MIN
                },
                ..self
            }),
            r.wf(),
    {
        let shrunk: i64 = self.real_domain * 19 / 20;
        let held: i64 = if shrunk >= DOMAIN_MIN {
            shrunk
        } else {
            DOMAIN_MIN
        };
        ViewportParameters { real_domain: held, ..self }
    }

    /// One zoom-out step: the span grows to 20/19 of its value (the inverse
    /// of the 0.95 zoom factor), held at the largest representable span.
    pub fn zoom_out(self) -> (r: ViewportParameters)
        requires
            self.wf(),
        ensures
            r == (ViewportParameters {
                real_domain: if self.real_domain as int * 20 / 19 <= DOMAIN_MAX {
                    (self.real_domain as int * 20 / 19) as i64
                } else {
                    DOMAIN_MAX
                },
                ..self
            }),
            r.wf(),
    {
        let grown: i64 = self.real_domain * 20 / 19;
        let held: i64 = if grown <= DOMAIN_MAX {
            grown
        } else {
            DOMAIN_MAX
        };
        ViewportParameters { real_domain: held, ..self }
    }

    /// One iteration-depth step up: the cap doubles, held at `2^20`.
    pub fn iterations_up(self) -> (r: ViewportParameters)
        requires
            self.wf(),
        ensures
            r == (ViewportParameters {
                max_iter: if self.max_iter * 2 <= MAX_ITER_CAP {
                    (self.max_iter * 2) as u32
                } else {
                    MAX_ITER_CAP
                },
                ..self
            }),
            r.wf(),
    {
        let doubled: u32 = self.max_iter * 2;
        let held: u32 = if doubled <= MAX_ITER_CAP {
            doubled
        } else {
            MAX_ITER_CAP
        };
        ViewportParameters { max_iter: held, ..self }
    }

    /// One iteration-depth step down: the cap halves, held at 1.
    pub fn iterations_down(self) -> (r: ViewportParameters)
        requires
            self.wf(),
        ensures
            r == (ViewportParameters {
                max_iter: if self.max_iter / 2 >= 1 {
                    (self.max_iter / 2) as u32
                } else {
                    1u32
                },
                ..self
            }),
            r.wf(),
    {
        let halved: u32 = self.max_iter / 2;
        let held: u32 = if halved >= 1 {
            halved
        } else {
            1
        };
        ViewportParameters { max_iter: held, ..self }
    }

    /// Replaces the render-target dimensions after a resize; `None` exactly
    /// when a dimension is out of range.
    pub fn with_size(self, width: u32, height: u32) -> (r: Option<ViewportParameters>)
        requires
            self.wf(),
        ensures
            r is Some <==> (1 <= width <= DIM_MAX && 1 <= height <= DIM_MAX),
            r is Some ==> r->Some_0 == (ViewportParameters { width, height, ..self }),
            r is Some ==> r->Some_0.wf(),
    {
        if 1 <= width && width <= DIM_MAX && 1 <= height && height <= DIM_MAX {
            Some(ViewportParameters { width, height, ..self })
        } else {
            None
        }
    }
}

/// A center coordinate held to the representable window.
pub open spec fn clamp_center(v: int) -> int {
    if v < -CENTER_MAX {
        -CENTER_MAX as int
    } else if v > CENTER_MAX {
        CENTER_MAX as int
    } else {
        v
    }
}

fn clamp_center_exec(v: i64) -> (r: i64)
    ensures
        r == clamp_center(v as int),
{
    if v < -CENTER_MAX {
        -CENTER_MAX
    } else if v > CENTER_MAX {
        CENTER_MAX
    } else {
        v
    }
}

} // verus!
