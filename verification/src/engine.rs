//! The progressive render engine: a resumable coarse-to-fine traversal of
//! the pixel grid. Each `advance` call performs exactly one transition —
//! wrap to the next row, halve the block size, finish, or paint one block —
//! so rendering can be interrupted after any call and resumed later.

use vstd::prelude::*;
use vstd::arithmetic::div_mod::{
    lemma_fundamental_div_mod,
    lemma_div_is_ordered,
    lemma_div_pos_is_pos,
    lemma_div_multiples_vanish,
};
use crate::viewport::ViewportParameters;
use crate::buffer::{FrameBuffer, painted};
use crate::mapper::{map_re, map_im, pixel_to_plane};
use crate::evaluator::{escape_time, evaluate};

verus! {

/// Edge length, in pixels, of the first (coarsest) blocks.
pub const INITIAL_BLOCK_SIZE: u32 = 128;

/// The resumable traversal state: block-grid coordinates of the block to
/// handle next, the current block edge length, and the terminal flag.
#[derive(PartialEq, Eq, Structural, Clone, Copy, Debug)]
pub struct RenderProgress {
    /// Terminal flag: set once the block size has fallen below one pixel.
    pub done: bool,
    /// Horizontal block-grid coordinate (in blocks, not pixels).
    pub index_x: u32,
    /// Vertical block-grid coordinate (in blocks, not pixels).
    pub index_y: u32,
    /// Current edge length of the square blocks being painted.
    pub block_size: u32,
}

/// The block sizes the traversal can hold: the initial 128 and everything
/// reached from it by repeated halving, down to 0.
pub open spec fn is_block_size(bs: u32) -> bool {
    bs == 0 || bs == 1 || bs == 2 || bs == 4 || bs == 8 || bs == 16 || bs == 32 || bs == 64
        || bs == 128
}

/// Pixel column of the current block's top-left corner.
pub open spec fn tl_x_of(s: RenderProgress) -> int {
    s.index_x * s.block_size
}

/// Pixel row of the current block's top-left corner.
pub open spec fn tl_y_of(s: RenderProgress) -> int {
    s.index_y * s.block_size
}

impl RenderProgress {
    /// The state a render starts from: the top-left block at the coarsest
    /// resolution.
    pub open spec fn initial_spec() -> RenderProgress {
        RenderProgress { done: false, index_x: 0, index_y: 0, block_size: INITIAL_BLOCK_SIZE }
    }

    /// Builds the initial state.
    pub fn initial() -> (r: RenderProgress)
        ensures
            r == RenderProgress::initial_spec(),
    {
        RenderProgress { done: false, index_x: 0, index_y: 0, block_size: INITIAL_BLOCK_SIZE }
    }

    /// Well-formedness against a viewport: the block size lies on the halving
    /// chain, the block coordinates never run more than one block past the
    /// grid, and a row being scanned (`index_x >= 1`) starts on the grid.
    pub open spec fn wf(self, p: ViewportParameters) -> bool {
        &&& is_block_size(self.block_size)
        &&& tl_x_of(self) <= p.width + self.block_size
        &&& tl_y_of(self) <= p.height + self.block_size
        &&& (self.index_x >= 1 ==> tl_y_of(self) <= p.height)
    }
}

/// Whether the next `advance` call paints: the state is live, the current
/// block's top-left pixel lies within both extents (boundary included — the
/// tests are strict, so a block starting exactly on an edge is still
/// painted), and the block size is at least one pixel.
pub open spec fn paints(p: ViewportParameters, s: RenderProgress) -> bool {
    &&& !s.done
    &&& tl_x_of(s) <= p.width
    &&& tl_y_of(s) <= p.height
    &&& s.block_size >= 1
}

/// The state after one `advance` call: exactly one of row wrap, resolution
/// halving, completion, or painting (which moves one block to the right).
pub open spec fn step_state(p: ViewportParameters, s: RenderProgress) -> RenderProgress {
    if s.done {
        s
    } else if tl_x_of(s) > p.width {
        RenderProgress { index_x: 0, index_y: (s.index_y + 1) as u32, ..s }
    } else if tl_y_of(s) > p.height {
        RenderProgress { index_y: 0, block_size: s.block_size / 2, ..s }
    } else if s.block_size < 1 {
        RenderProgress { done: true, ..s }
    } else {
        RenderProgress { index_x: (s.index_x + 1) as u32, ..s }
    }
}

/// The grayscale level of an escape count `n` under cap `max_iter`:
/// `255 * n / max_iter`, truncated; a block that reaches the cap is white.
pub open spec fn shade_level(n: int, max_iter: int) -> u8 {
    (255 * n / max_iter) as u8
}

/// The color the current block is painted with: the shade of the escape
/// time of the plane point at the block's center pixel.
pub open spec fn block_color(p: ViewportParameters, s: RenderProgress) -> u8 {
    let cx = tl_x_of(s) + s.block_size as int / 2;
    let cy = tl_y_of(s) + s.block_size as int / 2;
    let zr = map_re(p, cx);
    let zi = map_im(p, cy);
    shade_level(escape_time(zr, zi, zr, zi, p.max_iter as nat) as int, p.max_iter as int)
}

/// The buffer contents after one `advance` call: unchanged unless the call
/// paints, in which case the current block is filled with its color.
pub open spec fn step_buffer(p: ViewportParameters, s: RenderProgress, b: Seq<u8>) -> Seq<u8> {
    if paints(p, s) {
        painted(b, p.width as int, tl_x_of(s), tl_y_of(s), s.block_size as int, block_color(p, s))
    } else {
        b
    }
}

/// The grayscale level of escape count `n` under cap `max_iter`.
pub fn shade(n: u32, max_iter: u32) -> (v: u8)
    requires
        1 <= max_iter,
        n <= max_iter,
    ensures
        v == shade_level(n as int, max_iter as int),
        v as int == 255 * (n as int) / (max_iter as int),
{
    let wide: u64 = 255u64 * (n as u64) / (max_iter as u64);
    proof {
        lemma_div_pos_is_pos(255 * (n as int), max_iter as int);
        lemma_div_is_ordered(255 * (n as int), 255 * (max_iter as int), max_iter as int);
        lemma_div_multiples_vanish(255, max_iter as int);
        assert((max_iter as int) * 255 == 255 * (max_iter as int));
    }
    wide as u8
}

/// One step of the progressive render: performs exactly one of the four
/// transitions of `step_state` and, when it paints, fills the current block
/// of the buffer with the block's color per `step_buffer`.
pub fn advance(params: &ViewportParameters, progress: &mut RenderProgress, buffer: &mut FrameBuffer)
    requires
        params.wf(),
        old(progress).wf(*params),
        old(buffer).wf(),
        old(buffer).width == params.width,
        old(buffer).height == params.height,
    ensures
        *final(progress) == step_state(*params, *old(progress)),
        final(progress).wf(*params),
        final(buffer).wf(),
        final(buffer).width == params.width,
        final(buffer).height == params.height,
        final(buffer).data@ == step_buffer(*params, *old(progress), old(buffer).data@),
{
    if progress.done {
        return ;
    }
    let bs: u32 = progress.block_size;
    proof {
        lemma_mul_le_when_factor_at_least_one(
            progress.index_x as int,
            bs as int,
            params.width as int,
        );
        lemma_mul_le_when_factor_at_least_one(
            progress.index_y as int,
            bs as int,
            params.height as int,
        );
    }
    let tl_x: u32 = progress.index_x * bs;
    let tl_y: u32 = progress.index_y * bs;
    if tl_x > params.width {
        proof {
            assert(bs >= 1 && progress.index_x >= 1) by (nonlinear_arith)
                requires
                    progress.index_x * bs > params.width,
                    params.width >= 0,
            ;
            assert((progress.index_y + 1) * bs == progress.index_y * bs + bs) by (nonlinear_arith);
        }
        progress.index_x = 0;
        progress.index_y = progress.index_y + 1;
        return ;
    }
    if tl_y > params.height {
        proof {
            assert(bs >= 1 && progress.index_y >= 1) by (nonlinear_arith)
                requires
                    progress.index_y * bs > params.height,
                    params.height >= 0,
            ;
            lemma_fundamental_div_mod(bs as int, 2);
            assert(progress.index_x * (bs as int / 2) <= params.width + bs as int / 2)
                by (nonlinear_arith)
                requires
                    progress.index_x * (bs as int) <= params.width + bs,
                    2 * (bs as int / 2) <= bs <= 2 * (bs as int / 2) + 1,
                    progress.index_x >= 0,
                    bs as int / 2 >= 0,
                    params.width >= 1,
            ;
            assert(progress.index_y * 0 == 0) by (nonlinear_arith);
        }
        progress.index_y = 0;
        progress.block_size = bs / 2;
        return ;
    }
    if bs < 1 {
        progress.done = true;
        return ;
    }
    let cx: u32 = tl_x + bs / 2;
    let cy: u32 = tl_y + bs / 2;
    let z0: (i64, i64) = pixel_to_plane(cx, cy, params);
    let n: u32 = evaluate(z0.0, z0.1, params.max_iter);
    let v: u8 = shade(n, params.max_iter);
    buffer.fill_block(tl_x, tl_y, bs, v);
    proof {
        assert((progress.index_x + 1) * bs == progress.index_x * bs + bs) by (nonlinear_arith);
    }
    progress.index_x = progress.index_x + 1;
}

/// `a * b <= c + b` bounds `a` itself once `b >= 1`; stated so the block
/// coordinates of a well-formed state fit comfortably in `u32` arithmetic.
proof fn lemma_mul_le_when_factor_at_least_one(a: int, b: int, c: int)
    requires
        0 <= a,
        0 <= b,
        0 <= c,
        a * b <= c + b,
    ensures
        b >= 1 ==> a <= c + b,
        b == 0 ==> a * b == 0,
{
    assert(b >= 1 ==> a <= a * b) by (nonlinear_arith)
        requires
            0 <= a,
    ;
    assert(b == 0 ==> a * b == 0) by (nonlinear_arith);
}

/// Weight of one row step in the completion measure.
pub open spec fn measure_row_weight(p: ViewportParameters) -> int {
    p.width + 300
}

/// Weight of one block-size level in the completion measure.
pub open spec fn measure_level_weight(p: ViewportParameters) -> int {
    (p.height + 600) * measure_row_weight(p)
}

/// A strictly decreasing measure of the remaining work: every `advance` on a
/// live state lowers it by at least one, and it never goes below zero, so it
/// bounds the number of calls left until `done`.
pub open spec fn measure(p: ViewportParameters, s: RenderProgress) -> int {
    if s.done {
        0
    } else {
        1 + s.block_size * measure_level_weight(p) + (p.height + s.block_size - tl_y_of(s))
            * measure_row_weight(p) + (p.width + 2 * s.block_size - tl_x_of(s))
    }
}

/// Every transition keeps the state well-formed.
pub proof fn lemma_step_preserves_wf(p: ViewportParameters, s: RenderProgress)
    requires
        p.wf(),
        s.wf(p),
    ensures
        step_state(p, s).wf(p),
{
    let bs = s.block_size as int;
    let ix = s.index_x as int;
    let iy = s.index_y as int;
    let w = p.width as int;
    let h = p.height as int;
    if s.done {
    } else if tl_x_of(s) > p.width {
        assert(bs >= 1 && ix >= 1) by (nonlinear_arith)
            requires
                ix * bs > w,
                w >= 0,
                ix >= 0,
                bs >= 0,
        ;
        assert((iy + 1) * bs == iy * bs + bs) by (nonlinear_arith);
        assert(0 * bs == 0) by (nonlinear_arith);
    } else if tl_y_of(s) > p.height {
        let bsh = bs / 2;
        assert(bs >= 1 && iy >= 1) by (nonlinear_arith)
            requires
                iy * bs > h,
                h >= 0,
                iy >= 0,
                bs >= 0,
        ;
        lemma_fundamental_div_mod(bs, 2);
        vstd::arithmetic::div_mod::lemma_mod_bound(bs, 2);
        assert(ix * bsh <= w + bsh) by (nonlinear_arith)
            requires
                ix * bs <= w + bs,
                2 * bsh <= bs <= 2 * bsh + 1,
                ix >= 0,
                bsh >= 0,
                w >= 1,
        ;
        assert(0 * bsh == 0) by (nonlinear_arith);
    } else if s.block_size < 1 {
    } else {
        assert((ix + 1) * bs == ix * bs + bs) by (nonlinear_arith);
    }
}

/// The measure of a well-formed state is never negative.
pub proof fn lemma_measure_nonneg(p: ViewportParameters, s: RenderProgress)
    requires
        p.wf(),
        s.wf(p),
    ensures
        measure(p, s) >= 0,
{
    if !s.done {
        let a = measure_row_weight(p);
        let k = measure_level_weight(p);
        assert(s.block_size * k >= 0 && (p.height + s.block_size - tl_y_of(s)) * a >= 0)
            by (nonlinear_arith)
            requires
                s.block_size >= 0,
                k == (p.height + 600) * a,
                a == p.width + 300,
                p.width >= 1,
                p.height >= 1,
                p.height + s.block_size - tl_y_of(s) >= 0,
        ;
    }
}

/// Every `advance` on a live well-formed state strictly lowers the measure.
/// Together with `lemma_measure_nonneg` and `lemma_completion_bound` this
/// bounds the total number of calls needed to reach `done`.
pub proof fn lemma_measure_decreases(p: ViewportParameters, s: RenderProgress)
    requires
        p.wf(),
        s.wf(p),
        !s.done,
    ensures
        measure(p, step_state(p, s)) < measure(p, s),
{
    let t = step_state(p, s);
    let a = measure_row_weight(p);
    let k = measure_level_weight(p);
    let bs = s.block_size as int;
    let ix = s.index_x as int;
    let iy = s.index_y as int;
    let w = p.width as int;
    let h = p.height as int;
    if tl_x_of(s) > p.width {
        assert(bs >= 1 && ix >= 1) by (nonlinear_arith)
            requires
                ix * bs > w,
                w >= 0,
                ix >= 0,
                bs >= 0,
        ;
        assert((iy + 1) * bs == iy * bs + bs) by (nonlinear_arith);
        assert(0 * bs == 0) by (nonlinear_arith);
        assert(measure(p, t) < measure(p, s)) by (nonlinear_arith)
            requires
                measure(p, s) == 1 + bs * k + (h + bs - iy * bs) * a + (w + 2 * bs - ix * bs),
                measure(p, t) == 1 + bs * k + (h + bs - iy * bs - bs) * a + (w + 2 * bs),
                k == (h + 600) * a,
                a == w + 300,
                1 <= bs <= 128,
                ix * bs <= w + bs,
                1 <= w <= 32768,
                1 <= h <= 32768,
        ;
    } else if tl_y_of(s) > p.height {
        let bsh = bs / 2;
        assert(bs >= 1 && iy >= 1) by (nonlinear_arith)
            requires
                iy * bs > h,
                h >= 0,
                iy >= 0,
                bs >= 0,
        ;
        lemma_fundamental_div_mod(bs, 2);
        vstd::arithmetic::div_mod::lemma_mod_bound(bs, 2);
        assert(0 * bsh == 0) by (nonlinear_arith);
        let d2 = h + bs - iy * bs;
        assert(k >= 0) by (nonlinear_arith)
            requires
                k == (h + 600) * a,
                a == w + 300,
                h >= 1,
                w >= 1,
        ;
        assert(bs * k - bsh * k >= k) by (nonlinear_arith)
            requires
                bs >= bsh + 1,
                k >= 0,
        ;
        assert(ix * bs - ix * bsh <= w + bs) by (nonlinear_arith)
            requires
                ix * bs <= w + bs,
                0 <= ix,
                0 <= bsh,
        ;
        assert((h + bsh) * a <= (h + 64) * a) by (nonlinear_arith)
            requires
                bsh <= 64,
                a >= 0,
        ;
        assert((h + 600) * a - (h + 64) * a == 536 * a) by (nonlinear_arith);
        assert(d2 * a >= 0) by (nonlinear_arith)
            requires
                d2 >= 0,
                a >= 0,
        ;
        assert(measure(p, t) < measure(p, s));
    } else if s.block_size < 1 {
        assert(ix * 0 == 0 && iy * 0 == 0) by (nonlinear_arith);
        assert(h * a >= 0) by (nonlinear_arith)
            requires
                h >= 1,
                a >= 1,
        ;
    } else {
        assert((ix + 1) * bs == ix * bs + bs) by (nonlinear_arith);
    }
}

/// The measure of the initial state is a closed-form function of the
/// viewport's dimensions alone: with `A = width + 300` it equals
/// `1 + 128 * (height + 600) * A + (height + 128) * A + width + 256`. Since
/// each `advance` call strictly lowers the measure and the measure never
/// goes below zero, a render started from the initial state reaches `done`
/// within that many calls.
pub proof fn lemma_completion_bound(p: ViewportParameters)
    requires
        p.wf(),
    ensures
        measure(p, RenderProgress::initial_spec()) == 1 + 128 * ((p.height + 600) * (p.width
            + 300)) + (p.height + 128) * (p.width + 300) + (p.width + 256),
{
    assert(0 * 128 == 0) by (nonlinear_arith);
}

/// The buffer contents once a render is driven from state `s` all the way to
/// completion: `step_buffer` applied along the transitions until `done`. A
/// full drain is a function of the viewport, the starting state and the
/// starting buffer alone.
pub open spec fn drain_buffer(p: ViewportParameters, s: RenderProgress, b: Seq<u8>) -> Seq<u8>
    decreases measure(p, s),
        when p.wf() && s.wf(p)
        via drain_buffer_decreases
{
    if s.done {
        b
    } else {
        drain_buffer(p, step_state(p, s), step_buffer(p, s, b))
    }
}

#[via_fn]
proof fn drain_buffer_decreases(p: ViewportParameters, s: RenderProgress, b: Seq<u8>) {
    if !s.done {
        lemma_step_preserves_wf(p, s);
        lemma_measure_decreases(p, s);
        lemma_measure_nonneg(p, step_state(p, s));
    }
}

/// Runs the engine until it reports completion, ignoring any deadline: after
/// the call every pixel has been painted down to single-pixel blocks, and
/// the buffer holds exactly the drain of the starting configuration.
pub fn render_to_completion(
    params: &ViewportParameters,
    progress: &mut RenderProgress,
    buffer: &mut FrameBuffer,
)
    requires
        params.wf(),
        old(progress).wf(*params),
        old(buffer).wf(),
        old(buffer).width == params.width,
        old(buffer).height == params.height,
    ensures
        final(progress).done,
        final(progress).wf(*params),
        final(buffer).wf(),
        final(buffer).width == params.width,
        final(buffer).height == params.height,
        final(buffer).data@ == drain_buffer(*params, *old(progress), old(buffer).data@),
{
    while !progress.done
        invariant
            params.wf(),
            progress.wf(*params),
            buffer.wf(),
            buffer.width == params.width,
            buffer.height == params.height,
            drain_buffer(*params, *progress, buffer.data@) == drain_buffer(
                *params,
                *old(progress),
                old(buffer).data@,
            ),
        decreases measure(*params, *progress),
    {
        let ghost before = *progress;
        proof {
            lemma_measure_decreases(*params, before);
        }
        advance(params, progress, buffer);
        proof {
            lemma_measure_nonneg(*params, *progress);
        }
    }
}

/// Determinism of a full drain: starting from equal viewports, render states
/// and buffer contents, draining to completion yields byte-identical
/// buffers.
pub proof fn lemma_full_drain_deterministic(
    p1: ViewportParameters,
    s1: RenderProgress,
    b1: Seq<u8>,
    p2: ViewportParameters,
    s2: RenderProgress,
    b2: Seq<u8>,
)
    requires
        p1 == p2,
        s1 == s2,
        b1 == b2,
    ensures
        drain_buffer(p1, s1, b1) == drain_buffer(p2, s2, b2),
{
}

/// Determinism of the engine: the transition and the painted buffer are
/// functions of the viewport, the state, and the buffer alone, so repeated
/// renders from equal configurations repaint identical buffers.
pub proof fn lemma_advance_deterministic(
    p1: ViewportParameters,
    s1: RenderProgress,
    b1: Seq<u8>,
    p2: ViewportParameters,
    s2: RenderProgress,
    b2: Seq<u8>,
)
    requires
        p1 == p2,
        s1 == s2,
        b1 == b2,
    ensures
        step_state(p1, s1) == step_state(p2, s2),
        step_buffer(p1, s1, b1) == step_buffer(p2, s2, b2),
{
}

/// Monotonic refinement: a transition either keeps the block size or halves
/// it, the halving chain `128, 64, ..., 1, 0` is preserved, and the engine
/// finishes exactly when the block size has fallen below one pixel.
pub proof fn lemma_monotonic_refinement(p: ViewportParameters, s: RenderProgress)
    requires
        p.wf(),
        s.wf(p),
    ensures
        step_state(p, s).block_size == s.block_size || step_state(p, s).block_size == s.block_size
            / 2,
        is_block_size(step_state(p, s).block_size),
        !s.done ==> (step_state(p, s).done <==> s.block_size == 0),
        s.done ==> step_state(p, s) == s,
{
    if !s.done && tl_x_of(s) > p.width {
        assert(s.block_size >= 1) by (nonlinear_arith)
            requires
                s.index_x * s.block_size > p.width,
                p.width >= 0,
        ;
    }
    if !s.done && tl_x_of(s) <= p.width && tl_y_of(s) > p.height {
        assert(s.block_size >= 1) by (nonlinear_arith)
            requires
                s.index_y * s.block_size > p.height,
                p.height >= 0,
        ;
    }
}

} // verus!
