//! The render target: a row-major grid of 8-bit grayscale pixels. Blocks are
//! painted as solid rectangles, clipped to the grid; the presentation layer
//! expands each value to an opaque `(v, v, v)` color.

use vstd::prelude::*;
use vstd::arithmetic::div_mod::{
    lemma_fundamental_div_mod,
    lemma_fundamental_div_mod_converse,
    lemma_mod_bound,
    lemma_div_pos_is_pos,
};
use crate::viewport::DIM_MAX;

verus! {

/// A pixel buffer of exactly `width * height` grayscale bytes, row-major.
pub struct FrameBuffer {
    /// The pixel bytes; index `y * width + x` holds pixel `(x, y)`.
    pub data: Vec<u8>,
    /// Pixel width of the grid.
    pub width: u32,
    /// Pixel height of the grid.
    pub height: u32,
}

/// Whether flat index `i` of a row-major grid of width `w` lies in the square
/// block whose top-left pixel is `(tlx, tly)` and whose edge is `bs`.
pub open spec fn block_covers(w: int, tlx: int, tly: int, bs: int, i: int) -> bool {
    &&& tlx <= i % w < tlx + bs
    &&& tly <= i / w < tly + bs
}

/// The contents of buffer `b` (width `w`) after the block at `(tlx, tly)` of
/// edge `bs` is filled with `v`: covered pixels hold `v`, the rest are kept.
pub open spec fn painted(b: Seq<u8>, w: int, tlx: int, tly: int, bs: int, v: u8) -> Seq<u8> {
    Seq::new(b.len(), |i: int| if block_covers(w, tlx, tly, bs, i) { v } else { b[i] })
}

impl FrameBuffer {
    /// Well-formedness: positive in-range dimensions and exactly one byte per
    /// pixel.
    pub open spec fn wf(self) -> bool {
        &&& 1 <= self.width <= DIM_MAX
        &&& 1 <= self.height <= DIM_MAX
        &&& self.data@.len() == self.width * self.height
    }

    /// A zero-filled (black) buffer of the given dimensions.
    pub fn new(width: u32, height: u32) -> (r: FrameBuffer)
        requires
            1 <= width <= DIM_MAX,
            1 <= height <= DIM_MAX,
        ensures
            r.wf(),
            r.width == width,
            r.height == height,
            forall|i: int| 0 <= i < r.data@.len() ==> r.data@[i] == 0u8,
    {
        proof {
            assert((width as int) * (height as int) <= 0x4000_0000) by (nonlinear_arith)
                requires
                    width <= 32768,
                    height <= 32768,
            ;
        }
        let total: usize = (width as usize) * (height as usize);
        let mut data: Vec<u8> = Vec::new();
        let mut k: usize = 0;
        while k < total
            invariant
                data@.len() == k,
                k <= total,
                forall|i: int| 0 <= i < k ==> data@[i] == 0u8,
            decreases total - k,
        {
            data.push(0u8);
            k = k + 1;
        }
        FrameBuffer { data, width, height }
    }

    /// The value of pixel `(x, y)`.
    pub fn get(&self, x: u32, y: u32) -> (v: u8)
        requires
            self.wf(),
            x < self.width,
            y < self.height,
        ensures
            v == self.data@[y as int * self.width as int + x as int],
    {
        proof {
            lemma_row_start_in_range(x as int, y as int, self.width as int, self.height as int);
            assert((self.width as int) * (self.height as int) <= 0x4000_0000) by (nonlinear_arith)
                requires
                    self.width <= 32768,
                    self.height <= 32768,
            ;
        }
        let idx: usize = (y as usize) * (self.width as usize) + (x as usize);
        self.data[idx]
    }

    /// Fills the block whose top-left pixel is `(tl_x, tl_y)` and whose edge
    /// is `size` with the value `v`, clipped to the grid; every other pixel
    /// keeps its value.
    pub fn fill_block(&mut self, tl_x: u32, tl_y: u32, size: u32, v: u8)
        requires
            old(self).wf(),
            tl_x <= 0xFFFF,
            tl_y <= 0xFFFF,
            1 <= size <= 0xFFFF,
        ensures
            final(self).wf(),
            final(self).width == old(self).width,
            final(self).height == old(self).height,
            final(self).data@ == painted(
                old(self).data@,
                old(self).width as int,
                tl_x as int,
                tl_y as int,
                size as int,
                v,
            ),
    {
        let w: u32 = self.width;
        let h: u32 = self.height;
        let x_end: u32 = if tl_x + size < w {
            tl_x + size
        } else {
            w
        };
        let y_end: u32 = if tl_y + size < h {
            tl_y + size
        } else {
            h
        };
        let mut y: u32 = tl_y;
        while y < y_end
            invariant
                self.wf(),
                self.width == w,
                self.height == h,
                self.data@.len() == old(self).data@.len(),
                tl_y <= y,
                y <= y_end || y == tl_y,
                y_end == if tl_y + size < h {
                    tl_y + size as int
                } else {
                    h as int
                },
                x_end == if tl_x + size < w {
                    tl_x + size as int
                } else {
                    w as int
                },
                1 <= size <= 0xFFFF,
                tl_x <= 0xFFFF,
                tl_y <= 0xFFFF,
                forall|i: int|
                    0 <= i < self.data@.len() ==> self.data@[i] == (if block_covers(
                        w as int,
                        tl_x as int,
                        tl_y as int,
                        size as int,
                        i,
                    ) && i / (w as int) < y {
                        v
                    } else {
                        old(self).data@[i]
                    }),
            decreases y_end - y,
        {
            let mut x: u32 = tl_x;
            while x < x_end
                invariant
                    self.wf(),
                    self.width == w,
                    self.height == h,
                    self.data@.len() == old(self).data@.len(),
                    tl_x <= x,
                    x <= x_end || x == tl_x,
                    tl_y <= y < y_end,
                    y_end == if tl_y + size < h {
                        tl_y + size as int
                    } else {
                        h as int
                    },
                    x_end == if tl_x + size < w {
                        tl_x + size as int
                    } else {
                        w as int
                    },
                    1 <= size <= 0xFFFF,
                    tl_x <= 0xFFFF,
                    tl_y <= 0xFFFF,
                    forall|i: int|
                        0 <= i < self.data@.len() ==> self.data@[i] == (if block_covers(
                            w as int,
                            tl_x as int,
                            tl_y as int,
                            size as int,
                            i,
                        ) && (i / (w as int) < y || (i / (w as int) == y && i % (w as int) < x)) {
                            v
                        } else {
                            old(self).data@[i]
                        }),
                decreases x_end - x,
            {
                proof {
                    lemma_row_start_in_range(x as int, y as int, w as int, h as int);
                    assert((w as int) * (h as int) <= 0x4000_0000) by (nonlinear_arith)
                        requires
                            w <= 32768,
                            h <= 32768,
                    ;
                }
                let idx: usize = (y as usize) * (w as usize) + (x as usize);
                self.data[idx] = v;
                proof {
                    lemma_fundamental_div_mod_converse(
                        idx as int,
                        w as int,
                        y as int,
                        x as int,
                    );
                    assert forall|i: int| 0 <= i < self.data@.len() implies self.data@[i] == (
                    if block_covers(w as int, tl_x as int, tl_y as int, size as int, i) && (i / (
                    w as int) < y || (i / (w as int) == y && i % (w as int) < x + 1)) {
                        v
                    } else {
                        old(self).data@[i]
                    }) by {
                        if i != idx {
                            lemma_fundamental_div_mod(i, w as int);
                            if i / (w as int) == y && i % (w as int) == x {
                                assert(i == (w as int) * (y as int) + (x as int));
                                assert(idx as int == (y as int) * (w as int) + (x as int));
                                assert((w as int) * (y as int) == (y as int) * (w as int))
                                    by (nonlinear_arith);
                                assert(false);
                            }
                        }
                    }
                }
                x = x + 1;
            }
            proof {
                assert forall|i: int| 0 <= i < self.data@.len() implies self.data@[i] == (
                if block_covers(w as int, tl_x as int, tl_y as int, size as int, i) && i / (
                w as int) < y + 1 {
                    v
                } else {
                    old(self).data@[i]
                }) by {
                    lemma_mod_bound(i, w as int);
                }
            }
            y = y + 1;
        }
        proof {
            assert forall|i: int| 0 <= i < self.data@.len() implies self.data@[i] == painted(
                old(self).data@,
                w as int,
                tl_x as int,
                tl_y as int,
                size as int,
                v,
            )[i] by {
                lemma_mod_bound(i, w as int);
                lemma_div_pos_is_pos(i, w as int);
                lemma_row_index_bounded(i, w as int, h as int);
            }
            assert(self.data@ =~= painted(
                old(self).data@,
                w as int,
                tl_x as int,
                tl_y as int,
                size as int,
                v,
            ));
        }
    }
}

/// The flat index of pixel `(x, y)` lies inside a `w * h` grid.
proof fn lemma_row_start_in_range(x: int, y: int, w: int, h: int)
    requires
        0 <= x < w,
        0 <= y < h,
    ensures
        0 <= y * w + x < w * h,
{
    assert(y * w + x < w * h) by (nonlinear_arith)
        requires
            0 <= x < w,
            0 <= y < h,
    ;
    assert(y * w >= 0) by (nonlinear_arith)
        requires
            y >= 0,
            w >= 1,
    ;
}

/// A flat index inside a `w * h` grid lies on a row below `h`.
proof fn lemma_row_index_bounded(i: int, w: int, h: int)
    requires
        1 <= w,
        1 <= h,
        0 <= i < w * h,
    ensures
        i / w < h,
{
    lemma_fundamental_div_mod(i, w);
    lemma_mod_bound(i, w);
    if i / w >= h {
        assert(w * (i / w) >= w * h) by (nonlinear_arith)
            requires
                i / w >= h,
                w >= 1,
        ;
        assert(false);
    }
}

} // verus!
