//! The frame scheduler: once per presentation frame it replaces the viewport
//! with the freshly computed candidate (resetting the render on any change)
//! and then steps the engine until the render completes or the per-frame
//! time budget runs out. The clock is supplied by the caller as plain
//! nanosecond readings, so the deadline discipline is itself verified.

use vstd::prelude::*;
use crate::viewport::ViewportParameters;
use crate::buffer::FrameBuffer;
use crate::engine::{RenderProgress, advance, step_state, step_buffer};

verus! {

/// The per-frame time budget: 16 ms, a 60 Hz target.
pub const FRAME_BUDGET_NANOS: u64 = 16000000;

/// The per-frame render driver: owns the viewport in force, the resumable
/// render state, and the target buffer, and enforces the frame deadline.
pub struct FrameScheduler {
    /// The viewport the in-progress render was started for.
    pub params: ViewportParameters,
    /// The resumable render state.
    pub progress: RenderProgress,
    /// The render target.
    pub buffer: FrameBuffer,
    /// The per-frame time budget in nanoseconds.
    pub budget_nanos: u64,
}

impl FrameScheduler {
    /// Well-formedness: every component well-formed, the buffer matching the
    /// viewport's dimensions, and a positive budget.
    pub open spec fn wf(self) -> bool {
        &&& self.params.wf()
        &&& self.progress.wf(self.params)
        &&& self.buffer.wf()
        &&& self.buffer.width == self.params.width
        &&& self.buffer.height == self.params.height
        &&& self.budget_nanos >= 1
    }

    /// A scheduler over a fresh black buffer with the default 16 ms budget.
    pub fn new(params: ViewportParameters) -> (r: FrameScheduler)
        requires
            params.wf(),
        ensures
            r.wf(),
            r.params == params,
            r.progress == RenderProgress::initial_spec(),
            r.budget_nanos == FRAME_BUDGET_NANOS,
            forall|i: int| 0 <= i < r.buffer.data@.len() ==> r.buffer.data@[i] == 0u8,
    {
        Self::with_budget(params, FRAME_BUDGET_NANOS)
    }

    /// A scheduler with an explicit budget, for callers that target another
    /// frame rate.
    pub fn with_budget(params: ViewportParameters, budget_nanos: u64) -> (r: FrameScheduler)
        requires
            params.wf(),
            budget_nanos >= 1,
        ensures
            r.wf(),
            r.params == params,
            r.progress == RenderProgress::initial_spec(),
            r.budget_nanos == budget_nanos,
            forall|i: int| 0 <= i < r.buffer.data@.len() ==> r.buffer.data@[i] == 0u8,
    {
        proof {
            lemma_initial_progress_wf(params);
        }
        FrameScheduler {
            params,
            progress: RenderProgress::initial(),
            buffer: FrameBuffer::new(params.width, params.height),
            budget_nanos,
        }
    }

    /// Installs the frame's freshly computed candidate viewport. If it equals
    /// the viewport in force, nothing changes. Otherwise the candidate
    /// replaces it and the render state is reset to its initial values; the
    /// buffer is kept (stale content is progressively overwritten) unless the
    /// dimensions changed, in which case a fresh black buffer of the new
    /// dimensions is allocated.
    pub fn begin_frame(&mut self, candidate: ViewportParameters)
        requires
            old(self).wf(),
            candidate.wf(),
        ensures
            final(self).wf(),
            final(self).budget_nanos == old(self).budget_nanos,
            candidate == old(self).params ==> *final(self) == *old(self),
            candidate != old(self).params ==> {
                &&& final(self).params == candidate
                &&& final(self).progress == RenderProgress::initial_spec()
            },
            candidate != old(self).params && candidate.width == old(self).params.width
                && candidate.height == old(self).params.height ==> final(self).buffer == old(
                self,
            ).buffer,
            candidate != old(self).params && !(candidate.width == old(self).params.width
                && candidate.height == old(self).params.height) ==> {
                &&& final(self).buffer.width == candidate.width
                &&& final(self).buffer.height == candidate.height
                &&& forall|i: int|
                    0 <= i < final(self).buffer.data@.len() ==> final(self).buffer.data@[i] == 0u8
            },
    {
        if self.params == candidate {
            return ;
        }
        proof {
            lemma_initial_progress_wf(candidate);
        }
        if !(candidate.width == self.params.width && candidate.height == self.params.height) {
            self.buffer = FrameBuffer::new(candidate.width, candidate.height);
        }
        self.params = candidate;
        self.progress = RenderProgress::initial();
    }

    /// One deadline-checked render step. Issues an `advance` call — and
    /// reports `true` — exactly when the render is not finished and the time
    /// elapsed since the frame's start is still under the budget; otherwise
    /// it changes nothing and reports `false`, so a caller looping on the
    /// result never starts a step at or past the deadline.
    pub fn frame_step(&mut self, frame_start_nanos: u64, now_nanos: u64) -> (worked: bool)
        requires
            old(self).wf(),
            frame_start_nanos <= now_nanos,
        ensures
            final(self).wf(),
            worked <==> (!old(self).progress.done && now_nanos - frame_start_nanos < old(
                self,
            ).budget_nanos),
            worked ==> {
                &&& final(self).params == old(self).params
                &&& final(self).budget_nanos == old(self).budget_nanos
                &&& final(self).progress == step_state(old(self).params, old(self).progress)
                &&& final(self).buffer.data@ == step_buffer(
                    old(self).params,
                    old(self).progress,
                    old(self).buffer.data@,
                )
                &&& final(self).buffer.width == old(self).buffer.width
                &&& final(self).buffer.height == old(self).buffer.height
            },
            !worked ==> *final(self) == *old(self),
    {
        if self.progress.done {
            return false;
        }
        if now_nanos - frame_start_nanos >= self.budget_nanos {
            return false;
        }
        advance(&self.params, &mut self.progress, &mut self.buffer);
        true
    }

    /// How much of the frame budget is left at clock reading `now_nanos`:
    /// the amount a finished frame should sleep before presenting the next.
    pub fn remaining_budget(&self, frame_start_nanos: u64, now_nanos: u64) -> (r: u64)
        requires
            self.wf(),
            frame_start_nanos <= now_nanos,
        ensures
            r == if now_nanos - frame_start_nanos < self.budget_nanos {
                self.budget_nanos - (now_nanos - frame_start_nanos)
            } else {
                0
            },
    {
        let elapsed: u64 = now_nanos - frame_start_nanos;
        if elapsed < self.budget_nanos {
            self.budget_nanos - elapsed
        } else {
            0
        }
    }
}

/// The initial render state is well-formed for every well-formed viewport.
proof fn lemma_initial_progress_wf(p: ViewportParameters)
    requires
        p.wf(),
    ensures
        RenderProgress::initial_spec().wf(p),
{
    assert(0 * 128 == 0) by (nonlinear_arith);
}

} // verus!
