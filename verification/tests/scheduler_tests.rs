use fractal_explorer::{FrameScheduler, RenderProgress, ViewportParameters, FRAME_BUDGET_NANOS,
    FP_SCALE};

const S: i64 = FP_SCALE;

fn view() -> ViewportParameters {
    ViewportParameters::new(0, 0, 16, 16, 4 * S, 8).unwrap()
}

#[test]
fn new_scheduler_starts_fresh() {
    let sched = FrameScheduler::new(view());
    assert_eq!(sched.params, view());
    assert_eq!(sched.progress, RenderProgress::initial());
    assert_eq!(sched.budget_nanos, FRAME_BUDGET_NANOS);
    assert_eq!(sched.budget_nanos, 16_000_000);
    assert_eq!(sched.buffer.width, 16);
    assert_eq!(sched.buffer.height, 16);
    assert!(sched.buffer.data.iter().all(|&v| v == 0));
}

#[test]
fn unchanged_viewport_keeps_render_progress() {
    let mut sched = FrameScheduler::new(view());
    assert!(sched.frame_step(0, 0));
    assert!(sched.frame_step(0, 1));
    let reached = sched.progress;
    sched.begin_frame(view());
    assert_eq!(sched.progress, reached);
    assert_ne!(sched.progress, RenderProgress::initial());
}

#[test]
fn changed_viewport_resets_render_progress() {
    // Whatever progress was made, any parameter change rebuilds the state:
    // done=false, index_x=0, index_y=0, block_size=128.
    let mut sched = FrameScheduler::new(view());
    for k in 0..40 {
        assert!(sched.frame_step(0, k));
    }
    sched.begin_frame(view().zoom_in());
    assert_eq!(sched.params, view().zoom_in());
    assert_eq!(sched.progress, RenderProgress::initial());

    let mut other = FrameScheduler::new(view());
    assert!(other.frame_step(0, 0));
    other.begin_frame(view().iterations_up());
    assert_eq!(other.progress, RenderProgress::initial());
}

#[test]
fn reset_without_resize_keeps_the_stale_buffer() {
    let mut sched = FrameScheduler::new(view());
    while sched.frame_step(0, 0) {}
    let stale = sched.buffer.data.clone();
    assert!(stale.iter().any(|&v| v != 0));
    sched.begin_frame(view().pan_horizontal(true));
    assert_eq!(sched.buffer.data, stale);
    assert_eq!(sched.progress, RenderProgress::initial());
}

#[test]
fn resize_allocates_a_fresh_black_buffer() {
    let mut sched = FrameScheduler::new(view());
    while sched.frame_step(0, 0) {}
    sched.begin_frame(view().with_size(20, 12).unwrap());
    assert_eq!(sched.buffer.width, 20);
    assert_eq!(sched.buffer.height, 12);
    assert_eq!(sched.buffer.data.len(), 240);
    assert!(sched.buffer.data.iter().all(|&v| v == 0));
    assert_eq!(sched.progress, RenderProgress::initial());
}

#[test]
fn no_step_starts_at_or_past_the_deadline() {
    let mut sched = FrameScheduler::with_budget(view(), 1000);
    // Elapsed at the budget: refused, nothing changes.
    let before = sched.progress;
    assert!(!sched.frame_step(500, 1500));
    assert!(!sched.frame_step(0, 2000));
    assert_eq!(sched.progress, before);
    // One nanosecond under the budget: the step is issued.
    assert!(sched.frame_step(500, 1499));
    assert_ne!(sched.progress, before);
}

#[test]
fn steps_stop_once_the_render_completes() {
    let mut sched = FrameScheduler::new(view());
    let mut calls = 0u64;
    while sched.frame_step(0, 0) {
        calls += 1;
    }
    assert!(sched.progress.done);
    assert!(calls > 0);
    // Further steps are refused even with the whole budget left.
    assert!(!sched.frame_step(0, 0));
}

#[test]
fn synthetic_clock_limits_work_per_frame() {
    // A clock that advances a fixed amount per step: with a budget of five
    // ticks and one tick per call, exactly five steps fit in the frame.
    let mut sched = FrameScheduler::with_budget(view(), 5);
    let mut now = 0u64;
    let mut steps = 0u64;
    while sched.frame_step(0, now) {
        steps += 1;
        now += 1;
    }
    assert_eq!(steps, 5);
    assert!(!sched.progress.done);
}

#[test]
fn remaining_budget_counts_down_to_zero() {
    let sched = FrameScheduler::new(view());
    assert_eq!(sched.remaining_budget(0, 0), 16_000_000);
    assert_eq!(sched.remaining_budget(1000, 1_001_000), 15_000_000);
    assert_eq!(sched.remaining_budget(0, 16_000_000), 0);
    assert_eq!(sched.remaining_budget(0, 99_000_000), 0);
    assert_eq!(sched.remaining_budget(0, 15_999_999), 1);
}

#[test]
fn two_schedulers_drain_to_identical_buffers() {
    let p = ViewportParameters::new(S / 4, -S / 8, 24, 24, 2 * S, 12).unwrap();
    let mut a = FrameScheduler::new(p);
    while a.frame_step(0, 0) {}
    let mut b = FrameScheduler::new(p);
    while b.frame_step(0, 0) {}
    assert!(a.progress.done && b.progress.done);
    assert_eq!(a.buffer.data, b.buffer.data);
}
