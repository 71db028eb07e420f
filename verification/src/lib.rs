//! A progressive, time-budgeted Mandelbrot renderer.
//!
//! The complex plane is modelled in signed Q32.32 fixed point, so every
//! computation the renderer makes is exact integer arithmetic with a
//! precisely stated contract: the coordinate mapping from screen pixels to
//! plane points, the escape-time evaluation of the Mandelbrot recurrence,
//! the coarse-to-fine block traversal that fills a frame buffer, and the
//! per-frame deadline discipline of the scheduler.

mod buffer;
mod engine;
mod evaluator;
mod fixed;
mod mapper;
mod scheduler;
mod viewport;

pub use scheduler::FrameScheduler;
pub use scheduler::FRAME_BUDGET_NANOS;

pub use buffer::FrameBuffer;
pub use buffer::block_covers;
pub use buffer::painted;
pub use engine::RenderProgress;
pub use engine::is_block_size;
pub use engine::tl_x_of;
pub use engine::tl_y_of;
pub use engine::paints;
pub use engine::step_state;
pub use engine::step_buffer;
pub use engine::drain_buffer;
pub use engine::measure;
pub use engine::measure_row_weight;
pub use engine::measure_level_weight;
pub use engine::shade_level;
pub use engine::block_color;
pub use engine::advance;
pub use engine::render_to_completion;
pub use engine::shade;
pub use engine::lemma_advance_deterministic;
pub use engine::lemma_full_drain_deterministic;
pub use engine::lemma_step_preserves_wf;
pub use engine::lemma_monotonic_refinement;
pub use engine::lemma_measure_nonneg;
pub use engine::lemma_measure_decreases;
pub use engine::lemma_completion_bound;
pub use engine::INITIAL_BLOCK_SIZE;

pub use mapper::pixel_to_plane;
pub use mapper::plane_offset;
pub use mapper::map_re;
pub use mapper::map_im;
pub use mapper::lemma_center_pixel_maps_to_center;
pub use mapper::SAMPLE_MARGIN;

pub use evaluator::evaluate;
pub use evaluator::escape_time;
pub use evaluator::has_escaped;
pub use evaluator::fnorm;
pub use evaluator::orbit_step_re;
pub use evaluator::orbit_step_im;
pub use evaluator::lemma_escape_time_origin;
pub use evaluator::lemma_escape_time_escaped;
pub use evaluator::ESCAPE_THRESHOLD;
pub use evaluator::ESCAPE_COMPONENT;

pub use fixed::fp_mul;
pub use fixed::fmul;
pub use fixed::tdiv;
pub use fixed::FP_SCALE;
pub use fixed::FP_MUL_ARG_MAX;
pub use viewport::ViewportParameters;
pub use viewport::CENTER_MAX;
pub use viewport::DOMAIN_MAX;
pub use viewport::DOMAIN_MIN;
pub use viewport::MAX_ITER_CAP;
pub use viewport::DIM_MAX;
pub use viewport::INITIAL_DOMAIN;
pub use viewport::INITIAL_MAX_ITER;
