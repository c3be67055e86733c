//! A terminal Mandelbrot viewer's core: fixed-point escape-time evaluation,
//! palette classification, viewport state, frame rendering and key dispatch.
mod control;
mod escape;
mod palette;
mod render;
mod viewport;

pub use control::{after_key, handle_key, key_action, key_action_spec, Key, KeyAction};
pub use escape::{
    escape_from, escape_time, escaped, lemma_far_point_escapes, lemma_origin_never_escapes,
    lemma_zero_budget, mandelbrot_iterations, orbit, point_of, rescale, step, SCALE,
};
pub use palette::{
    iteration_to_color, lemma_escaped_color_in_palette, lemma_full_budget_is_black,
    palette_color_spec, PaletteColor,
};
pub use render::{cell_color, plane_x, plane_y, render_cells, Cell, GRID_HEIGHT, GRID_WIDTH};
pub use viewport::{
    clamp_coord, divide_by_zoom, lemma_command_keeps_wf, lemma_decrease_at_floor,
    lemma_increase_at_cap, lemma_viewport_invariant, lemma_zoom_positive, lemma_zoom_round_trip, pan_step, pow_nat,
    repeat_command, run_commands, view_range, zoom_factor, App, Command, COORD_LIMIT,
    DEFAULT_CENTER_X, DEFAULT_ITERATIONS, ITERATION_STEP, MAX_ITERATIONS, MIN_ITERATIONS,
    MAX_VIEW_RANGE, MIN_ZOOM_LEVEL, PAN_STEP, VIEW_RANGE,
};
