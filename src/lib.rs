//! A completion menu: candidates laid out in a column-wrapped grid, a 2-D
//! cursor driven by navigation events, and windowed rendering of the grid.

mod grid;
mod layout;
mod menu;
mod render;
mod style;
mod text;
mod types;

pub use grid::{
    after_next_steps, cell_index, dec_sat, down_row, grid_rows, left_col, lemma_left_right,
    lemma_navigation_stays_on_candidates, lemma_next_wraps_after_n_steps, next_cell, occupied,
    previous_cell, right_col, up_row,
};
pub use layout::{
    base_width, byte_len, candidate_width, fitted_columns, max_candidate_width, possible_columns,
};
pub use menu::{
    left_step_stays, lemma_event_sequence_keeps_cursor_on_candidates,
    lemma_events_keep_cursor_on_candidates, lemma_resize_bounds, lemma_resize_idempotent,
    navigated, offset_after, requeries, CompletionMenu, MenuView,
};
pub use render::{line_end, no_records, plain_text, spaces};
pub use style::{ansi_reset, MenuTextStyle};
pub use text::{newlines_as_spaces, upper_of};
pub use types::{values_view, BufferEdit, Completer, MenuEvent, Span};
