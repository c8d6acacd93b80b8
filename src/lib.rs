//! A text-mode console driver: a grid of two-byte character cells, a cursor
//! that wraps and scrolls, and the codec between colors, attributes and cells.

mod codec;
mod laws;
mod volatile_cell;
mod writer;

pub use codec::{
    Color, ColorCode, ScreenChar, sanitize_byte, SUBSTITUTE_GLYPH, attribute_of, cell_of,
    is_representable, spec_sanitize, lemma_color_code_round_trip, lemma_attribute_decodes,
    lemma_attribute_injective, lemma_cell_round_trip,
};
pub use laws::{
    lemma_fitting_bytes_stay_on_row, lemma_full_line_wraps_once,
    lemma_newline_above_bottom_keeps_grid, lemma_newline_on_bottom_scrolls,
    lemma_clear_row_idempotent, drawn, joined_lines, fits_on_row, lemma_after_bytes_concat,
    lemma_height_lines_scroll_once,
};
pub use volatile_cell::volatile_value;
pub use writer::{
    Writer, _print, ConsoleState, well_formed, blank_row, cleared, shifted_up, line_advanced,
    placed, after_byte, after_bytes, row_values, lemma_after_byte_well_formed,
    lemma_after_bytes_well_formed, BUFFER_HEIGHT, BUFFER_WIDTH, BLANK, NEWLINE,
};
