//! A falling-block puzzle engine for text terminals: the playfield and piece
//! physics, scoring and tick speed, and a tile canvas that serializes itself
//! to a minimal stream of escape sequences.

mod ansi;
mod canvas;
mod color;
mod field;
mod game;
mod position;
mod stones;
mod texture;
mod tile;
mod view;

pub use ansi::{cursor_position_code, decimal, digit_char, rgb_params};
pub use canvas::{
    blank_rows, character_tile, concat_rows, frame_code, full_code, full_frame_code, overlay,
    paragraph, scan_code, text_grid, text_row, themed_text_grid, Canvas, Rows,
};
pub use color::{Color, Rgb};
pub use field::{
    cell_free, cleared_grid, emptied_full_rows, empty_field, empty_row, free_at, kept_rows,
    lemma_cleared_count, lemma_cleared_shape, lemma_full_row_cleared, lemma_outside_free,
    row_full, rows_view, stamp_cell, stamp_grid, tile_at, Field, FIELD_HEIGHT, FIELD_WIDTH,
};
pub use game::Game;
pub use position::Position;
pub use stones::{
    block, column_has_tile, is_piece_texture, is_shape_texture, leftmost, lemma_rotated_piece,
    lemma_shape_is_piece, lowest, rightmost, row_has_tile, Shape, Stone, SHAPE_COUNT,
};
pub use texture::{
    filled_grid, grid_shaped, lemma_rotate_four_times, rotated_grid, Dimensions, Grid, Texture,
};
pub use tile::{
    background_code, background_tile, combined_code, default_tile, diff_code, foreground_code,
    separate_code, Tile,
};
pub use view::{
    help_lines, lemma_power_monotone, lemma_power_positive, lemma_spawn_free,
    lemma_spawnable_shape, level_for, level_label, points_after, points_label, power, progressed,
    proposed_tick_time, proposed_tick_time_at, same_score_and_timing, session_frame,
    spawn_position, spawnable, stone_after_key, stone_locked, tick_time, Key, PlayView,
    INITIAL_TICK_TIME, MAX_CLEARED_LINES, MINIMAL_TICK_TIME,
};
