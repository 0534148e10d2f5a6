//! A two-player dice game on a fixed-size grid, with machine-checked contracts.
//!
//! Each player claims a rectangle of cells whose size is decided by two dice.
//! The grid, the placement rule, the text rendering and the game's set-up are
//! verified with Verus; the contracts are stated over the mathematical models
//! defined beside each type.

pub mod dice;
pub mod field;
pub mod game;
pub mod pair;
pub mod player;
pub mod render;
pub mod text;

pub use dice::{is_dice, is_die, DIE_MAX, DIE_MIN};
pub use field::{blank, stamped, Field, Footprint, PlaceError, EMPTY, PLAYER_ONE, PLAYER_TWO};
pub use game::{
    cells_tagged, first_area, opening_fits, opening_layout, other_player, second_area, Game,
    GameView, Opening, BOARD_END, BOARD_SIZE,
};
pub use pair::Pair;
pub use player::Player;
pub use render::{
    border, column_labels, glyph, grid_text, header, line_count, row_glyphs, row_text, rows_text,
};
pub use text::{decimal, digit_char};
