//! A falling-block puzzle core: a playfield grid with hidden spawn rows,
//! a tetromino generator and a per-tick simulation step.
pub mod piece;
pub mod playfield;
pub mod game;
pub mod generator;

pub use piece::{Piece, SHAPE_COUNT};
pub use playfield::{Playfield, WIDTH, VISIBLE_HEIGHT, HIDDEN_ROWS, HEIGHT, SIZE};
pub use game::{Game, DELAY_MS, QUICK_DELAY_MS};
pub use generator::{next_piece, Tetris};
