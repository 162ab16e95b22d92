//! A verified Tetris engine: piece shapes, the board, line clearing, the
//! game state machine and the integer parts of the placement search.
pub mod accounting;
pub mod ai;
pub mod board;
pub mod features;
pub mod feedback;
pub mod game;
pub mod laws;
pub mod model;
pub mod pieces;
pub mod rng;
pub mod search;
pub mod wav;

pub use ai::{AiAction, AiPlan};
pub use board::Board;
pub use game::Game;
pub use pieces::{shape_cells, Block, Kind, Piece, COLS, PREVIEW, ROWS};
pub use rng::Rng;
