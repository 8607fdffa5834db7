//! A falling-block puzzle engine: a rectangular grid on which polyomino
//! pieces spawn, move, rotate, lock and clear completed lines, together
//! with an automatic player that plans placements by exhaustive search
//! over rotations and shifts, scored by a fixed heuristic.
//!
//! Every operation carries a contract stated over mathematical views of
//! the data (`Seq`-based models of the grids); the contracts are verified
//! with Verus.

pub mod autoplayer;
pub mod board;
pub mod commands;
pub mod end_board_with_moves;
pub mod game;
pub mod matrix;
pub mod move_direction;
pub mod piece;
pub mod piece_type;
pub mod pieces;
pub mod point;
pub mod utility;
