//! Movement rules for chess pieces on an 8×8 board.
//!
//! The crate models a board as a grid of optional pieces and computes, for a
//! piece on a given square, the squares it can reach under its movement rule
//! alone. King safety, castling, en passant and promotion are not considered.

pub mod board;
pub mod geometry;
pub mod pawn;
pub mod piece;
pub mod reach;
pub mod render;
pub mod sliding;
