//! Move generation and piece selection for a chessboard.
//!
//! [`board`] holds the squares, the pieces, the targets a piece may move to,
//! and the steps that turn a click on a square into a selection or a move.
//! [`gui`] holds what the move list needs to lay out the recorded moves.

pub mod board;
pub mod gui;
