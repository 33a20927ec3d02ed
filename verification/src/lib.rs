//! A rules engine for checkers (draughts) game records.
//!
//! A recorded game is an ordered list of moves, each a pair of board
//! coordinates. The engine replays the record against the official rules
//! for single-rank pieces on an 8x8 board (diagonal forward steps, forward
//! jumps that capture exactly one adjacent opposing piece, compulsory
//! captures, multi-jump turns) and reports the outcome: the first illegal
//! move, an unfinished game, a tie, or the winner.

pub mod board;
pub mod game;
pub mod laws;
pub mod moves;
pub mod parse;
pub mod player;
pub mod text;
