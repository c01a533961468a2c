//! Plays a turn-based board game against an opponent that is only observable
//! through periodic full-board snapshots, by delegating move selection to an
//! external move-search oracle spoken to over a line-oriented text protocol.
//!
//! The verified core covers the board model, the move-inference engine that
//! classifies the difference between two snapshots, the oracle adapter's move
//! history and protocol codec, and the session/match state machines. Browser
//! and process I/O live outside the library and hand it plain values.

pub mod chess_bot;
pub mod chess_move;
pub mod errors;
pub mod game_board;
pub mod piece;
pub mod square;
pub mod stockfish;
pub mod text;
