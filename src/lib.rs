//! Board model and move generation for a real-time chess variant in which
//! every piece carries a cooldown that gates how often it may move.

pub mod board;
pub mod codec;
pub mod cooldowns;
pub mod coordinate;
pub mod fen;
pub mod gamestate;
pub mod lemmas;
pub mod movegen;
pub mod notation;
pub mod piece;
