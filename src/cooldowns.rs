use vstd::prelude::*;

verus! {

/// Standard cooldown of a pawn, in milliseconds.
pub const COOLDOWN_PAWN: u64 = 500;

/// Standard cooldown of a knight, in milliseconds.
pub const COOLDOWN_KNIGHT: u64 = 1500;

/// Standard cooldown of a bishop, in milliseconds.
pub const COOLDOWN_BISHOP: u64 = 1500;

/// Standard cooldown of a rook, in milliseconds.
pub const COOLDOWN_ROOK: u64 = 5000;

/// Standard cooldown of a queen, in milliseconds.
pub const COOLDOWN_QUEEN: u64 = 9000;

/// Standard cooldown of a king, in milliseconds.
pub const COOLDOWN_KING: u64 = 1500;

/// Length of one board tick, in milliseconds.
pub const BOARD_TICK_RATE: u64 = 16;

} // verus!
