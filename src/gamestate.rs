use vstd::prelude::*;
use crate::board::{standard_model, Board};

verus! {

/// The state of one game: its board.
#[derive(Debug, Clone, Copy)]
pub struct GameState {
    pub board: Board,
}

impl GameState {
    /// A game at the starting position.
    pub fn new() -> (g: GameState)
        ensures
            g.board@ == standard_model(),
    {
        GameState { board: Board::standard() }
    }
}

impl Default for GameState {
    fn default() -> (g: GameState)
        ensures
            g.board@ == standard_model(),
    {
        GameState::new()
    }
}

} // verus!
