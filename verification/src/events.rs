//! The events that the parts of the game send each other.

use vstd::prelude::*;
use crate::components::Position;
use crate::resources::GameState;

verus! {

/// Asks the game to show something else.
#[derive(Debug, Clone, Copy, PartialEq, Eq, Structural)]
pub struct ChangeGameStateEvent {
    pub new_state: GameState,
}

impl ChangeGameStateEvent {
    pub fn new(new_state: GameState) -> (e: Self)
        ensures
            e.new_state == new_state,
    {
        Self { new_state }
    }
}

/// Asks for the interactions on offer at a position to be gathered again.
#[derive(Debug, Clone, Copy, PartialEq, Eq, Structural)]
pub struct UpdateAvailableInteractionsEvent {
    pub position: Position,
}

} // verus!
