//! The phases of a round and what the play buttons do.

use vstd::prelude::*;

verus! {

/// The phases of the game: idle (the machine resets and waits for a new
/// round), running (someone is playing) and finished (the claw drops and
/// closes before the machine resets).
#[allow(non_camel_case_types)]
#[derive(Clone, Copy, Debug, PartialEq, Eq, Structural)]
pub enum GameState {
    IDLE,
    RUNNING,
    FINISHED,
}

impl GameState {
    /// The phase that follows this one.
    pub fn next(self) -> (r: GameState)
        ensures
            self == GameState::IDLE ==> r == GameState::RUNNING,
            self == GameState::RUNNING ==> r == GameState::FINISHED,
            self == GameState::FINISHED ==> r == GameState::IDLE,
    {
        match self {
            GameState::IDLE => GameState::RUNNING,
            GameState::RUNNING => GameState::FINISHED,
            GameState::FINISHED => GameState::IDLE,
        }
    }
}

/// A change on the play buttons' line ends the current phase when it is a
/// press, that is when either button reads high.
pub fn button_ends_phase(end_high: bool, start_high: bool) -> (r: bool)
    ensures
        r == (end_high || start_high),
{
    end_high || start_high
}

} // verus!
