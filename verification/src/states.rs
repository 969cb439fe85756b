//! The two flags that a game keeps beside the story: what the application
//! shows, and who has control while a level is played.

use vstd::prelude::*;

verus! {

/// What the application is showing.
#[derive(Debug, Clone, Copy, PartialEq, Eq, Hash, Structural)]
pub enum States {
    Loading,
    Menu,
    LoadingLevel,
    InGame,
}

/// Who has control while a level is played. The player moves only in
/// `Exploration`; in `Conversation` the story has the screen.
#[derive(Debug, Clone, Copy, PartialEq, Eq, Hash, Structural)]
pub enum GameMode {
    Neither,
    Exploration,
    Conversation,
}

impl GameMode {
    /// Whether the player may move.
    pub open spec fn grants_movement(self) -> bool {
        self is Exploration
    }

    pub fn can_move(self) -> (r: bool)
        ensures
            r == self.grants_movement(),
    {
        match self {
            GameMode::Exploration => true,
            _ => false,
        }
    }
}

} // verus!
