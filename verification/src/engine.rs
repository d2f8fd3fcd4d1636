//! The two sides of the game, and the state of a game between them.

pub mod game_state;

use vstd::prelude::*;

verus! {

/// One of the two sides: the human player and the automated opponent.
#[derive(PartialEq, Eq, Structural, Debug, Clone, Copy)]
pub enum Player {
    User,
    Opponent,
}

impl Player {
    /// The other side.
    pub open spec fn other(self) -> Player {
        match self {
            Player::User => Player::Opponent,
            Player::Opponent => Player::User,
        }
    }

    /// The name under which the player is spoken of to the user.
    pub fn name(&self) -> (name: &'static str)
        ensures
            name@ == match self {
                Player::User => "You"@,
                Player::Opponent => "Opponent"@,
            },
    {
        match self {
            Player::User => "You",
            Player::Opponent => "Opponent",
        }
    }

    /// Hands the turn to the other side.
    pub fn switch(self) -> (next: Player)
        ensures
            next == self.other(),
    {
        if self == Player::Opponent {
            Player::User
        } else {
            Player::Opponent
        }
    }
}

} // verus!
