//! One square of a board and what stands on it.

use vstd::prelude::*;
use crate::engine::Player;
use super::chesspiece::ChessPiece;
use super::layout::BoardCoordinates;

verus! {

/// A square together with the piece that stands on it, if any.
#[derive(PartialEq, Eq, Structural, Debug, Clone, Copy)]
pub struct Field {
    pub piece: Option<ChessPiece>,
    pub coordinates: BoardCoordinates,
}

impl Field {
    /// The player whose piece stands on the square, if one does.
    pub open spec fn owner(self) -> Option<Player> {
        match self.piece {
            Some(piece) => Some(piece.player),
            None => None,
        }
    }

    /// The empty square at place `index` of the board read row by row.
    pub fn new(index: u32) -> (field: Field)
        requires
            index <= 63,
        ensures
            field.piece is None,
            field.coordinates == BoardCoordinates::of_index(index as int),
    {
        Field { piece: None, coordinates: BoardCoordinates::from_index(index).unwrap() }
    }

    /// Puts `piece` on the square, in place of what stood there.
    pub fn add_replace_piece(&mut self, piece: ChessPiece)
        ensures
            final(self).piece == Some(piece),
            final(self).coordinates == old(self).coordinates,
    {
        self.piece = Some(piece)
    }

    /// Clears the square.
    pub fn remove_piece(&mut self)
        ensures
            final(self).piece is None,
            final(self).coordinates == old(self).coordinates,
    {
        self.piece = None;
    }

    /// The player whose piece stands on the square, if one does.
    pub fn check_player(&self) -> (player: Option<Player>)
        ensures
            player == self.owner(),
    {
        match self.piece {
            Some(piece) => Some(piece.player),
            None => None,
        }
    }
}

} // verus!
