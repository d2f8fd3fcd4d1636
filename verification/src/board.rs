//! The board: its squares, the pieces on them and how each piece moves.

pub mod chesspiece;
pub mod field;
pub mod layout;
