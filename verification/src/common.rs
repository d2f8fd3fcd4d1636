//! Rules that look at the whole board: check, checkmate and making a move.

use vstd::prelude::*;
use crate::board::chesspiece::ahead;
use crate::board::chesspiece::field_movements;
use crate::board::chesspiece::get_movements;
use crate::board::chesspiece::ChessPiece;
use crate::board::chesspiece::ChessPieceType;
use crate::board::field::Field;
use crate::board::layout::field_at;
use crate::board::layout::fields_of;
use crate::board::layout::lemma_fields_of;
use crate::board::layout::neighbour;
use crate::board::layout::owner_at;
use crate::board::layout::Board;
use crate::board::layout::BoardCoordinates;
use crate::board::layout::Squares;
use crate::engine::Player;

verus! {

/// `to` can come out of `steps` calls of `f` in a row, the first on `from`
/// and each later one on what the call before it returned.
pub open spec fn reached<T, F: FnMut(T) -> T>(f: F, from: T, to: T, steps: nat) -> bool
    decreases steps,
{
    if steps == 0 {
        to == from
    } else {
        exists|middle: T|
            reached(f, from, middle, (steps - 1) as nat) && call_ensures(f, (middle,), to)
    }
}

/// Calls `f` on `argument`, then on what it returned, and so on, `times`
/// times in all, and returns the last result.
pub fn repeat_in_place<T, F>(f: F, argument: T, times: u32) -> (last: T) where
    F: FnMut(T) -> T,

    requires
        forall|steps: nat, value: T|
            steps < times && reached(f, argument, value, steps) ==> call_requires(f, (value,)),
    ensures
        reached(f, argument, last, times as nat),
{
    let ghost given = f;
    let mut f = f;
    let mut current = argument;
    let mut done: u32 = 0;
    while done < times
        invariant
            done <= times,
            f == given,
            reached(f, argument, current, done as nat),
            forall|steps: nat, value: T|
                steps < times && reached(f, argument, value, steps) ==> call_requires(f, (value,)),
        decreases times - done,
    {
        let ghost before = current;
        current = f(current);
        done += 1;
        assert(reached(f, argument, before, (done - 1) as nat) && call_ensures(
            f,
            (before,),
            current,
        ));
    }
    current
}

/// A king stands on `square`.
pub open spec fn holds_king(squares: Squares, square: BoardCoordinates) -> bool {
    squares[square.index()] matches Some(piece) && piece.piece_type == ChessPieceType::King
}

/// The piece on `field` can move onto a square where a king stands.
pub open spec fn reaches_king(squares: Squares, field: Field) -> bool {
    exists|k: int|
        0 <= k < field_movements(squares, field).len() && holds_king(
            squares,
            #[trigger] field_movements(squares, field)[k],
        )
}

/// The king of `player` is in check: a piece of the other player can move
/// onto the square of a king.
pub open spec fn king_in_check(squares: Squares, player: Player) -> bool {
    exists|from: int|
        0 <= from < 64 && owner_at(squares, from) == Some(player.other()) && reaches_king(
            squares,
            #[trigger] field_at(squares, from),
        )
}

/// The squares after `piece` has left `from` and stands at `to`, in place of
/// what stood there.
pub open spec fn after_move(squares: Squares, piece: ChessPiece, from: int, to: int) -> Squares {
    squares.update(from, None).update(to, Some(piece))
}

/// The squares after the piece on `field` has made the move number `k` of
/// those it can make.
pub open spec fn outcome(squares: Squares, field: Field, k: int) -> Squares {
    after_move(
        squares,
        field.piece->0,
        field.coordinates.index(),
        field_movements(squares, field)[k].index(),
    )
}

/// Whatever move the piece on `field` makes, the king of `player` is in
/// check after it.
pub open spec fn stuck(squares: Squares, field: Field, player: Player) -> bool {
    forall|k: int|
        0 <= k < field_movements(squares, field).len() ==> king_in_check(
            #[trigger] outcome(squares, field, k),
            player,
        )
}

/// No move of `player` leads to squares on which its king is not in check.
/// This holds, too, of a player that cannot move at all.
pub open spec fn checkmate(squares: Squares, player: Player) -> bool {
    forall|from: int|
        0 <= from < 64 && owner_at(squares, from) == Some(player) ==> stuck(
            squares,
            #[trigger] field_at(squares, from),
            player,
        )
}

/// Tells whether the piece on `field` can move onto a king.
fn attacks_king(field: &Field, board: &Board) -> (attacks: bool)
    ensures
        attacks == reaches_king(board@, *field),
{
    let moves = get_movements(field, board);
    let mut k: usize = 0;
    while k < moves.len()
        invariant
            k <= moves.len(),
            moves@ == field_movements(board@, *field),
            forall|n: int| 0 <= n < k ==> !holds_king(board@, #[trigger] moves@[n]),
        decreases moves.len() - k,
    {
        if let Some(chesspiece) = board.at(&moves[k]).piece {
            if chesspiece.piece_type == ChessPieceType::King {
                return true;
            }
        }
        k += 1;
    }
    false
}

/// Tells whether the king of `current_player` is in check on `board`.
pub fn check_if_king_in_check(board: &Board, current_player: &Player) -> (checked: bool)
    ensures
        checked == king_in_check(board@, *current_player),
{
    let fields = board.get_all_fields_by_player(&current_player.switch());
    proof {
        lemma_fields_of(board@, current_player.other());
    }
    let mut j: usize = 0;
    while j < fields.len()
        invariant
            j <= fields.len(),
            fields@ == fields_of(board@, current_player.other()),
            forall|n: int|
                0 <= n < fields.len() ==> {
                    let field = #[trigger] fields@[n];
                    &&& 0 <= field.coordinates.index() < 64
                    &&& field == field_at(board@, field.coordinates.index())
                    &&& field.owner() == Some(current_player.other())
                },
            forall|n: int| 0 <= n < j ==> !reaches_king(board@, #[trigger] fields@[n]),
        decreases fields.len() - j,
    {
        if attacks_king(&fields[j], board) {
            proof {
                let field = fields@[j as int];
                assert(field == field_at(board@, field.coordinates.index()));
            }
            return true;
        }
        j += 1;
    }
    proof {
        assert forall|from: int|
            0 <= from < 64 && owner_at(board@, from) == Some(
                current_player.other(),
            ) implies !reaches_king(board@, #[trigger] field_at(board@, from)) by {
            let n = fields@.index_of(field_at(board@, from));
            assert(fields@[n] == field_at(board@, from));
        }
    }
    false
}

/// The board after the piece on `selected` has moved to the square of
/// `destination`.
pub fn move_piece(board: Board, selected: &Field, destination: &Field) -> (moved: Board)
    requires
        selected.piece is Some,
    ensures
        moved@ == after_move(
            board@,
            selected.piece->0,
            selected.coordinates.index(),
            destination.coordinates.index(),
        ),
{
    let piece = selected.piece.unwrap();
    let board = board.remove_piece(selected.coordinates);
    let board = board.add_replace_piece(destination.coordinates, piece);
    board
}

/// Tells whether the player whose piece stands on `selected_field` keeps its
/// king out of check when that piece moves to the square of
/// `selected_destination_field`.
pub fn is_not_checked_after_move(
    board: Board,
    selected_field: &Field,
    selected_destination_field: &Field,
) -> (safe: bool)
    requires
        selected_field.piece is Some,
    ensures
        safe == !king_in_check(
            after_move(
                board@,
                selected_field.piece->0,
                selected_field.coordinates.index(),
                selected_destination_field.coordinates.index(),
            ),
            selected_field.piece->0.player,
        ),
{
    let board = move_piece(board, selected_field, selected_destination_field);
    let player = selected_field.check_player().unwrap();
    !check_if_king_in_check(&board, &player)
}

/// Tells whether every move of the piece on `field` leaves the king of
/// `player` in check.
fn cannot_escape(board: &Board, field: &Field, player: &Player) -> (caught: bool)
    requires
        field.piece is Some,
    ensures
        caught == stuck(board@, *field, *player),
{
    let moves = get_movements(field, board);
    let mut k: usize = 0;
    while k < moves.len()
        invariant
            k <= moves.len(),
            field.piece is Some,
            moves@ == field_movements(board@, *field),
            forall|n: int| 0 <= n < k ==> king_in_check(#[trigger] outcome(board@, *field, n), *player),
        decreases moves.len() - k,
    {
        let temp_board = move_piece(board.clone(), field, &board.at(&moves[k]));
        assert(temp_board@ == outcome(board@, *field, k as int));
        if !check_if_king_in_check(&temp_board, player) {
            return false;
        }
        k += 1;
    }
    true
}

/// Tells whether `current_player` has no move after which its king is not
/// in check.
pub fn check_checkmate(board: Board, current_player: &Player) -> (mate: bool)
    ensures
        mate == checkmate(board@, *current_player),
{
    let fields = board.get_all_fields_by_player(current_player);
    proof {
        lemma_fields_of(board@, *current_player);
    }
    let mut j: usize = 0;
    while j < fields.len()
        invariant
            j <= fields.len(),
            fields@ == fields_of(board@, *current_player),
            forall|n: int|
                0 <= n < fields.len() ==> {
                    let field = #[trigger] fields@[n];
                    &&& 0 <= field.coordinates.index() < 64
                    &&& field == field_at(board@, field.coordinates.index())
                    &&& field.owner() == Some(*current_player)
                },
            forall|n: int| 0 <= n < j ==> stuck(board@, #[trigger] fields@[n], *current_player),
        decreases fields.len() - j,
    {
        if !cannot_escape(&board, &fields[j], current_player) {
            proof {
                let field = fields@[j as int];
                assert(field == field_at(board@, field.coordinates.index()));
                assert(owner_at(board@, field.coordinates.index()) == Some(*current_player));
            }
            return false;
        }
        j += 1;
    }
    proof {
        assert forall|from: int|
            0 <= from < 64 && owner_at(board@, from) == Some(*current_player) implies stuck(
            board@,
            #[trigger] field_at(board@, from),
            *current_player,
        ) by {
            let n = fields@.index_of(field_at(board@, from));
            assert(fields@[n] == field_at(board@, from));
        }
    }
    true
}

/// A pawn stands on `square` that has reached the last row on its way and
/// is to be exchanged for another piece.
pub open spec fn exchange_due(squares: Squares, square: BoardCoordinates) -> bool {
    squares[square.index()] matches Some(piece) && piece.piece_type == ChessPieceType::Pawn
        && neighbour(square.index(), ahead(piece.player), 0) is None
}

/// Tells whether a pawn stands at `coordinates` that is to be exchanged for
/// another piece.
pub fn is_exchange_due(board: &Board, coordinates: &BoardCoordinates) -> (due: bool)
    ensures
        due == exchange_due(board@, *coordinates),
{
    match board.at(coordinates).piece {
        Some(piece) => piece.can_change(*coordinates),
        None => false,
    }
}

/// The board after the pawn at `coordinates` has been exchanged for a piece
/// of the kind `piece_type` of the same player. Where no pawn stands there
/// that is to be exchanged, the board stays as it is.
pub fn exchange_pawn(board: Board, coordinates: BoardCoordinates, piece_type: ChessPieceType) -> (exchanged:
    Board)
    ensures
        exchanged@ == if exchange_due(board@, coordinates) {
            board@.update(
                coordinates.index(),
                Some(ChessPiece { piece_type, player: board@[coordinates.index()]->0.player }),
            )
        } else {
            board@
        },
{
    match board.at(&coordinates).piece {
        Some(piece) => if piece.can_change(coordinates) {
            board.add_replace_piece(coordinates, ChessPiece { piece_type, player: piece.player })
        } else {
            board
        },
        None => board,
    }
}

} // verus!
