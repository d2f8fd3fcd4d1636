//! The pieces and how they move.

use vstd::prelude::*;
use crate::board::field::Field;
use crate::board::layout::neighbour;
use crate::board::layout::owner_at;
use crate::board::layout::Board;
use crate::board::layout::BoardCoordinates;
use crate::board::layout::Squares;
use crate::engine::Player;

verus! {

/// A piece of one of the two players.
#[derive(PartialEq, Eq, Structural, Debug, Clone, Copy)]
pub struct ChessPiece {
    pub piece_type: ChessPieceType,
    pub player: Player,
}

/// The six kinds of pieces.
#[derive(PartialEq, Eq, Structural, Debug, Clone, Copy)]
pub enum ChessPieceType {
    Pawn,
    Bishop,
    Knight,
    Rook,
    Queen,
    King,
}

impl ChessPieceType {
    /// What a piece of this kind is worth when the pieces on a board are
    /// counted.
    pub open spec fn worth(self) -> int {
        match self {
            ChessPieceType::Pawn => 1,
            ChessPieceType::Bishop => 3,
            ChessPieceType::Knight => 3,
            ChessPieceType::Rook => 5,
            ChessPieceType::Queen => 9,
            ChessPieceType::King => 100,
        }
    }

    /// What a piece of this kind is worth when the pieces on a board are
    /// counted.
    pub fn value(&self) -> (value: i32)
        ensures
            value == self.worth(),
    {
        match self {
            ChessPieceType::Pawn => 1,
            ChessPieceType::Bishop => 3,
            ChessPieceType::Knight => 3,
            ChessPieceType::Rook => 5,
            ChessPieceType::Queen => 9,
            ChessPieceType::King => 100,
        }
    }
}

/// The row step that takes a pawn of `player` forward: the user's pawns
/// walk towards row 0, the opponent's towards row 7.
pub open spec fn ahead(player: Player) -> int {
    match player {
        Player::User => -1,
        Player::Opponent => 1,
    }
}

/// The square `rows` rows and `cols` columns from `from`, as the one place a
/// piece of `player` can go to in that direction: it must lie on the board
/// and hold no piece of the same player. Empty otherwise.
pub open spec fn hop(squares: Squares, from: int, rows: int, cols: int, player: Player) -> Seq<
    BoardCoordinates,
> {
    match neighbour(from, rows, cols) {
        Some(square) => if owner_at(squares, square.index()) == Some(player) {
            Seq::empty()
        } else {
            seq![square]
        },
        None => Seq::empty(),
    }
}

/// The squares that a piece of `player` reaches from `from` when it slides
/// by steps of `rows` rows and `cols` columns, at most `reach` steps far:
/// every empty square on the way, then the first square with a piece of the
/// other player, and nothing behind a piece.
pub open spec fn ray(
    squares: Squares,
    from: int,
    rows: int,
    cols: int,
    player: Player,
    reach: nat,
) -> Seq<BoardCoordinates>
    decreases reach,
{
    if reach == 0 {
        Seq::empty()
    } else {
        match neighbour(from, rows, cols) {
            None => Seq::empty(),
            Some(square) => match owner_at(squares, square.index()) {
                Some(owner) => if owner == player {
                    Seq::empty()
                } else {
                    seq![square]
                },
                None => seq![square] + ray(
                    squares,
                    square.index(),
                    rows,
                    cols,
                    player,
                    (reach - 1) as nat,
                ),
            },
        }
    }
}

/// The square straight ahead of a pawn, if it is on the board and empty.
pub open spec fn pawn_advance(squares: Squares, from: int, player: Player) -> Seq<
    BoardCoordinates,
> {
    match neighbour(from, ahead(player), 0) {
        Some(square) => if owner_at(squares, square.index()) is None {
            seq![square]
        } else {
            Seq::empty()
        },
        None => Seq::empty(),
    }
}

/// The square diagonally ahead of a pawn on the side `cols`, if it is on the
/// board and holds a piece of the other player.
pub open spec fn pawn_capture(squares: Squares, from: int, cols: int, player: Player) -> Seq<
    BoardCoordinates,
> {
    match neighbour(from, ahead(player), cols) {
        Some(square) => if owner_at(squares, square.index()) == Some(player.other()) {
            seq![square]
        } else {
            Seq::empty()
        },
        None => Seq::empty(),
    }
}

/// Where a pawn of `player` at `from` can go: one step ahead, then the
/// capture to the right, then the capture to the left.
pub open spec fn pawn_movements(squares: Squares, from: int, player: Player) -> Seq<
    BoardCoordinates,
> {
    pawn_advance(squares, from, player) + pawn_capture(squares, from, 1, player) + pawn_capture(
        squares,
        from,
        -1,
        player,
    )
}

/// Where a bishop of `player` at `from` can go: along the four diagonals.
pub open spec fn bishop_movements(squares: Squares, from: int, player: Player) -> Seq<
    BoardCoordinates,
> {
    ray(squares, from, -1, -1, player, 7) + ray(squares, from, -1, 1, player, 7) + ray(
        squares,
        from,
        1,
        -1,
        player,
        7,
    ) + ray(squares, from, 1, 1, player, 7)
}

/// Where a rook of `player` at `from` can go: along its column and its row.
pub open spec fn rook_movements(squares: Squares, from: int, player: Player) -> Seq<
    BoardCoordinates,
> {
    ray(squares, from, -1, 0, player, 7) + ray(squares, from, 1, 0, player, 7) + ray(
        squares,
        from,
        0,
        -1,
        player,
        7,
    ) + ray(squares, from, 0, 1, player, 7)
}

/// Where a queen of `player` at `from` can go: as a rook, then as a bishop.
pub open spec fn queen_movements(squares: Squares, from: int, player: Player) -> Seq<
    BoardCoordinates,
> {
    rook_movements(squares, from, player) + bishop_movements(squares, from, player)
}

/// Where a knight of `player` at `from` can go.
pub open spec fn knight_movements(squares: Squares, from: int, player: Player) -> Seq<
    BoardCoordinates,
> {
    hop(squares, from, -2, 1, player) + hop(squares, from, -2, -1, player) + hop(
        squares,
        from,
        -1,
        2,
        player,
    ) + hop(squares, from, 1, 2, player) + hop(squares, from, -1, -2, player) + hop(
        squares,
        from,
        1,
        -2,
        player,
    ) + hop(squares, from, 2, -1, player) + hop(squares, from, 2, 1, player)
}

/// Where a king of `player` at `from` can go: to the squares next to it.
pub open spec fn king_movements(squares: Squares, from: int, player: Player) -> Seq<
    BoardCoordinates,
> {
    hop(squares, from, -1, 0, player) + hop(squares, from, -1, -1, player) + hop(
        squares,
        from,
        -1,
        1,
        player,
    ) + hop(squares, from, 1, 0, player) + hop(squares, from, 1, -1, player) + hop(
        squares,
        from,
        1,
        1,
        player,
    ) + hop(squares, from, 0, -1, player) + hop(squares, from, 0, 1, player)
}

/// Where `piece` can go from the square at index `from`, in the order in
/// which the moves are tried. Whether a move would leave the mover's own
/// king in check is not looked at here.
pub open spec fn movements(squares: Squares, piece: ChessPiece, from: int) -> Seq<
    BoardCoordinates,
> {
    match piece.piece_type {
        ChessPieceType::Pawn => pawn_movements(squares, from, piece.player),
        ChessPieceType::Bishop => bishop_movements(squares, from, piece.player),
        ChessPieceType::Knight => knight_movements(squares, from, piece.player),
        ChessPieceType::Rook => rook_movements(squares, from, piece.player),
        ChessPieceType::Queen => queen_movements(squares, from, piece.player),
        ChessPieceType::King => king_movements(squares, from, piece.player),
    }
}

/// Where the piece on `field` can go; nowhere if the field is empty.
pub open spec fn field_movements(squares: Squares, field: Field) -> Seq<BoardCoordinates> {
    match field.piece {
        Some(piece) => movements(squares, piece, field.coordinates.index()),
        None => Seq::empty(),
    }
}

/// The squares to which the piece on `field` can move on `board`.
pub fn get_movements(field: &Field, board: &Board) -> (moves: Vec<BoardCoordinates>)
    ensures
        moves@ == field_movements(board@, *field),
{
    if let Some(piece) = &field.piece {
        match piece.piece_type {
            ChessPieceType::Pawn => pawn_moves(board, field),
            ChessPieceType::Bishop => bishop_moves(board, field),
            ChessPieceType::Knight => knight_moves(board, field),
            ChessPieceType::Rook => rook_moves(board, field),
            ChessPieceType::Queen => queen_moves(board, field),
            ChessPieceType::King => king_moves(board, field),
        }
    } else {
        Vec::new()
    }
}

/// The square in front of `coordinates`, as `player` sees the board.
pub fn front(coordinates: BoardCoordinates, player: Player) -> (square: Option<BoardCoordinates>)
    ensures
        square == neighbour(coordinates.index(), ahead(player), 0),
{
    match player {
        Player::User => coordinates.up(),
        Player::Opponent => coordinates.down(),
    }
}

/// The square `rows` rows and `cols` columns from `from`, if the board
/// reaches that far.
fn shifted(from: BoardCoordinates, rows: i32, cols: i32) -> (square: Option<BoardCoordinates>)
    requires
        -2 <= rows <= 2,
        -2 <= cols <= 2,
    ensures
        square == neighbour(from.index(), rows as int, cols as int),
{
    let row = from.x() as i32 + rows;
    let col = from.y() as i32 + cols;
    if row < 0 || col < 0 {
        None
    } else {
        BoardCoordinates::from_coordinates(row as u32, col as u32)
    }
}

/// Adds to `moves` the square `rows` rows and `cols` columns from `from`, if
/// a piece of `player` can go there.
fn push_hop(
    moves: &mut Vec<BoardCoordinates>,
    board: &Board,
    from: BoardCoordinates,
    rows: i32,
    cols: i32,
    player: Player,
)
    requires
        -2 <= rows <= 2,
        -2 <= cols <= 2,
    ensures
        final(moves)@ == old(moves)@ + hop(board@, from.index(), rows as int, cols as int, player),
{
    if let Some(square) = shifted(from, rows, cols) {
        let field = board.at(&square);
        if field.check_player() != Some(player) {
            moves.push(square);
        }
    }
}

/// Adds to `moves` the squares that a piece of `player` reaches from `from`
/// when it slides by steps of `rows` rows and `cols` columns.
fn push_ray(
    moves: &mut Vec<BoardCoordinates>,
    board: &Board,
    from: BoardCoordinates,
    rows: i32,
    cols: i32,
    player: Player,
)
    requires
        -1 <= rows <= 1,
        -1 <= cols <= 1,
    ensures
        final(moves)@ == old(moves)@ + ray(
            board@,
            from.index(),
            rows as int,
            cols as int,
            player,
            7,
        ),
{
    let mut current = from;
    let mut steps: u32 = 0;
    while steps < 7
        invariant_except_break
            steps <= 7,
            -1 <= rows <= 1,
            -1 <= cols <= 1,
            old(moves)@ + ray(board@, from.index(), rows as int, cols as int, player, 7)
                == moves@ + ray(
                board@,
                current.index(),
                rows as int,
                cols as int,
                player,
                (7 - steps) as nat,
            ),
        ensures
            moves@ == old(moves)@ + ray(board@, from.index(), rows as int, cols as int, player, 7),
        decreases 7 - steps,
    {
        let ghost before = moves@;
        let ghost rest = ray(
            board@,
            current.index(),
            rows as int,
            cols as int,
            player,
            (7 - steps) as nat,
        );
        match shifted(current, rows, cols) {
            None => {
                break ;
            },
            Some(square) => {
                let field = board.at(&square);
                match field.check_player() {
                    Some(owner) => {
                        if owner != player {
                            moves.push(square);
                        }
                        break ;
                    },
                    None => {
                        moves.push(square);
                        assert(before + rest =~= moves@ + ray(
                            board@,
                            square.index(),
                            rows as int,
                            cols as int,
                            player,
                            (7 - steps - 1) as nat,
                        ));
                    },
                }
                current = square;
                steps += 1;
            },
        }
    }
}

fn pawn_moves(board: &Board, current_field: &Field) -> (moves: Vec<BoardCoordinates>)
    requires
        current_field.piece is Some,
    ensures
        moves@ == pawn_movements(
            board@,
            current_field.coordinates.index(),
            current_field.piece->0.player,
        ),
{
    let mut coordinates_vec = Vec::new();
    let current_player = current_field.check_player().unwrap();
    let own_coordinates = current_field.coordinates;
    let step: i32 = match current_player {
        Player::User => -1,
        Player::Opponent => 1,
    };

    if let Some(coordinates) = front(own_coordinates, current_player) {
        let field = board.at(&coordinates);
        if field.check_player().is_none() {
            coordinates_vec.push(coordinates);
        }
    }

    if let Some(coordinates) = shifted(own_coordinates, step, 1) {
        let field = board.at(&coordinates);
        if field.check_player() == Some(current_player.switch()) {
            coordinates_vec.push(coordinates);
        }
    }

    if let Some(coordinates) = shifted(own_coordinates, step, -1) {
        let field = board.at(&coordinates);
        if field.check_player() == Some(current_player.switch()) {
            coordinates_vec.push(coordinates);
        }
    }
    coordinates_vec
}

fn bishop_moves(board: &Board, current_field: &Field) -> (moves: Vec<BoardCoordinates>)
    requires
        current_field.piece is Some,
    ensures
        moves@ == bishop_movements(
            board@,
            current_field.coordinates.index(),
            current_field.piece->0.player,
        ),
{
    let mut coordinates_vec = Vec::new();
    let current_player = current_field.check_player().unwrap();
    let own_coordinates = current_field.coordinates;
    push_ray(&mut coordinates_vec, board, own_coordinates, -1, -1, current_player);
    push_ray(&mut coordinates_vec, board, own_coordinates, -1, 1, current_player);
    push_ray(&mut coordinates_vec, board, own_coordinates, 1, -1, current_player);
    push_ray(&mut coordinates_vec, board, own_coordinates, 1, 1, current_player);
    coordinates_vec
}

fn knight_moves(board: &Board, current_field: &Field) -> (moves: Vec<BoardCoordinates>)
    requires
        current_field.piece is Some,
    ensures
        moves@ == knight_movements(
            board@,
            current_field.coordinates.index(),
            current_field.piece->0.player,
        ),
{
    let mut coordinates_vec = Vec::new();
    let current_player = current_field.check_player().unwrap();
    let own_coordinates = current_field.coordinates;
    push_hop(&mut coordinates_vec, board, own_coordinates, -2, 1, current_player);
    push_hop(&mut coordinates_vec, board, own_coordinates, -2, -1, current_player);
    push_hop(&mut coordinates_vec, board, own_coordinates, -1, 2, current_player);
    push_hop(&mut coordinates_vec, board, own_coordinates, 1, 2, current_player);
    push_hop(&mut coordinates_vec, board, own_coordinates, -1, -2, current_player);
    push_hop(&mut coordinates_vec, board, own_coordinates, 1, -2, current_player);
    push_hop(&mut coordinates_vec, board, own_coordinates, 2, -1, current_player);
    push_hop(&mut coordinates_vec, board, own_coordinates, 2, 1, current_player);
    coordinates_vec
}

fn rook_moves(board: &Board, current_field: &Field) -> (moves: Vec<BoardCoordinates>)
    requires
        current_field.piece is Some,
    ensures
        moves@ == rook_movements(
            board@,
            current_field.coordinates.index(),
            current_field.piece->0.player,
        ),
{
    let mut coordinates_vec = Vec::new();
    let current_player = current_field.check_player().unwrap();
    let own_coordinates = current_field.coordinates;
    push_ray(&mut coordinates_vec, board, own_coordinates, -1, 0, current_player);
    push_ray(&mut coordinates_vec, board, own_coordinates, 1, 0, current_player);
    push_ray(&mut coordinates_vec, board, own_coordinates, 0, -1, current_player);
    push_ray(&mut coordinates_vec, board, own_coordinates, 0, 1, current_player);
    coordinates_vec
}

fn queen_moves(board: &Board, current_field: &Field) -> (moves: Vec<BoardCoordinates>)
    requires
        current_field.piece is Some,
    ensures
        moves@ == queen_movements(
            board@,
            current_field.coordinates.index(),
            current_field.piece->0.player,
        ),
{
    let mut coordinates_vec = rook_moves(board, current_field);
    let mut diagonal = bishop_moves(board, current_field);
    coordinates_vec.append(&mut diagonal);
    coordinates_vec
}

fn king_moves(board: &Board, current_field: &Field) -> (moves: Vec<BoardCoordinates>)
    requires
        current_field.piece is Some,
    ensures
        moves@ == king_movements(
            board@,
            current_field.coordinates.index(),
            current_field.piece->0.player,
        ),
{
    let mut coordinates_vec = Vec::new();
    let current_player = current_field.check_player().unwrap();
    let own_coordinates = current_field.coordinates;
    push_hop(&mut coordinates_vec, board, own_coordinates, -1, 0, current_player);
    push_hop(&mut coordinates_vec, board, own_coordinates, -1, -1, current_player);
    push_hop(&mut coordinates_vec, board, own_coordinates, -1, 1, current_player);
    push_hop(&mut coordinates_vec, board, own_coordinates, 1, 0, current_player);
    push_hop(&mut coordinates_vec, board, own_coordinates, 1, -1, current_player);
    push_hop(&mut coordinates_vec, board, own_coordinates, 1, 1, current_player);
    push_hop(&mut coordinates_vec, board, own_coordinates, 0, -1, current_player);
    push_hop(&mut coordinates_vec, board, own_coordinates, 0, 1, current_player);
    coordinates_vec
}

impl ChessPiece {
    /// Tells whether the piece, standing at `coordinates`, is a pawn that
    /// has reached the last row on its way and is to be exchanged for
    /// another piece.
    pub fn can_change(&self, coordinates: BoardCoordinates) -> (due: bool)
        ensures
            due == (self.piece_type == ChessPieceType::Pawn && neighbour(
                coordinates.index(),
                ahead(self.player),
                0,
            ) is None),
    {
        if self.piece_type == ChessPieceType::Pawn {
            match self.player {
                Player::User => coordinates.up().is_none(),
                Player::Opponent => coordinates.down().is_none(),
            }
        } else {
            false
        }
    }
}

} // verus!
