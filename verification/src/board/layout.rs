//! Squares of the board and the board itself.

use vstd::prelude::*;
use vstd::std_specs::cmp::PartialEqSpecImpl;
use crate::board::chesspiece::ChessPiece;
use crate::board::chesspiece::ChessPieceType;
use crate::board::field::Field;
use crate::engine::Player;

verus! {

/// The board: 64 squares, read row by row.
///
/// The square at place `i` always carries the coordinates of index `i`.
#[derive(Debug)]
pub struct Board(pub(crate) [Field; 64]);

/// What stands on each of the 64 squares of a board, read row by row.
pub type Squares = Seq<Option<ChessPiece>>;

impl View for Board {
    type V = Squares;

    closed spec fn view(&self) -> Squares {
        Seq::new(64, |i: int| self.0[i].piece)
    }
}

/// The square at place `i` of `squares`, with what stands on it.
pub open spec fn field_at(squares: Squares, i: int) -> Field {
    Field { piece: squares[i], coordinates: BoardCoordinates::of_index(i) }
}

/// The player whose piece stands at place `i` of `squares`, if one does.
pub open spec fn owner_at(squares: Squares, i: int) -> Option<Player> {
    field_at(squares, i).owner()
}

/// The squares on which `player` has a piece, in the order of the board.
pub open spec fn fields_of(squares: Squares, player: Player) -> Seq<Field> {
    Seq::new(64, |i: int| field_at(squares, i)).filter(|f: Field| f.owner() == Some(player))
}

/// What `fields_of` holds: squares of the board, each with what stands on
/// it, all those and only those with a piece of `player`.
pub proof fn lemma_fields_of(squares: Squares, player: Player)
    ensures
        forall|j: int|
            0 <= j < fields_of(squares, player).len() ==> {
                let field = #[trigger] fields_of(squares, player)[j];
                &&& 0 <= field.coordinates.index() < 64
                &&& field == field_at(squares, field.coordinates.index())
                &&& field.owner() == Some(player)
            },
        forall|i: int|
            0 <= i < 64 && owner_at(squares, i) == Some(player) ==> fields_of(
                squares,
                player,
            ).contains(#[trigger] field_at(squares, i)),
{
    broadcast use {
        BoardCoordinates::lemma_of_index,
        Seq::lemma_filter_pred,
        Seq::lemma_filter_contains,
        Seq::lemma_filter_contains_rev,
    };

    let all = Seq::new(64, |i: int| field_at(squares, i));
    let mine = |f: Field| f.owner() == Some(player);
    assert forall|j: int| 0 <= j < fields_of(squares, player).len() implies {
        let field = #[trigger] fields_of(squares, player)[j];
        &&& 0 <= field.coordinates.index() < 64
        &&& field == field_at(squares, field.coordinates.index())
        &&& field.owner() == Some(player)
    } by {
        let field = all.filter(mine)[j];
        assert(all.filter(mine).contains(field));
        assert(all.contains(field));
        let i = choose|i: int| 0 <= i < 64 && all[i] == field;
        assert(field == field_at(squares, i));
    }
    assert forall|i: int| 0 <= i < 64 && owner_at(squares, i) == Some(player) implies fields_of(
        squares,
        player,
    ).contains(#[trigger] field_at(squares, i)) by {
        assert(all[i] == field_at(squares, i));
        assert(mine(all[i]));
    }
}

/// The kind of piece that starts in column `col` of a player's own row.
pub open spec fn back_rank(col: int) -> ChessPieceType {
    if col == 0 || col == 7 {
        ChessPieceType::Rook
    } else if col == 1 || col == 6 {
        ChessPieceType::Knight
    } else if col == 2 || col == 5 {
        ChessPieceType::Bishop
    } else if col == 3 {
        ChessPieceType::Queen
    } else {
        ChessPieceType::King
    }
}

/// The piece that starts a game at place `i`, for the two rows on each side
/// of the board that hold pieces then.
pub open spec fn standard_piece(i: int) -> ChessPiece {
    let row = i / 8;
    ChessPiece {
        piece_type: if row == 1 || row == 6 {
            ChessPieceType::Pawn
        } else {
            back_rank(i % 8)
        },
        player: if row <= 1 {
            Player::Opponent
        } else {
            Player::User
        },
    }
}

/// `squares` with the pieces of both players put where they start a game;
/// the four rows in the middle stay as they are.
pub open spec fn with_standard_pieces(squares: Squares) -> Squares {
    Seq::new(
        64,
        |i: int|
            if 16 <= i < 48 {
                squares[i]
            } else {
                Some(standard_piece(i))
            },
    )
}

/// The trusted source of an empty board.
///
/// Calls `array_init::array_init`, which fills an array by calling its
/// argument once for each index, from the lowest to the highest, and puts
/// each result at that index.
#[verifier::external_body]
fn empty_squares() -> (fields: [Field; 64])
    ensures
        forall|i: int|
            0 <= i < 64 ==> (#[trigger] fields[i]).piece is None && fields[i].coordinates
                == BoardCoordinates::of_index(i),
{
    array_init::array_init(|i: usize| Field::new(i as u32))
}

impl Default for Board {
    /// The board with no piece on it.
    fn default() -> (board: Board)
        ensures
            board@ == Seq::new(64, |i: int| None::<ChessPiece>),
    {
        let board = Board(empty_squares());
        board
    }
}

impl Clone for Board {
    /// A copy of the board, square by square.
    fn clone(&self) -> (copy: Board)
        ensures
            copy@ == self@,
    {
        proof {
            use_type_invariant(self);
        }
        Board(self.0)
    }
}

/// Tells whether two squares hold the same piece, or both none.
fn same_piece(a: &Option<ChessPiece>, b: &Option<ChessPiece>) -> (same: bool)
    ensures
        same == (*a == *b),
{
    match (a, b) {
        (None, None) => true,
        (Some(x), Some(y)) => x.piece_type == y.piece_type && x.player == y.player,
        _ => false,
    }
}

impl PartialEq for Board {
    /// Two boards are equal when the same pieces stand on the same squares.
    fn eq(&self, other: &Board) -> (same: bool) {
        let mut i: usize = 0;
        while i < 64
            invariant
                i <= 64,
                forall|j: int| 0 <= j < i ==> self@[j] == other@[j],
            decreases 64 - i,
        {
            if !same_piece(&self.0[i].piece, &other.0[i].piece) {
                assert(self@[i as int] != other@[i as int]);
                return false;
            }
            i += 1;
        }
        assert(self@ =~= other@);
        true
    }
}

impl PartialEqSpecImpl for Board {
    open spec fn obeys_eq_spec() -> bool {
        true
    }

    open spec fn eq_spec(&self, other: &Board) -> bool {
        self@ == other@
    }
}

impl Eq for Board {

}

impl Board {
    /// Every square carries the coordinates of its own place.
    #[verifier::type_invariant]
    closed spec fn squares_in_place(&self) -> bool {
        forall|i: int|
            0 <= i < 64 ==> (#[trigger] self.0[i]).coordinates == BoardCoordinates::of_index(i)
    }

    /// Puts a piece of `player` of the kind `piece_type` at place `index`.
    fn place(self, index: u32, piece_type: ChessPieceType, player: Player) -> (board: Board)
        requires
            index <= 63,
        ensures
            board@ == self@.update(index as int, Some(ChessPiece { piece_type, player })),
    {
        let coordinates = BoardCoordinates::from_index(index).unwrap();
        proof {
            BoardCoordinates::lemma_of_index(index as int);
        }
        self.add_replace_piece(coordinates, ChessPiece { piece_type, player })
    }

    /// Puts the pieces of both players where they start a game.
    pub fn fill_standard_pieces(self) -> (board: Board)
        ensures
            board@ == with_standard_pieces(self@),
    {
        let mut board = self;
        let mut y: u32 = 0;
        while y < 8
            invariant
                y <= 8,
                board@.len() == 64,
                forall|i: int|
                    0 <= i < 64 ==> #[trigger] board@[i] == if 8 <= i < 8 + y || 48 <= i < 48 + y {
                        Some(standard_piece(i))
                    } else {
                        self@[i]
                    },
            decreases 8 - y,
        {
            board = board.place(48 + y, ChessPieceType::Pawn, Player::User).place(
                8 + y,
                ChessPieceType::Pawn,
                Player::Opponent,
            );
            y += 1;
        }
        board = board.place(56, ChessPieceType::Rook, Player::User).place(
            57,
            ChessPieceType::Knight,
            Player::User,
        ).place(58, ChessPieceType::Bishop, Player::User).place(
            59,
            ChessPieceType::Queen,
            Player::User,
        ).place(60, ChessPieceType::King, Player::User).place(
            61,
            ChessPieceType::Bishop,
            Player::User,
        ).place(62, ChessPieceType::Knight, Player::User).place(
            63,
            ChessPieceType::Rook,
            Player::User,
        ).place(0, ChessPieceType::Rook, Player::Opponent).place(
            1,
            ChessPieceType::Knight,
            Player::Opponent,
        ).place(2, ChessPieceType::Bishop, Player::Opponent).place(
            3,
            ChessPieceType::Queen,
            Player::Opponent,
        ).place(4, ChessPieceType::King, Player::Opponent).place(
            5,
            ChessPieceType::Bishop,
            Player::Opponent,
        ).place(6, ChessPieceType::Knight, Player::Opponent).place(
            7,
            ChessPieceType::Rook,
            Player::Opponent,
        );
        board
    }

    /// The squares on which `player` has a piece, in the order of the board.
    pub fn get_all_fields_by_player(&self, player: &Player) -> (fields: Vec<Field>)
        ensures
            fields@ == fields_of(self@, *player),
    {
        let ghost all = Seq::new(64, |i: int| field_at(self@, i));
        let ghost mine = |f: Field| f.owner() == Some(*player);
        let mut fields: Vec<Field> = Vec::new();
        let mut i: usize = 0;
        while i < 64
            invariant
                i <= 64,
                all == Seq::new(64, |i: int| field_at(self@, i)),
                mine == |f: Field| f.owner() == Some(*player),
                fields@ == all.take(i as int).filter(mine),
            decreases 64 - i,
        {
            proof {
                use_type_invariant(self);
            }
            let field = self.0[i];
            if field.check_player() == Some(*player) {
                fields.push(field);
            }
            proof {
                all.lemma_take_succ_push(i as int);
                all.take(i as int).lemma_filter_push(field, mine);
            }
            i += 1;
        }
        assert(all.take(64) =~= all);
        fields
    }

    /// The square at `coordinates` with what stands on it.
    pub fn at(&self, coordinates: &BoardCoordinates) -> (field: Field)
        ensures
            field == field_at(self@, coordinates.index()),
            field.coordinates == *coordinates,
    {
        proof {
            use_type_invariant(self);
            use_type_invariant(coordinates);
            coordinates.lemma_index_of();
        }
        self.0[(coordinates.x * 8 + coordinates.y) as usize]
    }

    /// The board without the piece at `coordinates`.
    pub fn remove_piece(self, coordinates: BoardCoordinates) -> (board: Board)
        ensures
            board@ == self@.update(coordinates.index(), None),
    {
        proof {
            use_type_invariant(&self);
            use_type_invariant(coordinates);
        }
        let mut board = self;
        let place = (coordinates.x * 8 + coordinates.y) as usize;
        board.0[place].piece = None;
        board
    }

    /// The board with `piece` at `coordinates`, in place of what stood there.
    ///
    /// The piece is placed as it is given: a pawn that reaches its last row
    /// stays a pawn until it is exchanged for the piece of the player's
    /// choice (see `exchange_pawn`).
    pub fn add_replace_piece(self, coordinates: BoardCoordinates, piece: ChessPiece) -> (board:
        Board)
        ensures
            board@ == self@.update(coordinates.index(), Some(piece)),
    {
        proof {
            use_type_invariant(&self);
            use_type_invariant(coordinates);
        }
        let mut board = self;
        let place = (coordinates.x * 8 + coordinates.y) as usize;
        board.0[place].piece = Some(piece);
        board
    }
}

/// A square of the 8x8 board, by row and column.
///
/// Rows are counted from the opponent's side (row 0) to the user's side
/// (row 7), columns from left to right. A value of this type always names a
/// square of the board.
#[derive(PartialEq, Eq, Structural, Debug, Clone, Copy)]
pub struct BoardCoordinates {
    x: u32,
    y: u32,
}

impl BoardCoordinates {
    /// The row of the square.
    pub closed spec fn row(self) -> int {
        self.x as int
    }

    /// The column of the square.
    pub closed spec fn col(self) -> int {
        self.y as int
    }

    /// The square lies on the board.
    #[verifier::type_invariant]
    pub open spec fn on_board(self) -> bool {
        0 <= self.row() < 8 && 0 <= self.col() < 8
    }

    /// The place of the square when the board is read row by row.
    pub open spec fn index(self) -> int {
        self.row() * 8 + self.col()
    }

    /// The square at place `i` of the board read row by row.
    pub closed spec fn of_index(i: int) -> BoardCoordinates {
        BoardCoordinates { x: (i / 8) as u32, y: (i % 8) as u32 }
    }

    /// `of_index` and `index` are inverse to each other on the board.
    pub broadcast proof fn lemma_of_index(i: int)
        requires
            0 <= i < 64,
        ensures
            #![trigger BoardCoordinates::of_index(i)]
            BoardCoordinates::of_index(i).on_board(),
            BoardCoordinates::of_index(i).row() == i / 8,
            BoardCoordinates::of_index(i).col() == i % 8,
            BoardCoordinates::of_index(i).index() == i,
    {
    }

    /// A square of the board is the one at its own index.
    pub broadcast proof fn lemma_index_of(self)
        requires
            self.on_board(),
        ensures
            0 <= #[trigger] self.index() < 64,
            BoardCoordinates::of_index(self.index()) == self,
    {
    }

    /// The square at place `index` of the board read row by row, if there is
    /// one.
    pub fn from_index(index: u32) -> (square: Option<Self>)
        ensures
            index <= 63 ==> square == Some(BoardCoordinates::of_index(index as int)),
            index > 63 ==> square is None,
    {
        if index > 63 {
            None
        } else {
            Some(Self { x: index / 8, y: index % 8 })
        }
    }

    /// The square in row `x` and column `y`, if there is one.
    pub fn from_coordinates(x: u32, y: u32) -> (square: Option<Self>)
        ensures
            x <= 7 && y <= 7 ==> square == Some(BoardCoordinates::of_index(x * 8 + y)),
            x > 7 || y > 7 ==> square is None,
    {
        if x > 7 || y > 7 {
            None
        } else {
            Some(Self { x, y })
        }
    }

    /// The row of the square.
    pub fn x(&self) -> (row: u32)
        ensures
            row == self.row(),
            row <= 7,
    {
        proof {
            use_type_invariant(self);
        }
        self.x
    }

    /// The column of the square.
    pub fn y(&self) -> (col: u32)
        ensures
            col == self.col(),
            col <= 7,
    {
        proof {
            use_type_invariant(self);
        }
        self.y
    }

    /// The square one row nearer to the opponent's side.
    pub fn up(self) -> (square: Option<Self>)
        ensures
            square == neighbour(self.index(), -1, 0),
    {
        proof {
            use_type_invariant(self);
        }
        if self.x > 0 {
            Some(Self { x: self.x - 1, y: self.y })
        } else {
            None
        }
    }

    /// The square one row nearer to the user's side.
    pub fn down(self) -> (square: Option<Self>)
        ensures
            square == neighbour(self.index(), 1, 0),
    {
        proof {
            use_type_invariant(self);
        }
        if self.x < 7 {
            Some(Self { x: self.x + 1, y: self.y })
        } else {
            None
        }
    }

    /// The square one column to the left.
    pub fn left(self) -> (square: Option<Self>)
        ensures
            square == neighbour(self.index(), 0, -1),
    {
        proof {
            use_type_invariant(self);
        }
        if self.y > 0 {
            Some(Self { x: self.x, y: self.y - 1 })
        } else {
            None
        }
    }

    /// The square one column to the right.
    pub fn right(self) -> (square: Option<Self>)
        ensures
            square == neighbour(self.index(), 0, 1),
    {
        proof {
            use_type_invariant(self);
        }
        if self.y < 7 {
            Some(Self { x: self.x, y: self.y + 1 })
        } else {
            None
        }
    }
}

/// The square `rows` rows below and `cols` columns right of the square at
/// index `from`, if the board reaches that far.
pub open spec fn neighbour(from: int, rows: int, cols: int) -> Option<BoardCoordinates> {
    let row = from / 8 + rows;
    let col = from % 8 + cols;
    if 0 <= row < 8 && 0 <= col < 8 {
        Some(BoardCoordinates::of_index(row * 8 + col))
    } else {
        None
    }
}

} // verus!
