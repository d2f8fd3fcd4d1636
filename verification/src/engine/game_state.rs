//! The state of a game and the steps that take it from one turn to the
//! next.

use vstd::prelude::*;
use rand::Rng;
use crate::ai_engine::AI;
use crate::board::chesspiece::field_movements;
use crate::board::chesspiece::get_movements;
use crate::board::chesspiece::ChessPiece;
use crate::board::field::Field;
use crate::board::layout::field_at;
use crate::board::layout::fields_of;
use crate::board::layout::lemma_fields_of;
use crate::board::layout::with_standard_pieces;
use crate::board::layout::Board;
use crate::board::layout::BoardCoordinates;
use crate::board::layout::Squares;
use crate::common::after_move;
use crate::common::check_checkmate;
use crate::common::check_if_king_in_check;
use crate::common::checkmate;
use crate::common::is_not_checked_after_move;
use crate::common::king_in_check;
use crate::common::move_piece;
use crate::engine::Player;
use crate::interface::CommandInput;
use crate::interface::GeneralInput;

verus! {

/// A game: whose turn it is, where the pieces stand, and whether the game
/// has ended in checkmate.
pub struct GameState {
    pub current_player: Player,
    pub board: Board,
    pub checkmate: bool,
}

/// `player` has lost: its king is in check and no move takes it out.
pub open spec fn mated(squares: Squares, player: Player) -> bool {
    king_in_check(squares, player) && checkmate(squares, player)
}

/// How far the user has come in choosing a move.
#[derive(PartialEq, Eq, Structural, Debug, Clone, Copy)]
pub enum Selection {
    /// Nothing is chosen yet.
    Open,
    /// The piece to move is chosen: it stands on this field.
    Piece(Field),
    /// The move is chosen: from the first field to the second.
    Move(Field, Field),
}

/// What to tell the user after an input.
#[derive(PartialEq, Eq, Structural, Debug, Clone, Copy)]
pub enum Notice {
    /// Nothing.
    Nothing,
    /// The field chosen holds no piece of the user.
    NotYourFigure,
    /// The piece chosen cannot move.
    NoPossibleMoves,
    /// The move chosen would leave the user's king in check.
    KingInCheck,
}

/// Where an input takes the choice of a move, and what is to be said
/// about it.
///
/// With nothing chosen, a square chooses the piece on it, if it is a piece
/// of `player` that can move. With a piece chosen, the command `Back` drops
/// it; a square to which the piece can move completes the move, unless the
/// move would leave the king of the piece's owner in check. A complete
/// move stays as it is, and any other input changes nothing.
pub open spec fn selection_after(
    squares: Squares,
    player: Player,
    selection: Selection,
    input: GeneralInput,
) -> (Selection, Notice) {
    match selection {
        Selection::Open => match input {
            GeneralInput::Coordinates(square) => {
                let field = field_at(squares, square.index());
                if field.owner() != Some(player) {
                    (Selection::Open, Notice::NotYourFigure)
                } else if field_movements(squares, field).len() == 0 {
                    (Selection::Open, Notice::NoPossibleMoves)
                } else {
                    (Selection::Piece(field), Notice::Nothing)
                }
            },
            _ => (Selection::Open, Notice::Nothing),
        },
        Selection::Piece(selected) => match input {
            GeneralInput::Command(CommandInput::Back) => (Selection::Open, Notice::Nothing),
            GeneralInput::Coordinates(square) => if field_movements(squares, selected).contains(
                square,
            ) {
                if !king_in_check(
                    after_move(
                        squares,
                        selected.piece->0,
                        selected.coordinates.index(),
                        square.index(),
                    ),
                    selected.piece->0.player,
                ) {
                    (
                        Selection::Move(selected, field_at(squares, square.index())),
                        Notice::Nothing,
                    )
                } else {
                    (selection, Notice::KingInCheck)
                }
            } else {
                (selection, Notice::Nothing)
            },
            _ => (selection, Notice::Nothing),
        },
        Selection::Move(_, _) => (selection, Notice::Nothing),
    }
}

/// Tells whether `square` is one of `squares`.
fn is_among(squares: &Vec<BoardCoordinates>, square: &BoardCoordinates) -> (found: bool)
    ensures
        found == squares@.contains(*square),
{
    let mut i: usize = 0;
    while i < squares.len()
        invariant
            i <= squares.len(),
            forall|j: int| 0 <= j < i ==> squares@[j] != *square,
        decreases squares.len() - i,
    {
        if squares[i] == *square {
            return true;
        }
        i += 1;
    }
    false
}

/// Takes one input of the user into the choice of a move: see
/// `selection_after`.
///
/// The caller starts with `Selection::Open`, asks the user for a square
/// while nothing is chosen and for any input after that, and goes on until
/// the selection is a `Selection::Move`.
pub fn choose_fields(game_state: &GameState, selection: Selection, input: GeneralInput) -> (next: (
    Selection,
    Notice,
))
    ensures
        next == selection_after(
            game_state.board@,
            game_state.current_player,
            selection,
            input,
        ),
{
    match selection {
        Selection::Open => {
            if let GeneralInput::Coordinates(selected_field_coordinates) = input {
                let select_field = game_state.board.at(&selected_field_coordinates);
                if select_field.check_player() != Some(game_state.current_player) {
                    (Selection::Open, Notice::NotYourFigure)
                } else {
                    let possible_fields = get_movements(&select_field, &game_state.board);
                    if possible_fields.is_empty() {
                        (Selection::Open, Notice::NoPossibleMoves)
                    } else {
                        (Selection::Piece(select_field), Notice::Nothing)
                    }
                }
            } else {
                (Selection::Open, Notice::Nothing)
            }
        },
        Selection::Piece(select_field) => {
            if let GeneralInput::Command(CommandInput::Back) = input {
                return (Selection::Open, Notice::Nothing);
            }
            if let GeneralInput::Coordinates(coordinates) = input {
                let possible_fields = get_movements(&select_field, &game_state.board);
                if is_among(&possible_fields, &coordinates) {
                    let destination_field = game_state.board.at(&coordinates);
                    if is_not_checked_after_move(
                        game_state.board.clone(),
                        &select_field,
                        &destination_field,
                    ) {
                        return (
                            Selection::Move(select_field, destination_field),
                            Notice::Nothing,
                        );
                    } else {
                        return (selection, Notice::KingInCheck);
                    }
                }
            }
            (selection, Notice::Nothing)
        },
        Selection::Move(_, _) => (selection, Notice::Nothing),
    }
}

impl GameState {
    /// A new game: the pieces stand where they start, and the user moves
    /// first.
    pub fn start() -> (game_state: Self)
        ensures
            game_state.current_player == Player::User,
            game_state.board@ == with_standard_pieces(Seq::new(64, |i: int| None::<ChessPiece>)),
            !game_state.checkmate,
    {
        GameState {
            current_player: Player::User,
            board: Board::default().fill_standard_pieces(),
            checkmate: false,
        }
    }

    /// Tells whether the player whose turn it is has lost.
    pub fn is_mated(&self) -> (lost: bool)
        ensures
            lost == mated(self.board@, self.current_player),
    {
        check_if_king_in_check(&self.board, &self.current_player) && check_checkmate(
            self.board.clone(),
            &self.current_player,
        )
    }

    /// Makes the move of the player whose turn it is.
    ///
    /// The opponent's move comes from `ai_engine`. The user's move is the
    /// one in `choice`, from the first field to the second; while the user
    /// has not chosen, the game stays as it is. A player that has lost does
    /// not move: the game is marked as ended.
    pub fn do_move<E: AI>(self, ai_engine: &mut E, choice: Option<(Field, Field)>) -> (next: Self)
        requires
            self.current_player == Player::Opponent && !mated(self.board@, self.current_player)
                ==> old(ai_engine).prepared(self.board@) is Some,
        ensures
            next.current_player == self.current_player,
            self.current_player == Player::Opponent ==> ai_turn(self, *old(ai_engine), next),
            self.current_player == Player::Opponent && !mated(self.board@, self.current_player)
                ==> final(ai_engine).position() == next.board@,
            mated(self.board@, self.current_player) ==> *final(ai_engine) == *old(ai_engine),
            self.current_player == Player::User ==> *final(ai_engine) == *old(ai_engine),
            self.current_player == Player::User ==> match choice {
                Some((selected, destination)) if selected.piece is Some => user_turn(
                    self,
                    selected,
                    destination,
                    next,
                ),
                _ => next.board@ == self.board@ && next.checkmate == (self.checkmate || mated(
                    self.board@,
                    self.current_player,
                )),
            },
    {
        match self.current_player {
            Player::User => match choice {
                Some((selected, destination)) => if selected.piece.is_some() {
                    do_user_move(self, &selected, &destination)
                } else {
                    let lost = self.is_mated();
                    GameState {
                        current_player: self.current_player,
                        board: self.board,
                        checkmate: self.checkmate || lost,
                    }
                },
                None => {
                    let lost = self.is_mated();
                    GameState {
                        current_player: self.current_player,
                        board: self.board,
                        checkmate: self.checkmate || lost,
                    }
                },
            },
            Player::Opponent => do_ai_move(self, ai_engine),
        }
    }

    /// Hands the turn to the other player.
    pub fn switch_player(self) -> (next: Self)
        ensures
            next.current_player == self.current_player.other(),
            next.board@ == self.board@,
            next.checkmate == self.checkmate,
    {
        Self {
            current_player: self.current_player.switch(),
            board: self.board,
            checkmate: self.checkmate,
        }
    }
}

/// What a turn of the user does to a game: a user that has lost does not
/// move and the game is marked as ended; otherwise the piece on `selected`
/// moves to the square of `destination`.
pub open spec fn user_turn(
    game_state: GameState,
    selected: Field,
    destination: Field,
    next: GameState,
) -> bool {
    &&& next.current_player == game_state.current_player
    &&& if mated(game_state.board@, game_state.current_player) {
        next.checkmate && next.board@ == game_state.board@
    } else {
        next.checkmate == game_state.checkmate && next.board@ == after_move(
            game_state.board@,
            selected.piece->0,
            selected.coordinates.index(),
            destination.coordinates.index(),
        )
    }
}

/// What a turn of the engine does to a game: an engine that has lost does
/// not move and the game is marked as ended; otherwise the board becomes
/// the reply that `ai_engine` holds ready for it.
pub open spec fn ai_turn<E: AI>(game_state: GameState, ai_engine: E, next: GameState) -> bool {
    &&& next.current_player == game_state.current_player
    &&& if mated(game_state.board@, game_state.current_player) {
        next.checkmate && next.board@ == game_state.board@
    } else {
        next.checkmate == game_state.checkmate && Some(next.board@) == ai_engine.prepared(
            game_state.board@,
        )
    }
}

/// The user's turn, with the move that the user has chosen: see
/// `user_turn`.
pub fn do_user_move(game_state: GameState, selected_field: &Field, destination_field: &Field) -> (next:
    GameState)
    requires
        selected_field.piece is Some,
    ensures
        user_turn(game_state, *selected_field, *destination_field, next),
{
    let mut game_state = game_state;
    let king_in_check = check_if_king_in_check(&game_state.board, &game_state.current_player);

    if king_in_check && check_checkmate(game_state.board.clone(), &game_state.current_player) {
        game_state.checkmate = true;
        return game_state;
    }
    game_state.board = move_piece(game_state.board, selected_field, destination_field);
    game_state
}

/// The engine's turn: see `ai_turn`.
pub fn do_ai_move<E: AI>(game_state: GameState, ai_engine: &mut E) -> (next: GameState)
    requires
        !mated(game_state.board@, game_state.current_player) ==> old(ai_engine).prepared(
            game_state.board@,
        ) is Some,
    ensures
        ai_turn(game_state, *old(ai_engine), next),
        mated(game_state.board@, game_state.current_player) ==> *final(ai_engine) == *old(
            ai_engine,
        ),
        !mated(game_state.board@, game_state.current_player) ==> final(ai_engine).position()
            == next.board@,
{
    let mut game_state = game_state;
    let king_in_check = check_if_king_in_check(&game_state.board, &game_state.current_player);

    if king_in_check && check_checkmate(game_state.board.clone(), &game_state.current_player) {
        game_state.checkmate = true;
        return game_state;
    }
    game_state.board = ai_engine.make_move(game_state.board);
    game_state
}

/// A number below `bound`, drawn at random.
///
/// This is the trusted call into rand: `thread_rng` and, on what it hands
/// out, `gen_range` with the range from 0 up to, not including, `bound`.
/// The contract takes from rand only that the number lies in the range;
/// `gen_range` panics on an empty range, which is why `bound` is to be
/// more than 0.
#[verifier::external_body]
fn random_below(bound: usize) -> (pick: usize)
    requires
        bound > 0,
    ensures
        pick < bound,
{
    rand::thread_rng().gen_range(0..bound)
}

/// The piece on `selected` is one of `player` and can move to the square
/// of `destination` without leaving the king of `player` in check.
pub open spec fn playable(
    squares: Squares,
    player: Player,
    selected: Field,
    destination: Field,
) -> bool {
    &&& fields_of(squares, player).contains(selected)
    &&& field_movements(squares, selected).contains(destination.coordinates)
    &&& destination == field_at(squares, destination.coordinates.index())
    &&& !king_in_check(
        after_move(
            squares,
            selected.piece->0,
            selected.coordinates.index(),
            destination.coordinates.index(),
        ),
        player,
    )
}

/// The move that two draws stand for: the piece is the one on the field
/// number `field_pick` of those on which `player` has a piece, in the order
/// of the board, and the move is number `destination_pick` of those that
/// this piece can make. There is no such move where a number names
/// nothing, and none to play where the move would leave the king of
/// `player` in check.
pub open spec fn drawn_move(
    squares: Squares,
    player: Player,
    field_pick: int,
    destination_pick: int,
) -> Option<(Field, Field)> {
    let fields = fields_of(squares, player);
    if 0 <= field_pick < fields.len() {
        let selected = fields[field_pick];
        let moves = field_movements(squares, selected);
        if 0 <= destination_pick < moves.len() {
            let square = moves[destination_pick];
            if king_in_check(
                after_move(
                    squares,
                    selected.piece->0,
                    selected.coordinates.index(),
                    square.index(),
                ),
                player,
            ) {
                None
            } else {
                Some((selected, Field { piece: squares[square.index()], coordinates: square }))
            }
        } else {
            None
        }
    } else {
        None
    }
}

/// `destination_pick` is a draw from the moves of the piece that
/// `field_pick` names: a number below their count, or 0 where there is
/// none to draw from.
pub open spec fn in_reach(
    squares: Squares,
    player: Player,
    field_pick: int,
    destination_pick: int,
) -> bool {
    let count = field_movements(squares, fields_of(squares, player)[field_pick]).len();
    if count == 0 {
        destination_pick == 0
    } else {
        0 <= destination_pick < count
    }
}

/// The move that the draws `field_pick` and `destination_pick` stand for
/// in `game_state`, for the player whose turn it is: see `drawn_move`.
pub fn computer_move_at(game_state: &GameState, field_pick: usize, destination_pick: usize) -> (choice:
    Option<(Field, Field)>)
    ensures
        choice == drawn_move(
            game_state.board@,
            game_state.current_player,
            field_pick as int,
            destination_pick as int,
        ),
        choice matches Some((selected, destination)) ==> playable(
            game_state.board@,
            game_state.current_player,
            selected,
            destination,
        ),
{
    let possible_fields = game_state.board.get_all_fields_by_player(&game_state.current_player);
    if field_pick >= possible_fields.len() {
        return None;
    }
    proof {
        lemma_fields_of(game_state.board@, game_state.current_player);
    }
    let selected_field = possible_fields[field_pick];
    let possible_destinations = get_movements(&selected_field, &game_state.board);
    if destination_pick >= possible_destinations.len() {
        return None;
    }
    let destination = possible_destinations[destination_pick];
    let destination_field = game_state.board.at(&destination);
    if is_not_checked_after_move(game_state.board.clone(), &selected_field, &destination_field) {
        Some((selected_field, destination_field))
    } else {
        None
    }
}

/// Draws a piece of the player whose turn it is at random, and one of its
/// moves at random, and hands the move out if it can be played.
///
/// The piece is drawn from those of the player, the move from those that
/// the piece can make, and what comes back is what `computer_move_at` makes
/// of the two draws. Nothing comes back where the player has no piece,
/// where the piece drawn cannot move, and where the move drawn would leave
/// the player's king in check. Which piece and which move are drawn is left
/// to chance.
pub fn pick_computer_move(game_state: &GameState) -> (choice: Option<(Field, Field)>)
    ensures
        choice matches Some((selected, destination)) ==> playable(
            game_state.board@,
            game_state.current_player,
            selected,
            destination,
        ),
        fields_of(game_state.board@, game_state.current_player).len() == 0 ==> choice is None,
        fields_of(game_state.board@, game_state.current_player).len() > 0 ==> exists|
            field_pick: int,
            destination_pick: int,
        |
            {
                &&& 0 <= field_pick < fields_of(
                    game_state.board@,
                    game_state.current_player,
                ).len()
                &&& in_reach(
                    game_state.board@,
                    game_state.current_player,
                    field_pick,
                    destination_pick,
                )
                &&& choice == #[trigger] drawn_move(
                    game_state.board@,
                    game_state.current_player,
                    field_pick,
                    destination_pick,
                )
            },
{
    let possible_fields = game_state.board.get_all_fields_by_player(&game_state.current_player);
    if possible_fields.is_empty() {
        return None;
    }
    let field_pick = random_below(possible_fields.len());
    let selected_field = possible_fields[field_pick];
    let possible_destinations = get_movements(&selected_field, &game_state.board);
    if possible_destinations.is_empty() {
        assert(drawn_move(game_state.board@, game_state.current_player, field_pick as int, 0)
            is None);
        return None;
    }
    let destination_pick = random_below(possible_destinations.len());
    computer_move_at(game_state, field_pick, destination_pick)
}

/// A turn of a player that moves at random, as far as one draw takes it.
///
/// A player that has lost does not move: the game is marked as ended and
/// the turn is over. Otherwise one move is drawn (see
/// `pick_computer_move`): if it can be played it is played and the turn is
/// over, if not the game stays as it is and the turn is still to be made.
/// The second part of the result tells whether the turn is over.
pub fn do_computer_move(game_state: GameState) -> (turn: (GameState, bool))
    ensures
        turn.0.current_player == game_state.current_player,
        mated(game_state.board@, game_state.current_player) ==> turn.1 && turn.0.checkmate
            && turn.0.board@ == game_state.board@,
        !mated(game_state.board@, game_state.current_player) ==> turn.0.checkmate
            == game_state.checkmate,
        !mated(game_state.board@, game_state.current_player) && turn.1 ==> exists|
            selected: Field,
            destination: Field,
        |
            #![trigger playable(game_state.board@, game_state.current_player, selected, destination)]
            playable(game_state.board@, game_state.current_player, selected, destination)
                && turn.0.board@ == after_move(
                game_state.board@,
                selected.piece->0,
                selected.coordinates.index(),
                destination.coordinates.index(),
            ),
        !turn.1 ==> turn.0.board@ == game_state.board@,
{
    let mut game_state = game_state;
    let king_in_check = check_if_king_in_check(&game_state.board, &game_state.current_player);

    if king_in_check && check_checkmate(game_state.board.clone(), &game_state.current_player) {
        game_state.checkmate = true;
        return (game_state, true);
    }
    match pick_computer_move(&game_state) {
        Some((selected_field, destination_field)) => {
            proof {
                lemma_fields_of(game_state.board@, game_state.current_player);
            }
            game_state.board = move_piece(game_state.board, &selected_field, &destination_field);
            (game_state, true)
        },
        None => (game_state, false),
    }
}

} // verus!
