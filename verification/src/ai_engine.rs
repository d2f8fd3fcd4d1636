//! The automated opponent: the positions it can choose from, how it values
//! a position, and the engine that answers the user's moves.

pub mod simple_min_max;

use vstd::prelude::*;
use crate::board::chesspiece::field_movements;
use crate::board::chesspiece::get_movements;
use crate::board::field::Field;
use crate::board::layout::field_at;
use crate::board::layout::fields_of;
use crate::board::layout::lemma_fields_of;
use crate::board::layout::owner_at;
use crate::board::layout::Board;
use crate::board::layout::BoardCoordinates;
use crate::board::layout::Squares;
use crate::common::check_checkmate;
use crate::common::check_if_king_in_check;
use crate::common::checkmate;
use crate::common::king_in_check;
use crate::common::move_piece;
use crate::common::outcome;
use crate::common::stuck;
use crate::engine::Player;
use crate::ai_engine::simple_min_max::MinMaxAI;

verus! {

/// An automated player that prepares its replies ahead of the user's move.
pub trait AI: Send + Sync {
    /// The position that the engine takes the game to be in.
    spec fn position(&self) -> Squares;

    /// The reply that the engine holds ready for the case that the user
    /// moves to `observed`, if it holds one.
    spec fn prepared(&self, observed: Squares) -> Option<Squares>;

    /// Prepares the replies to what the user may do next.
    fn standby(&mut self)
        ensures
            final(self).position() == old(self).position(),
    ;

    /// Tells whether the engine holds a reply ready for the case that the
    /// user moves to `board`.
    fn knows(&self, board: &Board) -> (known: bool)
        ensures
            known == self.prepared(board@) is Some,
    ;

    /// The engine's reply to the user's move to `board`. The reply becomes
    /// the engine's position, and what was prepared is given up: it was
    /// made for the position before.
    ///
    /// A board for which no reply is ready has no answer: to ask for one is
    /// an error of the caller.
    fn make_move(&mut self, board: Board) -> (reply: Board)
        requires
            old(self).prepared(board@) is Some,
        ensures
            Some(reply@) == old(self).prepared(board@),
            final(self).position() == reply@,
            forall|observed: Squares| final(self).prepared(observed) is None,
    ;
}

/// Asks `engine` for its reply to the user's move to `board`.
pub fn make_move<E: AI>(engine: &mut E, board: Board) -> (new_board: Board)
    requires
        old(engine).prepared(board@) is Some,
    ensures
        Some(new_board@) == old(engine).prepared(board@),
        final(engine).position() == new_board@,
        forall|observed: Squares| final(engine).prepared(observed) is None,
{
    engine.make_move(board)
}

/// The engine for a game that starts on `board`, searching five plies deep.
///
/// Where the engine has the first move, its cache starts with the board as
/// an entry of its own, to be replaced by the first move when the engine
/// next prepares; otherwise the cache starts empty.
pub fn new_wrapper_for_min_max(scoring_agent: DefaultAgent, board: Board, first_move: bool) -> (engine:
    MinMaxAI<DefaultAgent>)
    ensures
        engine.current() == board@,
        engine.agent() == scoring_agent,
        engine.depth() == 5,
        engine.cache() == if first_move {
            seq![(board@, board@)]
        } else {
            Seq::<(Squares, Squares)>::empty()
        },
{
    MinMaxAI::new(scoring_agent, board, first_move, 5)
}

/// A way to value a position, seen from the engine's side: the higher the
/// value, the better for the engine.
pub trait ScoringAgent: Send + Sync + Copy {
    /// The value of the position `squares`.
    spec fn value_of(&self, squares: Squares) -> i32;

    /// The value of the position on `board`.
    fn score(&self, board: &Board) -> (value: i32)
        ensures
            value == self.value_of(board@),
    ;
}

/// What the pieces of `player` on the first `upto` squares are worth
/// together.
pub open spec fn material(squares: Squares, player: Player, upto: int) -> int
    decreases upto,
{
    if upto <= 0 {
        0
    } else {
        material(squares, player, upto - 1) + match squares[upto - 1] {
            Some(piece) => if piece.player == player {
                piece.piece_type.worth()
            } else {
                0
            },
            None => 0,
        }
    }
}

/// The pieces on the first `upto` squares are worth at most a king each.
pub proof fn lemma_material_bounds(squares: Squares, player: Player, upto: int)
    requires
        0 <= upto,
    ensures
        0 <= material(squares, player, upto) <= 100 * upto,
    decreases upto,
{
    if upto > 0 {
        lemma_material_bounds(squares, player, upto - 1);
    }
}

/// The agent that counts material: what the engine's pieces are worth less
/// what the user's pieces are worth.
#[derive(Copy, Clone)]
pub struct DefaultAgent;

impl ScoringAgent for DefaultAgent {
    open spec fn value_of(&self, squares: Squares) -> i32 {
        (material(squares, Player::Opponent, 64) - material(squares, Player::User, 64)) as i32
    }

    fn score(&self, board: &Board) -> (value: i32) {
        let mut ai_pieces: i32 = 0;
        let mut user_pieces: i32 = 0;
        let mut index: u32 = 0;
        while index < 64
            invariant
                index <= 64,
                ai_pieces == material(board@, Player::Opponent, index as int),
                user_pieces == material(board@, Player::User, index as int),
            decreases 64 - index,
        {
            proof {
                lemma_material_bounds(board@, Player::Opponent, index as int);
                lemma_material_bounds(board@, Player::User, index as int);
                BoardCoordinates::lemma_of_index(index as int);
            }
            let field = board.at(&BoardCoordinates::from_index(index).unwrap());
            if let Some(piece) = field.piece {
                if piece.player == Player::User {
                    user_pieces += piece.piece_type.value();
                } else {
                    ai_pieces += piece.piece_type.value();
                }
            }
            index += 1;
        }
        proof {
            lemma_material_bounds(board@, Player::Opponent, 64);
            lemma_material_bounds(board@, Player::User, 64);
        }
        ai_pieces - user_pieces
    }
}

/// However the pieces stand, the agent that counts material values the
/// position well inside the values that the search can hold.
pub proof fn lemma_material_value_bounds(squares: Squares)
    ensures
        -6400 <= DefaultAgent.value_of(squares) <= 6400,
{
    lemma_material_bounds(squares, Player::Opponent, 64);
    lemma_material_bounds(squares, Player::User, 64);
}

/// The player that moves: the opponent where the engine is to move, the user
/// otherwise.
pub open spec fn side(player_is_ai: bool) -> Player {
    if player_is_ai {
        Player::Opponent
    } else {
        Player::User
    }
}

/// What each of a sequence of boards holds.
pub open spec fn positions(boards: Seq<Board>) -> Seq<Squares> {
    boards.map_values(|board: Board| board@)
}

/// The squares after each of the moves that the piece on `field` can make,
/// in the order of the moves.
pub open spec fn outcomes(squares: Squares, field: Field) -> Seq<Squares> {
    Seq::new(field_movements(squares, field).len(), |k: int| outcome(squares, field, k))
}

/// The squares after each move that `player` can make, whether or not its
/// king is in check afterwards: piece by piece in the order of the board,
/// and for each piece in the order of its moves.
pub open spec fn reachable(squares: Squares, player: Player) -> Seq<Squares> {
    fields_of(squares, player).flat_map(|field: Field| outcomes(squares, field))
}

/// The legal successors of `squares` for `player`: what its moves lead to,
/// without those that leave its own king in check.
pub open spec fn successors(squares: Squares, player: Player) -> Seq<Squares> {
    reachable(squares, player).filter(|next: Squares| !king_in_check(next, player))
}

/// What is in one of the sequences made of the items of `items` is in all
/// of them put together.
proof fn lemma_flat_map_holds<A, B>(items: Seq<A>, spread: spec_fn(A) -> Seq<B>, j: int, x: B)
    requires
        0 <= j < items.len(),
        spread(items[j]).contains(x),
    ensures
        items.flat_map(spread).contains(x),
    decreases items.len(),
{
    let front = items.drop_last();
    assert(items =~= front.push(items.last()));
    front.lemma_flat_map_push(spread, items.last());
    let part = spread(items[j]);
    let rest = front.flat_map(spread);
    let k = choose|k: int| 0 <= k < part.len() && part[k] == x;
    if j == items.len() - 1 {
        assert((rest + part)[rest.len() + k] == x);
    } else {
        lemma_flat_map_holds(front, spread, j, x);
        let i = choose|i: int| 0 <= i < rest.len() && rest[i] == x;
        assert((rest + spread(items.last()))[i] == x);
    }
}

/// What is in the sequences made of the items of `items`, all put
/// together, is in the one made of some item.
proof fn lemma_flat_map_origin<A, B>(items: Seq<A>, spread: spec_fn(A) -> Seq<B>, x: B) -> (j: int)
    requires
        items.flat_map(spread).contains(x),
    ensures
        0 <= j < items.len(),
        spread(items[j]).contains(x),
    decreases items.len(),
{
    if items.len() == 0 {
        0
    } else {
        let front = items.drop_last();
        assert(items =~= front.push(items.last()));
        front.lemma_flat_map_push(spread, items.last());
        let rest = front.flat_map(spread);
        let part = spread(items.last());
        let whole = rest + part;
        let i = choose|i: int| 0 <= i < whole.len() && whole[i] == x;
        if i < rest.len() {
            assert(rest[i] == x);
            lemma_flat_map_origin(front, spread, x)
        } else {
            assert(part[i - rest.len()] == x);
            items.len() - 1
        }
    }
}

/// A move of a piece of `player` that does not leave its king in check
/// leads to a legal successor.
pub proof fn lemma_move_gives_successor(squares: Squares, player: Player, from: int, k: int)
    requires
        0 <= from < 64,
        owner_at(squares, from) == Some(player),
        0 <= k < field_movements(squares, field_at(squares, from)).len(),
        !king_in_check(outcome(squares, field_at(squares, from), k), player),
    ensures
        successors(squares, player).contains(outcome(squares, field_at(squares, from), k)),
{
    let field = field_at(squares, from);
    let fields = fields_of(squares, player);
    let spread = |field: Field| outcomes(squares, field);
    let legal = |next: Squares| !king_in_check(next, player);
    let next = outcome(squares, field, k);
    lemma_fields_of(squares, player);
    let j = choose|j: int| 0 <= j < fields.len() && fields[j] == field;
    assert(outcomes(squares, field)[k] == next);
    lemma_flat_map_holds(fields, spread, j, next);
    let all = reachable(squares, player);
    let i = choose|i: int| 0 <= i < all.len() && all[i] == next;
    all.lemma_filter_contains(legal, i);
}

/// Every legal successor comes from a move of a piece of `player` that does
/// not leave its king in check.
pub proof fn lemma_successor_is_move(squares: Squares, player: Player, next: Squares) -> (found: (
    int,
    int,
))
    requires
        successors(squares, player).contains(next),
    ensures
        0 <= found.0 < 64,
        owner_at(squares, found.0) == Some(player),
        0 <= found.1 < field_movements(squares, field_at(squares, found.0)).len(),
        next == outcome(squares, field_at(squares, found.0), found.1),
        !king_in_check(next, player),
{
    let fields = fields_of(squares, player);
    let spread = |field: Field| outcomes(squares, field);
    let legal = |next: Squares| !king_in_check(next, player);
    let all = reachable(squares, player);
    lemma_fields_of(squares, player);
    all.lemma_filter_contains_rev(legal, next);
    let i = choose|i: int| 0 <= i < all.filter(legal).len() && all.filter(legal)[i] == next;
    all.lemma_filter_pred(legal, i);
    let j = lemma_flat_map_origin(fields, spread, next);
    let field = fields[j];
    let part = outcomes(squares, field);
    let k = choose|k: int| 0 <= k < part.len() && part[k] == next;
    (field.coordinates.index(), k)
}

/// Where every move of `player` leaves its king in check, the moves of its
/// first `n` pieces lead to no legal successor.
proof fn lemma_checkmate_prefix(squares: Squares, player: Player, n: int)
    requires
        checkmate(squares, player),
        0 <= n <= fields_of(squares, player).len(),
    ensures
        fields_of(squares, player).take(n).flat_map(|field: Field| outcomes(squares, field)).filter(
            |next: Squares| !king_in_check(next, player),
        ).len() == 0,
    decreases n,
{
    let fields = fields_of(squares, player);
    let spread = |field: Field| outcomes(squares, field);
    let legal = |next: Squares| !king_in_check(next, player);
    if n == 0 {
        assert(Seq::<Squares>::empty().filter(legal).len() == 0) by {
            reveal(Seq::filter);
        }
    } else {
        lemma_checkmate_prefix(squares, player, n - 1);
        lemma_fields_of(squares, player);
        let field = fields[n - 1];
        assert(stuck(squares, field_at(squares, field.coordinates.index()), player));
        assert(outcomes(squares, field).all(|next: Squares| !legal(next)));
        outcomes(squares, field).lemma_all_neg_filter_empty(legal);
        fields.lemma_flat_map_take_append(spread, n - 1);
        Seq::filter_distributes_over_add(
            fields.take(n - 1).flat_map(spread),
            spread(field),
            legal,
        );
    }
}

/// A player that is checkmated has no legal successor.
pub proof fn lemma_checkmate_leaves_nothing(squares: Squares, player: Player)
    requires
        checkmate(squares, player),
    ensures
        successors(squares, player).len() == 0,
{
    let fields = fields_of(squares, player);
    lemma_checkmate_prefix(squares, player, fields.len() as int);
    assert(fields.take(fields.len() as int) =~= fields);
}

/// The boards that `player_is_ai` tells whose turn it is can move to from
/// `board`: its legal successors.
pub fn generate_options_for_current_board(board: &Board, player_is_ai: bool) -> (boards: Vec<
    Board,
>)
    ensures
        positions(boards@) == successors(board@, side(player_is_ai)),
{
    let player = if player_is_ai {
        Player::Opponent
    } else {
        Player::User
    };
    let mut boards: Vec<Board> = Vec::new();
    let in_check = check_if_king_in_check(board, &player);

    if in_check && check_checkmate(board.clone(), &player) {
        proof {
            lemma_checkmate_leaves_nothing(board@, player);
        }
        return boards;
    }
    let possible_fields = board.get_all_fields_by_player(&player);
    let ghost spread = |field: Field| outcomes(board@, field);
    let ghost legal = |next: Squares| !king_in_check(next, player);
    proof {
        lemma_fields_of(board@, player);
        assert(Seq::<Squares>::empty().filter(legal) =~= Seq::<Squares>::empty()) by {
            reveal(Seq::filter);
        }
    }
    let mut j: usize = 0;
    while j < possible_fields.len()
        invariant
            j <= possible_fields.len(),
            possible_fields@ == fields_of(board@, player),
            spread == |field: Field| outcomes(board@, field),
            legal == |next: Squares| !king_in_check(next, player),
            forall|n: int|
                0 <= n < possible_fields.len() ==> (#[trigger] possible_fields@[n]).owner()
                    == Some(player),
            positions(boards@) == possible_fields@.take(j as int).flat_map(spread).filter(legal),
        decreases possible_fields.len() - j,
    {
        let selected_field = possible_fields[j];
        let possible_destinations = get_movements(&selected_field, board);
        let ghost before = positions(boards@);
        let ghost all = outcomes(board@, selected_field);
        proof {
            assert(all.take(0).filter(legal) =~= Seq::<Squares>::empty()) by {
                reveal(Seq::filter);
            }
        }
        let mut k: usize = 0;
        while k < possible_destinations.len()
            invariant
                k <= possible_destinations.len(),
                selected_field.piece is Some,
                possible_destinations@ == field_movements(board@, selected_field),
                all == outcomes(board@, selected_field),
                legal == |next: Squares| !king_in_check(next, player),
                selected_field.owner() == Some(player),
                positions(boards@) == before + all.take(k as int).filter(legal),
            decreases possible_destinations.len() - k,
        {
            let destination_field = board.at(&possible_destinations[k]);
            let new_board = move_piece(board.clone(), &selected_field, &destination_field);
            let ghost held = boards@;
            let fits = !check_if_king_in_check(&new_board, &player);
            proof {
                all.lemma_take_succ_push(k as int);
                all.take(k as int).lemma_filter_push(all[k as int], legal);
            }
            if fits {
                boards.push(new_board);
                proof {
                    held.lemma_push_map_commute(|board: Board| board@, new_board);
                }
            }
            k += 1;
        }
        proof {
            assert(all.take(all.len() as int) =~= all);
            possible_fields@.lemma_flat_map_take_append(spread, j as int);
            Seq::filter_distributes_over_add(
                possible_fields@.take(j as int).flat_map(spread),
                spread(selected_field),
                legal,
            );
        }
        j += 1;
    }
    assert(possible_fields@.take(possible_fields.len() as int) =~= possible_fields@);
    boards
}

} // verus!
