//! Minimax with alpha-beta pruning, to a fixed depth.
//!
//! The engine is the maximizing side and the user the minimizing side. A
//! position in which the side to move has no legal move counts as lost for
//! that side, whether or not its king is in check.

use vstd::prelude::*;
use rayon::iter::IntoParallelIterator;
use rayon::iter::ParallelIterator;
use crate::ai_engine::generate_options_for_current_board;
use crate::ai_engine::positions;
use crate::ai_engine::side;
use crate::ai_engine::successors;
use crate::ai_engine::lemma_material_value_bounds;
use crate::ai_engine::DefaultAgent;
use crate::ai_engine::ScoringAgent;
use crate::ai_engine::AI;
use crate::board::layout::Board;
use crate::board::layout::Squares;
use crate::engine::Player;

verus! {

/// The number of plies that the search still descends below a position that
/// it meets at `current_depth`.
pub open spec fn plies_left(current_depth: u32, depth_level: u32) -> nat {
    if current_depth >= depth_level {
        0
    } else {
        (depth_level - current_depth) as nat
    }
}

/// The value of a position in which the side to move has no legal move: one
/// above the lowest value where the engine is to move, one below the highest
/// where the user is.
pub open spec fn no_move_value(player_is_ai: bool) -> int {
    if player_is_ai {
        i32::MIN + 1
    } else {
        i32::MAX - 1
    }
}

/// The value from which the side to move starts to look for something
/// better: the lowest for the engine, the highest for the user.
pub open spec fn worst_value(player_is_ai: bool) -> int {
    if player_is_ai {
        i32::MIN as int
    } else {
        i32::MAX as int
    }
}

/// The value of `squares` by exhaustive minimax, `plies` plies deep, with
/// the engine to move where `player_is_ai` holds and the user otherwise.
pub open spec fn minimax<T: ScoringAgent>(
    agent: T,
    squares: Squares,
    player_is_ai: bool,
    plies: nat,
) -> int
    decreases plies, 0nat,
{
    if plies == 0 {
        agent.value_of(squares) as int
    } else {
        let options = successors(squares, side(player_is_ai));
        if options.len() == 0 {
            no_move_value(player_is_ai)
        } else {
            best_of(agent, options, player_is_ai, (plies - 1) as nat, options.len())
        }
    }
}

/// The best that the side to move can get from the first `n` of `options`,
/// each valued by minimax `plies` plies deep with the other side to move:
/// the greatest of the values for the engine, the least for the user.
pub open spec fn best_of<T: ScoringAgent>(
    agent: T,
    options: Seq<Squares>,
    player_is_ai: bool,
    plies: nat,
    n: nat,
) -> int
    decreases plies, n + 1,
{
    if n == 0 {
        worst_value(player_is_ai)
    } else {
        let rest = best_of(agent, options, player_is_ai, plies, (n - 1) as nat);
        let value = minimax(agent, options[n - 1], !player_is_ai, plies);
        if player_is_ai {
            if value > rest {
                value
            } else {
                rest
            }
        } else {
            if value < rest {
                value
            } else {
                rest
            }
        }
    }
}

/// The value of `squares` along the first legal move at every ply, `plies`
/// plies deep: what the search finds when its window is empty and the first
/// move at every ply cuts off all the others.
pub open spec fn first_line<T: ScoringAgent>(
    agent: T,
    squares: Squares,
    player_is_ai: bool,
    plies: nat,
) -> int
    decreases plies,
{
    if plies == 0 {
        agent.value_of(squares) as int
    } else {
        let options = successors(squares, side(player_is_ai));
        if options.len() == 0 {
            no_move_value(player_is_ai)
        } else {
            first_line(agent, options[0], !player_is_ai, (plies - 1) as nat)
        }
    }
}

/// How a value found with the window from `alfa` to `beta` stands to the
/// exact one: inside the window it is exact; at or below `alfa` the exact
/// value is no greater; at or above `beta` the exact value is no less.
pub open spec fn within_window(value: int, exact: int, alfa: int, beta: int) -> bool {
    &&& value <= alfa ==> exact <= value
    &&& alfa < value < beta ==> exact == value
    &&& beta <= value ==> value <= exact
}

/// Minimax values are values that the search can hold.
pub proof fn lemma_minimax_range<T: ScoringAgent>(
    agent: T,
    squares: Squares,
    player_is_ai: bool,
    plies: nat,
)
    ensures
        i32::MIN <= minimax(agent, squares, player_is_ai, plies) <= i32::MAX,
    decreases plies, 0nat,
{
    if plies > 0 {
        let options = successors(squares, side(player_is_ai));
        if options.len() > 0 {
            lemma_best_of_range(agent, options, player_is_ai, (plies - 1) as nat, options.len());
        }
    }
}

/// The best of some options is a value that the search can hold.
pub proof fn lemma_best_of_range<T: ScoringAgent>(
    agent: T,
    options: Seq<Squares>,
    player_is_ai: bool,
    plies: nat,
    n: nat,
)
    ensures
        i32::MIN <= best_of(agent, options, player_is_ai, plies, n) <= i32::MAX,
    decreases plies, n + 1,
{
    if n > 0 {
        lemma_best_of_range(agent, options, player_is_ai, plies, (n - 1) as nat);
        lemma_minimax_range(agent, options[n - 1], !player_is_ai, plies);
    }
}

/// A position in which the side to move has no legal move is worth less to
/// the engine, where the engine is to move, and more, where the user is,
/// than any position is worth by the count of its material.
pub proof fn lemma_no_move_outweighs_material(
    terminal: Squares,
    player_is_ai: bool,
    plies: nat,
    other: Squares,
)
    requires
        plies > 0,
        successors(terminal, side(player_is_ai)).len() == 0,
    ensures
        minimax(DefaultAgent, terminal, player_is_ai, plies) == no_move_value(player_is_ai),
        player_is_ai ==> minimax(DefaultAgent, terminal, player_is_ai, plies)
            < DefaultAgent.value_of(other),
        !player_is_ai ==> minimax(DefaultAgent, terminal, player_is_ai, plies)
            > DefaultAgent.value_of(other),
{
    lemma_material_value_bounds(other);
}

/// The best of the first `n` options is the minimax value of one of them,
/// and none of them is worth more to the engine, where the engine chooses,
/// or less, where the user does.
pub proof fn lemma_best_of_is_extreme<T: ScoringAgent>(
    agent: T,
    options: Seq<Squares>,
    player_is_ai: bool,
    plies: nat,
    n: nat,
)
    requires
        0 < n <= options.len(),
    ensures
        exists|i: int|
            0 <= i < n && best_of(agent, options, player_is_ai, plies, n) == minimax(
                agent,
                #[trigger] options[i],
                !player_is_ai,
                plies,
            ),
        forall|i: int|
            0 <= i < n && player_is_ai ==> minimax(
                agent,
                #[trigger] options[i],
                !player_is_ai,
                plies,
            ) <= best_of(agent, options, player_is_ai, plies, n),
        forall|i: int|
            0 <= i < n && !player_is_ai ==> minimax(
                agent,
                #[trigger] options[i],
                !player_is_ai,
                plies,
            ) >= best_of(agent, options, player_is_ai, plies, n),
    decreases n,
{
    let last = minimax(agent, options[n - 1], !player_is_ai, plies);
    let best = best_of(agent, options, player_is_ai, plies, n);
    let before = best_of(agent, options, player_is_ai, plies, (n - 1) as nat);
    lemma_minimax_range(agent, options[n - 1], !player_is_ai, plies);
    assert(best == last || best == before);
    if n > 1 {
        lemma_best_of_is_extreme(agent, options, player_is_ai, plies, (n - 1) as nat);
        if best != last {
            let i = choose|i: int|
                0 <= i < n - 1 && before == minimax(
                    agent,
                    #[trigger] options[i],
                    !player_is_ai,
                    plies,
                );
            assert(0 <= i < n && best == minimax(agent, options[i], !player_is_ai, plies));
        } else {
            assert(0 <= n - 1 < n && best == minimax(agent, options[n - 1], !player_is_ai, plies));
        }
    } else {
        assert(best == last);
        assert(0 <= 0 < n && best == minimax(agent, options[0], !player_is_ai, plies));
    }
}

/// With more options to choose from the engine gets no less and the user
/// gives no more.
pub proof fn lemma_best_of_grows<T: ScoringAgent>(
    agent: T,
    options: Seq<Squares>,
    player_is_ai: bool,
    plies: nat,
    few: nat,
    many: nat,
)
    requires
        few <= many,
    ensures
        player_is_ai ==> best_of(agent, options, player_is_ai, plies, few) <= best_of(
            agent,
            options,
            player_is_ai,
            plies,
            many,
        ),
        !player_is_ai ==> best_of(agent, options, player_is_ai, plies, few) >= best_of(
            agent,
            options,
            player_is_ai,
            plies,
            many,
        ),
    decreases many,
{
    if few < many {
        lemma_best_of_grows(agent, options, player_is_ai, plies, few, (many - 1) as nat);
    }
}

/// The value of `board` with `current_player_is_ai` telling whose move it
/// is, found by minimax with alpha-beta pruning.
///
/// `current_depth` counts the plies above the board and `depth_level` is the
/// depth from which on positions are valued by `scoring_agent` as they
/// stand and not looked into any further. With `alfa` below `beta`, the value agrees with the
/// exhaustive minimax value as far as the window from `alfa` to `beta`
/// lets it: see `within_window`. With the widest window it is the
/// exhaustive minimax value itself. With a window that is empty from the
/// start, the first move at every ply cuts off the others: see
/// `first_line`.
pub fn calculate_deeper_layers<T: ScoringAgent>(
    board: Board,
    current_player_is_ai: bool,
    current_depth: u32,
    scoring_agent: T,
    depth_level: u32,
    alfa: i32,
    beta: i32,
) -> (value: i32)
    ensures
        alfa < beta ==> within_window(
            value as int,
            minimax(
                scoring_agent,
                board@,
                current_player_is_ai,
                plies_left(current_depth, depth_level),
            ),
            alfa as int,
            beta as int,
        ),
        alfa == i32::MIN && beta == i32::MAX ==> value == minimax(
            scoring_agent,
            board@,
            current_player_is_ai,
            plies_left(current_depth, depth_level),
        ),
        alfa >= beta ==> value == first_line(
            scoring_agent,
            board@,
            current_player_is_ai,
            plies_left(current_depth, depth_level),
        ),
    decreases plies_left(current_depth, depth_level),
{
    proof {
        lemma_minimax_range(
            scoring_agent,
            board@,
            current_player_is_ai,
            plies_left(current_depth, depth_level),
        );
    }
    if current_depth >= depth_level {
        return scoring_agent.score(&board);
    }
    let ghost plies = plies_left((current_depth + 1) as u32, depth_level);
    let boards = generate_options_for_current_board(&board, current_player_is_ai);
    let ghost options = positions(boards@);
    let mut index: usize = 0;
    if current_player_is_ai {
        let mut best_value = i32::MIN;
        if boards.is_empty() {
            return best_value + 1;
        }
        let mut alfa_now = alfa;
        while index < boards.len()
            invariant_except_break
                index <= boards.len(),
                alfa < beta ==> alfa_now < beta,
                alfa >= beta ==> index == 0 && best_value == i32::MIN,
                alfa < beta ==> within_window(
                    best_value as int,
                    best_of(scoring_agent, options, true, plies, index as nat),
                    alfa as int,
                    beta as int,
                ),
            invariant
                options == positions(boards@),
                plies == plies_left((current_depth + 1) as u32, depth_level),
                current_depth < depth_level,
                alfa_now == if best_value > alfa {
                    best_value
                } else {
                    alfa
                },
                boards.len() > 0,
            ensures
                alfa < beta ==> within_window(
                    best_value as int,
                    best_of(scoring_agent, options, true, plies, options.len()),
                    alfa as int,
                    beta as int,
                ),
                alfa >= beta ==> best_value == first_line(
                    scoring_agent,
                    options[0],
                    false,
                    plies,
                ),
            decreases boards.len() - index,
        {
            let value = calculate_deeper_layers(
                boards[index].clone(),
                false,
                current_depth + 1,
                scoring_agent,
                depth_level,
                alfa_now,
                beta,
            );
            if value > best_value {
                best_value = value;
            }
            if best_value > alfa_now {
                alfa_now = best_value;
            }
            index += 1;
            if beta <= alfa_now {
                proof {
                    lemma_best_of_grows(
                        scoring_agent,
                        options,
                        true,
                        plies,
                        index as nat,
                        options.len(),
                    );
                }
                break ;
            }
        }
        best_value
    } else {
        let mut best_value = i32::MAX;
        if boards.is_empty() {
            return best_value - 1;
        }
        let mut beta_now = beta;
        while index < boards.len()
            invariant_except_break
                index <= boards.len(),
                alfa < beta ==> alfa < beta_now,
                alfa >= beta ==> index == 0 && best_value == i32::MAX,
                alfa < beta ==> within_window(
                    best_value as int,
                    best_of(scoring_agent, options, false, plies, index as nat),
                    alfa as int,
                    beta as int,
                ),
            invariant
                options == positions(boards@),
                plies == plies_left((current_depth + 1) as u32, depth_level),
                current_depth < depth_level,
                beta_now == if best_value < beta {
                    best_value
                } else {
                    beta
                },
                boards.len() > 0,
            ensures
                alfa < beta ==> within_window(
                    best_value as int,
                    best_of(scoring_agent, options, false, plies, options.len()),
                    alfa as int,
                    beta as int,
                ),
                alfa >= beta ==> best_value == first_line(
                    scoring_agent,
                    options[0],
                    true,
                    plies,
                ),
            decreases boards.len() - index,
        {
            let value = calculate_deeper_layers(
                boards[index].clone(),
                true,
                current_depth + 1,
                scoring_agent,
                depth_level,
                alfa,
                beta_now,
            );
            if value < best_value {
                best_value = value;
            }
            if best_value < beta_now {
                beta_now = best_value;
            }
            index += 1;
            if beta_now <= alfa {
                proof {
                    lemma_best_of_grows(
                        scoring_agent,
                        options,
                        false,
                        plies,
                        index as nat,
                        options.len(),
                    );
                }
                break ;
            }
        }
        best_value
    }
}

/// What a move of the engine that leads to `squares` is worth: the minimax
/// value of `squares` with the user to move, where each reply of the user
/// is met at depth 3.
pub open spec fn candidate_value<T: ScoringAgent>(agent: T, squares: Squares, depth_level: u32) -> int {
    minimax(agent, squares, false, plies_left(3, depth_level) + 1)
}

/// The place of the first of the greatest among the first `n` of `values`.
pub open spec fn first_greatest(values: Seq<int>, n: nat) -> int
    decreases n,
{
    if n <= 1 {
        0
    } else {
        let before = first_greatest(values, (n - 1) as nat);
        if values[n - 1] > values[before] {
            n - 1
        } else {
            before
        }
    }
}

/// What `first_greatest` names: a place among the first `n` whose value
/// none of them exceeds and none before it equals.
pub proof fn lemma_first_greatest(values: Seq<int>, n: nat)
    requires
        0 < n <= values.len(),
    ensures
        0 <= first_greatest(values, n) < n,
        forall|i: int| 0 <= i < n ==> #[trigger] values[i] <= values[first_greatest(values, n)],
        forall|i: int|
            0 <= i < first_greatest(values, n) ==> #[trigger] values[i] < values[first_greatest(
                values,
                n,
            )],
    decreases n,
{
    if n > 1 {
        lemma_first_greatest(values, (n - 1) as nat);
    }
}

/// The position to which the engine moves from `squares`: of its legal
/// successors the one worth most, and of several worth the same the first.
/// Where the engine has no legal move, `squares` itself.
pub open spec fn best_reply<T: ScoringAgent>(agent: T, squares: Squares, depth_level: u32) -> Squares {
    let options = successors(squares, Player::Opponent);
    if options.len() == 0 {
        squares
    } else {
        options[first_greatest(
            options.map_values(|option: Squares| candidate_value(agent, option, depth_level)),
            options.len(),
        )]
    }
}

/// The engine moves to a legal successor of the position it is in, and
/// stays where it is only if it has none.
pub proof fn lemma_best_reply_is_legal<T: ScoringAgent>(agent: T, squares: Squares, depth_level: u32)
    ensures
        successors(squares, Player::Opponent).len() > 0 ==> successors(
            squares,
            Player::Opponent,
        ).contains(best_reply(agent, squares, depth_level)),
        successors(squares, Player::Opponent).len() == 0 ==> best_reply(
            agent,
            squares,
            depth_level,
        ) == squares,
{
    let options = successors(squares, Player::Opponent);
    if options.len() > 0 {
        let values = options.map_values(
            |option: Squares| candidate_value(agent, option, depth_level),
        );
        lemma_first_greatest(values, options.len());
        assert(options[first_greatest(values, options.len())] == best_reply(
            agent,
            squares,
            depth_level,
        ));
    }
}

/// Values one move of the engine, the one that leads to `board`, and hands
/// the board back with its value.
pub fn evaluate_candidate<T: ScoringAgent>(board: Board, scoring_agent: T, depth_level: u32) -> (valued:
    (i32, Board))
    ensures
        valued.0 == candidate_value(scoring_agent, board@, depth_level),
        valued.1@ == board@,
{
    let alfa = i32::MIN;
    let mut beta = i32::MAX;
    let mut best_value = i32::MAX;
    let boards = generate_options_for_current_board(&board, false);
    if boards.is_empty() {
        return (i32::MAX - 1, board);
    }
    let ghost plies = plies_left(3, depth_level);
    let ghost options = positions(boards@);
    let mut index: usize = 0;
    while index < boards.len()
        invariant_except_break
            index <= boards.len(),
            alfa < beta,
            within_window(
                best_value as int,
                best_of(scoring_agent, options, false, plies, index as nat),
                alfa as int,
                i32::MAX as int,
            ),
        invariant
            alfa == i32::MIN,
            options == positions(boards@),
            plies == plies_left(3, depth_level),
            beta == best_value,
        ensures
            within_window(
                best_value as int,
                best_of(scoring_agent, options, false, plies, options.len()),
                alfa as int,
                i32::MAX as int,
            ),
        decreases boards.len() - index,
    {
        let value = calculate_deeper_layers(
            boards[index].clone(),
            true,
            3,
            scoring_agent,
            depth_level,
            alfa,
            beta,
        );
        if value < best_value {
            best_value = value;
        }
        if best_value < beta {
            beta = best_value;
        }
        index += 1;
        if beta <= alfa {
            proof {
                lemma_best_of_grows(
                    scoring_agent,
                    options,
                    false,
                    plies,
                    index as nat,
                    options.len(),
                );
            }
            break ;
        }
    }
    proof {
        lemma_best_of_range(scoring_agent, options, false, plies, options.len());
    }
    (best_value, board)
}

/// Values each of `boards` as a move of the engine, all of them at the same
/// time, and hands them back in the same order, each with its value.
///
/// This is the trusted call into rayon: `into_par_iter` on a vector, `map`
/// and `collect` into a vector. The contract takes from rayon that the
/// function given to `map` is applied once to each item of the vector and
/// that `collect` puts the results in the order of the items; what the
/// function returns is what `evaluate_candidate` ensures.
#[verifier::external_body]
fn evaluate_in_parallel<T: ScoringAgent>(boards: Vec<Board>, scoring_agent: T, depth_level: u32) -> (valued:
    Vec<(i32, Board)>)
    ensures
        valued.len() == boards.len(),
        forall|i: int|
            0 <= i < boards.len() ==> (#[trigger] valued[i]).0 == candidate_value(
                scoring_agent,
                boards[i]@,
                depth_level,
            ) && valued[i].1@ == boards[i]@,
{
    boards.into_par_iter().map(
        |board| evaluate_candidate(board, scoring_agent, depth_level),
    ).collect()
}

/// Picks from boards with their values the first of those worth most.
pub fn select_best(valued: Vec<(i32, Board)>) -> (best: Board)
    requires
        valued.len() > 0,
    ensures
        best@ == valued[first_greatest(
            valued@.map_values(|pair: (i32, Board)| pair.0 as int),
            valued.len() as nat,
        )].1@,
{
    let ghost values = valued@.map_values(|pair: (i32, Board)| pair.0 as int);
    let mut valued = valued;
    let mut best: usize = 0;
    let mut index: usize = 1;
    while index < valued.len()
        invariant
            1 <= index <= valued.len(),
            values == valued@.map_values(|pair: (i32, Board)| pair.0 as int),
            best == first_greatest(values, index as nat),
            best < index,
        decreases valued.len() - index,
    {
        if valued[index].0 > valued[best].0 {
            best = index;
        }
        index += 1;
    }
    let (_, board) = valued.swap_remove(best);
    board
}

/// The board to which the engine moves from `board`: see `best_reply`.
///
/// Each legal move of the engine is valued by a search of its own, with a
/// window of its own, and the searches run in parallel. Of the moves worth
/// most the first is taken, whatever the order in which the searches end.
/// Where the engine has no legal move, `board` comes back as it is.
pub fn calculate_first_layers<T: ScoringAgent>(board: Board, scoring_agent: T, depth_level: u32) -> (reply:
    Board)
    ensures
        reply@ == best_reply(scoring_agent, board@, depth_level),
{
    let boards = generate_options_for_current_board(&board, true);
    if boards.is_empty() {
        return board;
    }
    let ghost options = positions(boards@);
    let valued = evaluate_in_parallel(boards, scoring_agent, depth_level);
    proof {
        assert(valued@.map_values(|pair: (i32, Board)| pair.0 as int) =~= options.map_values(
            |option: Squares| candidate_value(scoring_agent, option, depth_level),
        ));
        lemma_first_greatest(
            valued@.map_values(|pair: (i32, Board)| pair.0 as int),
            valued.len() as nat,
        );
    }
    select_best(valued)
}

/// The engine's state: the position of the game, and a cache that holds,
/// for positions to which the user may move next, the engine's reply.
pub struct MinMaxAI<T: ScoringAgent + 'static> {
    pub(crate) state_trees: Vec<(Board, Board)>,
    pub(crate) scoring_agent: T,
    pub(crate) current_state: Board,
    pub(crate) depth_level: u32,
}

/// The reply that `cache` holds for `observed`: that of the first entry
/// made for it, if there is one.
pub open spec fn cached_reply(cache: Seq<(Squares, Squares)>, observed: Squares) -> Option<Squares>
    decreases cache.len(),
{
    if cache.len() == 0 {
        None
    } else if cache.first().0 == observed {
        Some(cache.first().1)
    } else {
        cached_reply(cache.drop_first(), observed)
    }
}

/// The cache for the position `current` with the user to move: for each
/// legal move of the user the engine's best reply to it.
pub open spec fn grown<T: ScoringAgent>(agent: T, current: Squares, depth_level: u32) -> Seq<
    (Squares, Squares),
> {
    successors(current, Player::User).map_values(
        |candidate: Squares| (candidate, best_reply(agent, candidate, depth_level)),
    )
}

/// In a cache with one entry for each of `candidates`, made of the
/// candidate and `reply` of it, the reply held for a position is `reply` of
/// that position if it is one of the candidates, and none otherwise.
proof fn lemma_cached_reply_of_each(
    candidates: Seq<Squares>,
    reply: spec_fn(Squares) -> Squares,
    observed: Squares,
)
    ensures
        cached_reply(
            candidates.map_values(|candidate: Squares| (candidate, reply(candidate))),
            observed,
        ) == if candidates.contains(observed) {
            Some(reply(observed))
        } else {
            None
        },
    decreases candidates.len(),
{
    let pair = |candidate: Squares| (candidate, reply(candidate));
    if candidates.len() > 0 {
        if candidates.first() == observed {
            assert(candidates[0] == observed);
        } else {
            lemma_cached_reply_of_each(candidates.drop_first(), reply, observed);
            assert(candidates.map_values(pair).drop_first() =~= candidates.drop_first().map_values(
                pair,
            ));
            if candidates.contains(observed) {
                let i = choose|i: int| 0 <= i < candidates.len() && candidates[i] == observed;
                assert(candidates.drop_first()[i - 1] == observed);
            }
            if candidates.drop_first().contains(observed) {
                let i = choose|i: int|
                    0 <= i < candidates.drop_first().len() && candidates.drop_first()[i]
                        == observed;
                assert(candidates[i + 1] == observed);
            }
        }
    }
}

/// What a cache grown for the position `current` holds: for each position
/// that a legal move of the user leads to, and for no other, the engine's
/// best reply to it.
pub proof fn lemma_grown_cache<T: ScoringAgent>(
    agent: T,
    current: Squares,
    depth_level: u32,
    observed: Squares,
)
    ensures
        cached_reply(grown(agent, current, depth_level), observed) == if successors(
            current,
            Player::User,
        ).contains(observed) {
            Some(best_reply(agent, observed, depth_level))
        } else {
            None
        },
{
    let reply = |candidate: Squares| best_reply(agent, candidate, depth_level);
    lemma_cached_reply_of_each(successors(current, Player::User), reply, observed);
    assert(grown(agent, current, depth_level) =~= successors(current, Player::User).map_values(
        |candidate: Squares| (candidate, reply(candidate)),
    ));
}

/// What `grow_forests` leaves in the cache of an engine at the position
/// `current`: the cache grown for the user's moves from there, or the one
/// entry for the engine's own first move.
pub open spec fn filled<T: ScoringAgent>(
    agent: T,
    current: Squares,
    depth_level: u32,
    cache: Seq<(Squares, Squares)>,
) -> bool {
    cache == grown(agent, current, depth_level) || cache == seq![
        (current, best_reply(agent, current, depth_level)),
    ]
}

/// A reply taken from a filled cache is a legal move of the engine from
/// the position it answers, wherever the engine has a legal move from
/// there, and that position itself otherwise. The position answered is
/// one that a legal move of the user leads to from the engine's position,
/// or, for the engine's own first move, the engine's position itself.
pub proof fn lemma_prepared_reply_is_legal<T: ScoringAgent>(
    agent: T,
    current: Squares,
    depth_level: u32,
    cache: Seq<(Squares, Squares)>,
    observed: Squares,
    reply: Squares,
)
    requires
        filled(agent, current, depth_level, cache),
        cached_reply(cache, observed) == Some(reply),
    ensures
        reply == best_reply(agent, observed, depth_level),
        successors(observed, Player::Opponent).len() > 0 ==> successors(
            observed,
            Player::Opponent,
        ).contains(reply),
        successors(observed, Player::Opponent).len() == 0 ==> reply == observed,
        observed == current || successors(current, Player::User).contains(observed),
{
    lemma_best_reply_is_legal(agent, observed, depth_level);
    if cache == grown(agent, current, depth_level) {
        lemma_grown_cache(agent, current, depth_level, observed);
    } else {
        let single = seq![(current, best_reply(agent, current, depth_level))];
        assert(single.first() == (current, best_reply(agent, current, depth_level)));
        assert(cached_reply(single.drop_first(), observed) is None);
        assert(observed == current);
    }
}

impl<T: ScoringAgent> MinMaxAI<T> {
    /// The entries of the cache: a position to which the user may move, and
    /// the engine's reply to it.
    pub closed spec fn cache(&self) -> Seq<(Squares, Squares)> {
        self.state_trees@.map_values(|entry: (Board, Board)| (entry.0@, entry.1@))
    }

    /// The position of the game.
    pub closed spec fn current(&self) -> Squares {
        self.current_state@
    }

    /// The agent that values positions.
    pub closed spec fn agent(&self) -> T {
        self.scoring_agent
    }

    /// The depth to which the engine searches.
    pub closed spec fn depth(&self) -> u32 {
        self.depth_level
    }

    /// An engine at the position `board` that searches `depth_level` deep.
    /// With `first_move` its cache holds the board as an entry of its own;
    /// otherwise the cache is empty.
    pub fn new(scoring_agent: T, board: Board, first_move: bool, depth_level: u32) -> (engine: Self)
        ensures
            engine.current() == board@,
            engine.agent() == scoring_agent,
            engine.depth() == depth_level,
            engine.cache() == if first_move {
                seq![(board@, board@)]
            } else {
                Seq::<(Squares, Squares)>::empty()
            },
    {
        let mut state_trees: Vec<(Board, Board)> = Vec::new();
        if first_move {
            state_trees.push((board.clone(), board.clone()));
        }
        let engine = MinMaxAI { current_state: board, state_trees, scoring_agent, depth_level };
        engine
    }

    /// The board on which the engine takes the game to be.
    pub fn current_state(&self) -> (board: &Board)
        ensures
            board@ == self.current(),
    {
        &self.current_state
    }

    /// The number of entries in the cache.
    pub fn cached(&self) -> (entries: usize)
        ensures
            entries == self.cache().len(),
    {
        self.state_trees.len()
    }

    /// Fills the cache.
    ///
    /// An empty cache gets an entry for each legal move of the user from
    /// the current position, with the engine's best reply to it. A cache
    /// that holds something marks the engine's own first move: it is
    /// replaced by one entry, made for the current position itself, with
    /// the engine's best move from there.
    pub fn grow_forests(&mut self)
        ensures
            final(self).current() == old(self).current(),
            final(self).agent() == old(self).agent(),
            final(self).depth() == old(self).depth(),
            old(self).cache().len() == 0 ==> final(self).cache() == grown(
                old(self).agent(),
                old(self).current(),
                old(self).depth(),
            ),
            old(self).cache().len() > 0 ==> final(self).cache() == seq![
                (
                    old(self).current(),
                    best_reply(old(self).agent(), old(self).current(), old(self).depth()),
                ),
            ],
            filled(
                final(self).agent(),
                final(self).current(),
                final(self).depth(),
                final(self).cache(),
            ),
    {
        let current_player_is_ai = false;
        if self.state_trees.is_empty() {
            let boards = generate_options_for_current_board(
                &self.current_state,
                current_player_is_ai,
            );
            let ghost options = positions(boards@);
            let ghost pair = |candidate: Squares|
                (candidate, best_reply(self.scoring_agent, candidate, self.depth_level));
            let mut index: usize = 0;
            while index < boards.len()
                invariant
                    index <= boards.len(),
                    options == positions(boards@),
                    self.current_state == old(self).current_state,
                    self.scoring_agent == old(self).scoring_agent,
                    self.depth_level == old(self).depth_level,
                    pair == |candidate: Squares|
                        (candidate, best_reply(self.scoring_agent, candidate, self.depth_level)),
                    self.cache() == options.take(index as int).map_values(pair),
                decreases boards.len() - index,
            {
                let board = boards[index].clone();
                let result_board = calculate_first_layers(
                    board.clone(),
                    self.scoring_agent,
                    self.depth_level,
                );
                let ghost held = self.cache();
                self.state_trees.push((board, result_board));
                proof {
                    assert(options[index as int] == board@);
                    assert(self.cache() =~= held.push(pair(board@)));
                    options.lemma_take_succ_push(index as int);
                    options.take(index as int).lemma_push_map_commute(pair, board@);
                }
                index += 1;
            }
        } else {
            let result_board = calculate_first_layers(
                self.current_state.clone(),
                self.scoring_agent,
                self.depth_level,
            );
            self.state_trees.clear();
            self.state_trees.push((self.current_state.clone(), result_board));
        }
    }
}

impl<T: ScoringAgent> AI for MinMaxAI<T> {
    open spec fn position(&self) -> Squares {
        self.current()
    }

    open spec fn prepared(&self, observed: Squares) -> Option<Squares> {
        cached_reply(self.cache(), observed)
    }

    /// Fills the cache: see `grow_forests`.
    fn standby(&mut self)
        ensures
            final(self).agent() == old(self).agent(),
            final(self).depth() == old(self).depth(),
            old(self).cache().len() == 0 ==> final(self).cache() == grown(
                old(self).agent(),
                old(self).current(),
                old(self).depth(),
            ),
            old(self).cache().len() > 0 ==> final(self).cache() == seq![
                (
                    old(self).current(),
                    best_reply(old(self).agent(), old(self).current(), old(self).depth()),
                ),
            ],
            filled(
                final(self).agent(),
                final(self).current(),
                final(self).depth(),
                final(self).cache(),
            ),
    {
        self.grow_forests();
    }

    /// Tells whether the cache holds an entry made for `board`.
    fn knows(&self, board: &Board) -> (known: bool) {
        let mut index: usize = 0;
        assert(self.cache().skip(0) =~= self.cache());
        while index < self.state_trees.len()
            invariant
                index <= self.state_trees.len(),
                cached_reply(self.cache(), board@) == cached_reply(
                    self.cache().skip(index as int),
                    board@,
                ),
            decreases self.state_trees.len() - index,
        {
            if self.state_trees[index].0 == *board {
                return true;
            }
            assert(self.cache().skip(index as int).drop_first() =~= self.cache().skip(index + 1));
            index += 1;
        }
        false
    }

    /// Looks `board` up in the cache, empties the cache and moves to the
    /// reply found. From a cache as `grow_forests` leaves it, the reply is
    /// the engine's best move from `board`: a legal one wherever the engine
    /// has a legal move.
    fn make_move(&mut self, board: Board) -> (reply: Board)
        ensures
            final(self).cache().len() == 0,
            final(self).agent() == old(self).agent(),
            final(self).depth() == old(self).depth(),
            filled(old(self).agent(), old(self).current(), old(self).depth(), old(self).cache())
                ==> reply@ == best_reply(old(self).agent(), board@, old(self).depth()),
            filled(old(self).agent(), old(self).current(), old(self).depth(), old(self).cache())
                && successors(board@, Player::Opponent).len() > 0 ==> successors(
                board@,
                Player::Opponent,
            ).contains(reply@),
    {
        proof {
            if filled(self.agent(), self.current(), self.depth(), self.cache()) {
                lemma_prepared_reply_is_legal(
                    self.agent(),
                    self.current(),
                    self.depth(),
                    self.cache(),
                    board@,
                    cached_reply(self.cache(), board@)->0,
                );
            }
        }
        let mut index: usize = 0;
        assert(self.cache().skip(0) =~= self.cache());
        while index < self.state_trees.len() && !(self.state_trees[index].0 == board)
            invariant
                index <= self.state_trees.len(),
                self == old(self),
                cached_reply(self.cache(), board@) is Some,
                cached_reply(self.cache(), board@) == cached_reply(
                    self.cache().skip(index as int),
                    board@,
                ),
            decreases self.state_trees.len() - index,
        {
            assert(self.cache().skip(index as int).drop_first() =~= self.cache().skip(index + 1));
            index += 1;
        }
        let correct_path = self.state_trees[index].1.clone();
        self.state_trees.clear();
        self.current_state = correct_path.clone();
        correct_path
    }
}

} // verus!
