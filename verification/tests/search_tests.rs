use chess_engine::ai_engine::simple_min_max::{
    calculate_deeper_layers, calculate_first_layers, evaluate_candidate, select_best,
};
use chess_engine::ai_engine::{generate_options_for_current_board, DefaultAgent, ScoringAgent};
use chess_engine::board::chesspiece::{ChessPiece, ChessPieceType};
use chess_engine::board::layout::{Board, BoardCoordinates};
use chess_engine::common::move_piece;
use chess_engine::engine::Player;

fn at(x: u32, y: u32) -> BoardCoordinates {
    BoardCoordinates::from_coordinates(x, y).unwrap()
}

fn put(board: Board, x: u32, y: u32, piece_type: ChessPieceType, player: Player) -> Board {
    board.add_replace_piece(at(x, y), ChessPiece { piece_type, player })
}

/// Minimax without pruning, written out for comparison.
fn exhaustive(board: &Board, player_is_ai: bool, plies: u32) -> i32 {
    if plies == 0 {
        return DefaultAgent.score(board);
    }
    let options = generate_options_for_current_board(board, player_is_ai);
    if options.is_empty() {
        return if player_is_ai {
            i32::MIN + 1
        } else {
            i32::MAX - 1
        };
    }
    let values = options
        .iter()
        .map(|option| exhaustive(option, !player_is_ai, plies - 1));
    if player_is_ai {
        values.max().unwrap()
    } else {
        values.min().unwrap()
    }
}

fn skirmish() -> Board {
    let mut board = put(Board::default(), 0, 0, ChessPieceType::King, Player::Opponent);
    board = put(board, 0, 7, ChessPieceType::Rook, Player::Opponent);
    board = put(board, 1, 3, ChessPieceType::Pawn, Player::Opponent);
    board = put(board, 7, 0, ChessPieceType::King, Player::User);
    board = put(board, 3, 7, ChessPieceType::Queen, Player::User);
    board = put(board, 6, 2, ChessPieceType::Pawn, Player::User);
    put(board, 4, 4, ChessPieceType::Knight, Player::User)
}

fn endgame() -> Board {
    let mut board = put(Board::default(), 1, 0, ChessPieceType::Pawn, Player::Opponent);
    board = put(board, 2, 4, ChessPieceType::King, Player::Opponent);
    put(board, 7, 4, ChessPieceType::King, Player::User)
}

#[test]
fn default_agent_counts_material() {
    let board = Board::default().fill_standard_pieces();
    assert_eq!(DefaultAgent.score(&board), 0);
    assert_eq!(DefaultAgent.score(&Board::default()), 0);
    assert_eq!(DefaultAgent.score(&board.clone().remove_piece(at(6, 0))), 1);
    assert_eq!(DefaultAgent.score(&board.clone().remove_piece(at(0, 3))), -9);
    assert_eq!(DefaultAgent.score(&skirmish()), (100 + 5 + 1) - (100 + 9 + 1 + 3));
    let kings_only = put(Board::default(), 0, 0, ChessPieceType::King, Player::Opponent);
    assert_eq!(DefaultAgent.score(&kings_only), 100);
}

#[test]
fn pruned_value_equals_exhaustive_minimax() {
    for board in [skirmish(), endgame(), Board::default().fill_standard_pieces()] {
        for plies in 0..=3u32 {
            for player_is_ai in [true, false] {
                assert_eq!(
                    calculate_deeper_layers(
                        board.clone(),
                        player_is_ai,
                        0,
                        DefaultAgent,
                        plies,
                        i32::MIN,
                        i32::MAX
                    ),
                    exhaustive(&board, player_is_ai, plies)
                );
            }
        }
    }
}

#[test]
fn pruned_value_counts_plies_from_the_current_depth() {
    let board = skirmish();
    assert_eq!(
        calculate_deeper_layers(board.clone(), true, 3, DefaultAgent, 5, i32::MIN, i32::MAX),
        exhaustive(&board, true, 2)
    );
    assert_eq!(
        calculate_deeper_layers(board.clone(), false, 4, DefaultAgent, 5, i32::MIN, i32::MAX),
        exhaustive(&board, false, 1)
    );
}

#[test]
fn at_or_past_the_depth_level_a_position_is_scored_as_it_stands() {
    let board = skirmish();
    for current_depth in [2u32, 3, 7, u32::MAX] {
        assert_eq!(
            calculate_deeper_layers(
                board.clone(),
                true,
                current_depth,
                DefaultAgent,
                2,
                i32::MIN,
                i32::MAX
            ),
            DefaultAgent.score(&board)
        );
    }
}

#[test]
fn a_narrow_window_bounds_the_exact_value() {
    let board = skirmish();
    for plies in 1..=3u32 {
        for player_is_ai in [true, false] {
            let exact = exhaustive(&board, player_is_ai, plies);
            for (alfa, beta) in [(exact - 3, exact + 3), (exact, exact + 5), (exact - 5, exact), (-1000, -900), (900, 1000)] {
                let value = calculate_deeper_layers(
                    board.clone(),
                    player_is_ai,
                    0,
                    DefaultAgent,
                    plies,
                    alfa,
                    beta,
                );
                if value <= alfa {
                    assert!(exact <= value);
                } else if value >= beta {
                    assert!(value <= exact);
                } else {
                    assert_eq!(value, exact);
                }
            }
        }
    }
}

/// The value along the first legal move at every ply.
fn first_line(board: &Board, player_is_ai: bool, plies: u32) -> i32 {
    if plies == 0 {
        return DefaultAgent.score(board);
    }
    let options = generate_options_for_current_board(board, player_is_ai);
    if options.is_empty() {
        return if player_is_ai {
            i32::MIN + 1
        } else {
            i32::MAX - 1
        };
    }
    first_line(&options[0], !player_is_ai, plies - 1)
}

#[test]
fn an_empty_window_follows_the_first_move_at_every_ply() {
    let board = skirmish();
    for plies in 0..=3u32 {
        for player_is_ai in [true, false] {
            for (alfa, beta) in [(0, 0), (5, -5), (i32::MAX, i32::MIN)] {
                assert_eq!(
                    calculate_deeper_layers(
                        board.clone(),
                        player_is_ai,
                        0,
                        DefaultAgent,
                        plies,
                        alfa,
                        beta
                    ),
                    first_line(&board, player_is_ai, plies)
                );
            }
        }
    }
}

#[test]
fn a_side_without_moves_has_lost_the_position() {
    let mut mate = put(Board::default(), 7, 7, ChessPieceType::King, Player::User);
    mate = put(mate, 7, 0, ChessPieceType::Rook, Player::Opponent);
    mate = put(mate, 6, 0, ChessPieceType::Rook, Player::Opponent);
    mate = put(mate, 0, 0, ChessPieceType::King, Player::Opponent);
    let for_user = calculate_deeper_layers(mate, false, 0, DefaultAgent, 3, i32::MIN, i32::MAX);
    assert_eq!(for_user, i32::MAX - 1);

    let mut lost = put(Board::default(), 0, 0, ChessPieceType::King, Player::Opponent);
    lost = put(lost, 0, 7, ChessPieceType::Rook, Player::User);
    lost = put(lost, 1, 7, ChessPieceType::Rook, Player::User);
    lost = put(lost, 7, 7, ChessPieceType::King, Player::User);
    let for_engine = calculate_deeper_layers(lost, true, 0, DefaultAgent, 3, i32::MIN, i32::MAX);
    assert_eq!(for_engine, i32::MIN + 1);

    for board in [skirmish(), endgame(), Board::default().fill_standard_pieces(), Board::default()] {
        let heuristic = DefaultAgent.score(&board);
        assert!(for_engine < heuristic);
        assert!(heuristic < for_user);
    }
}

#[test]
fn a_candidate_is_valued_by_the_users_best_reply() {
    let board = skirmish();
    for depth_level in [0u32, 2, 3, 4, 5] {
        let plies = if depth_level > 3 { depth_level - 3 } else { 0 };
        let (value, same) = evaluate_candidate(board.clone(), DefaultAgent, depth_level);
        assert_eq!(same, board);
        assert_eq!(value, exhaustive(&board, false, plies + 1));
    }
}

#[test]
fn a_candidate_that_leaves_the_user_without_moves_is_worth_most() {
    let mut mate = put(Board::default(), 7, 7, ChessPieceType::King, Player::User);
    mate = put(mate, 7, 0, ChessPieceType::Rook, Player::Opponent);
    mate = put(mate, 6, 0, ChessPieceType::Rook, Player::Opponent);
    let (value, same) = evaluate_candidate(mate.clone(), DefaultAgent, 5);
    assert_eq!(value, i32::MAX - 1);
    assert_eq!(same, mate);
}

#[test]
fn select_best_takes_the_first_of_the_greatest() {
    let a = put(Board::default(), 0, 0, ChessPieceType::King, Player::User);
    let b = put(Board::default(), 0, 1, ChessPieceType::King, Player::User);
    let c = put(Board::default(), 0, 2, ChessPieceType::King, Player::User);
    let d = put(Board::default(), 0, 3, ChessPieceType::King, Player::User);
    assert_eq!(select_best(vec![(1, a.clone())]), a);
    assert_eq!(
        select_best(vec![(1, a.clone()), (7, b.clone()), (7, c.clone()), (3, d.clone())]),
        b
    );
    assert_eq!(
        select_best(vec![(7, a.clone()), (7, b.clone()), (7, c.clone())]),
        a
    );
    assert_eq!(
        select_best(vec![(-7, a.clone()), (-9, b.clone()), (-2, c.clone()), (-2, d.clone())]),
        c
    );
    assert_eq!(
        select_best(vec![(i32::MIN, a.clone()), (i32::MIN, b.clone())]),
        a
    );
}

#[test]
fn the_engine_takes_what_it_can_take_for_free() {
    let board = skirmish().remove_piece(at(4, 4));
    let reply = calculate_first_layers(board.clone(), DefaultAgent, 2);
    let expected = move_piece(board.clone(), &board.at(&at(0, 7)), &board.at(&at(3, 7)));
    assert_eq!(reply, expected);
    assert_eq!(DefaultAgent.score(&reply), (100 + 5 + 1) - (100 + 1));
}

#[test]
fn the_engine_moves_to_its_first_best_successor() {
    for board in [skirmish(), endgame()] {
        for depth_level in [2u32, 4] {
            let options = generate_options_for_current_board(&board, true);
            let values: Vec<i32> = options
                .iter()
                .map(|option| evaluate_candidate(option.clone(), DefaultAgent, depth_level).0)
                .collect();
            let greatest = *values.iter().max().unwrap();
            let first = values.iter().position(|value| *value == greatest).unwrap();
            let reply = calculate_first_layers(board.clone(), DefaultAgent, depth_level);
            assert_eq!(reply, options[first]);
        }
    }
}

#[test]
fn the_same_search_gives_the_same_reply() {
    let board = skirmish();
    let first = calculate_first_layers(board.clone(), DefaultAgent, 3);
    for _ in 0..20 {
        assert_eq!(calculate_first_layers(board.clone(), DefaultAgent, 3), first);
    }
    let board = endgame();
    let first = calculate_first_layers(board.clone(), DefaultAgent, 2);
    for _ in 0..20 {
        assert_eq!(calculate_first_layers(board.clone(), DefaultAgent, 2), first);
    }
}

#[test]
fn without_a_legal_move_the_engine_stays_where_it_is() {
    let mut lost = put(Board::default(), 0, 0, ChessPieceType::King, Player::Opponent);
    lost = put(lost, 0, 7, ChessPieceType::Rook, Player::User);
    lost = put(lost, 1, 7, ChessPieceType::Rook, Player::User);
    lost = put(lost, 7, 7, ChessPieceType::King, Player::User);
    assert_eq!(generate_options_for_current_board(&lost, true), vec![]);
    assert_eq!(calculate_first_layers(lost.clone(), DefaultAgent, 5), lost);
    let empty = Board::default();
    assert_eq!(calculate_first_layers(empty.clone(), DefaultAgent, 5), empty);
}

#[test]
fn among_equal_moves_the_engine_takes_the_first() {
    let board = endgame();
    let reply = calculate_first_layers(board.clone(), DefaultAgent, 2);
    let advance = move_piece(board.clone(), &board.at(&at(1, 0)), &board.at(&at(2, 0)));
    assert_eq!(reply, advance);
}
