use chess_engine::ai_engine::simple_min_max::{calculate_first_layers, MinMaxAI};
use chess_engine::ai_engine::{
    generate_options_for_current_board, make_move, new_wrapper_for_min_max, DefaultAgent, AI,
};
use chess_engine::board::chesspiece::{get_movements, ChessPiece, ChessPieceType};
use chess_engine::board::layout::{Board, BoardCoordinates};
use chess_engine::common::{check_if_king_in_check, move_piece};
use chess_engine::engine::game_state::{
    choose_fields, computer_move_at, do_ai_move, do_computer_move, do_user_move,
    pick_computer_move, GameState, Notice, Selection,
};
use chess_engine::engine::Player;
use chess_engine::interface::{CommandInput, GeneralInput};

fn at(x: u32, y: u32) -> BoardCoordinates {
    BoardCoordinates::from_coordinates(x, y).unwrap()
}

fn put(board: Board, x: u32, y: u32, piece_type: ChessPieceType, player: Player) -> Board {
    board.add_replace_piece(at(x, y), ChessPiece { piece_type, player })
}

fn endgame() -> Board {
    let mut board = put(Board::default(), 1, 0, ChessPieceType::Pawn, Player::Opponent);
    board = put(board, 2, 4, ChessPieceType::King, Player::Opponent);
    put(board, 7, 4, ChessPieceType::King, Player::User)
}

fn back_rank_mate() -> Board {
    let mut board = put(Board::default(), 7, 7, ChessPieceType::King, Player::User);
    board = put(board, 7, 0, ChessPieceType::Rook, Player::Opponent);
    board = put(board, 6, 0, ChessPieceType::Rook, Player::Opponent);
    put(board, 0, 0, ChessPieceType::King, Player::Opponent)
}

fn game(board: Board, current_player: Player) -> GameState {
    GameState {
        current_player,
        board,
        checkmate: false,
    }
}

#[test]
fn a_new_engine_that_moves_second_knows_nothing() {
    let board = Board::default().fill_standard_pieces();
    let engine = new_wrapper_for_min_max(DefaultAgent, board.clone(), false);
    assert_eq!(engine.cached(), 0);
    assert_eq!(*engine.current_state(), board);
    assert!(!engine.knows(&board));
}

#[test]
fn a_new_engine_that_moves_first_holds_the_board_itself() {
    let board = Board::default().fill_standard_pieces();
    let mut engine = new_wrapper_for_min_max(DefaultAgent, board.clone(), true);
    assert_eq!(engine.cached(), 1);
    assert!(engine.knows(&board));
    assert_eq!(engine.make_move(board.clone()), board);
    assert_eq!(engine.cached(), 0);
}

#[test]
fn the_cache_grows_by_one_entry_for_each_move_of_the_user() {
    let board = endgame();
    let mut engine = MinMaxAI::new(DefaultAgent, board.clone(), false, 2);
    engine.grow_forests();
    let candidates = generate_options_for_current_board(&board, false);
    assert_eq!(candidates.len(), 5);
    assert_eq!(engine.cached(), 5);
    assert_eq!(*engine.current_state(), board);
    for candidate in candidates.iter() {
        assert!(engine.knows(candidate));
    }
    assert!(!engine.knows(&board));
    assert!(!engine.knows(&Board::default()));
}

#[test]
fn the_reply_is_the_best_reply_to_the_observed_position() {
    let board = endgame();
    for candidate in generate_options_for_current_board(&board, false) {
        let mut engine = MinMaxAI::new(DefaultAgent, board.clone(), false, 3);
        engine.standby();
        let reply = engine.make_move(candidate.clone());
        assert_eq!(reply, calculate_first_layers(candidate.clone(), DefaultAgent, 3));
        assert!(generate_options_for_current_board(&candidate, true).contains(&reply));
        assert_eq!(*engine.current_state(), reply);
        assert_eq!(engine.cached(), 0);
        assert!(!engine.knows(&candidate));
    }
}

#[test]
fn round_trip_with_the_engine_moving_second() {
    let start = endgame();
    let mut engine = MinMaxAI::new(DefaultAgent, start.clone(), false, 2);
    engine.standby();
    let observed = move_piece(start.clone(), &start.at(&at(7, 4)), &start.at(&at(6, 4)));
    assert!(generate_options_for_current_board(&start, false).contains(&observed));
    let reply = make_move(&mut engine, observed.clone());
    assert!(generate_options_for_current_board(&observed, true).contains(&reply));
    let advance = move_piece(observed.clone(), &observed.at(&at(1, 0)), &observed.at(&at(2, 0)));
    assert_eq!(reply, advance);
    assert_eq!(
        reply.at(&at(2, 0)).piece,
        Some(ChessPiece {
            piece_type: ChessPieceType::Pawn,
            player: Player::Opponent
        })
    );
}

#[test]
fn the_game_goes_on_after_a_reply() {
    let start = endgame();
    let mut engine = MinMaxAI::new(DefaultAgent, start.clone(), false, 2);
    engine.standby();
    let observed = move_piece(start.clone(), &start.at(&at(7, 4)), &start.at(&at(7, 3)));
    let reply = engine.make_move(observed);
    engine.standby();
    let next = generate_options_for_current_board(&reply, false);
    assert_eq!(engine.cached(), next.len());
    let second = engine.make_move(next[0].clone());
    assert!(generate_options_for_current_board(&next[0], true).contains(&second));
}

#[test]
fn an_engine_that_moves_first_prepares_its_first_move() {
    let board = endgame();
    let mut engine = MinMaxAI::new(DefaultAgent, board.clone(), true, 2);
    engine.standby();
    assert_eq!(engine.cached(), 1);
    assert!(engine.knows(&board));
    let first = engine.make_move(board.clone());
    assert_eq!(first, calculate_first_layers(board.clone(), DefaultAgent, 2));
    assert!(generate_options_for_current_board(&board, true).contains(&first));
    assert_eq!(*engine.current_state(), first);
}

#[test]
fn a_user_without_moves_leaves_the_cache_empty() {
    let board = back_rank_mate();
    let mut engine = MinMaxAI::new(DefaultAgent, board.clone(), false, 2);
    engine.standby();
    assert_eq!(engine.cached(), 0);
    assert_eq!(*engine.current_state(), board);
}

#[test]
fn many_engines_answer_side_by_side() {
    let start = endgame();
    let candidates = generate_options_for_current_board(&start, false);
    let mut engines: Vec<MinMaxAI<DefaultAgent>> = (0..8)
        .map(|_| MinMaxAI::new(DefaultAgent, start.clone(), false, 2))
        .collect();
    for engine in engines.iter_mut() {
        engine.standby();
    }
    for (n, engine) in engines.iter_mut().enumerate() {
        let observed = candidates[n % candidates.len()].clone();
        let reply = make_move(engine, observed.clone());
        assert!(generate_options_for_current_board(&observed, true).contains(&reply));
    }
}

#[test]
fn a_game_starts_with_the_user_and_the_standard_board() {
    let game_state = GameState::start();
    assert_eq!(game_state.current_player, Player::User);
    assert!(!game_state.checkmate);
    assert_eq!(game_state.board, Board::default().fill_standard_pieces());
    assert!(!game_state.is_mated());
}

#[test]
fn switch_player_changes_the_turn_only() {
    let game_state = GameState::start().switch_player();
    assert_eq!(game_state.current_player, Player::Opponent);
    assert_eq!(game_state.board, Board::default().fill_standard_pieces());
    assert!(!game_state.checkmate);
    assert_eq!(game_state.switch_player().current_player, Player::User);
}

#[test]
fn the_users_move_is_made_as_chosen() {
    let game_state = GameState::start();
    let board = game_state.board.clone();
    let selected = board.at(&at(6, 4));
    let destination = board.at(&at(5, 4));
    let next = do_user_move(game_state, &selected, &destination);
    assert_eq!(next.board, move_piece(board, &selected, &destination));
    assert_eq!(next.current_player, Player::User);
    assert!(!next.checkmate);
}

#[test]
fn a_mated_user_does_not_move() {
    let board = back_rank_mate();
    let game_state = game(board.clone(), Player::User);
    assert!(game_state.is_mated());
    let selected = board.at(&at(7, 7));
    let destination = board.at(&at(6, 7));
    let next = do_user_move(game_state, &selected, &destination);
    assert!(next.checkmate);
    assert_eq!(next.board, board);
}

#[test]
fn the_engines_move_comes_from_the_engine() {
    let start = endgame();
    let mut engine = MinMaxAI::new(DefaultAgent, start.clone(), false, 2);
    engine.standby();
    let observed = move_piece(start.clone(), &start.at(&at(7, 4)), &start.at(&at(6, 4)));
    let next = do_ai_move(game(observed.clone(), Player::Opponent), &mut engine);
    assert!(!next.checkmate);
    assert_eq!(next.current_player, Player::Opponent);
    assert_eq!(next.board, calculate_first_layers(observed, DefaultAgent, 2));
    assert_eq!(*engine.current_state(), next.board);
}

#[test]
fn a_mated_engine_does_not_move() {
    let mut board = put(Board::default(), 0, 0, ChessPieceType::King, Player::Opponent);
    board = put(board, 0, 7, ChessPieceType::Rook, Player::User);
    board = put(board, 1, 7, ChessPieceType::Rook, Player::User);
    board = put(board, 7, 7, ChessPieceType::King, Player::User);
    let mut engine = MinMaxAI::new(DefaultAgent, board.clone(), false, 2);
    let next = do_ai_move(game(board.clone(), Player::Opponent), &mut engine);
    assert!(next.checkmate);
    assert_eq!(next.board, board);
    assert_eq!(engine.cached(), 0);
}

#[test]
fn do_move_follows_the_turn() {
    let start = endgame();
    let mut engine = MinMaxAI::new(DefaultAgent, start.clone(), false, 2);
    engine.standby();
    let waiting = game(start.clone(), Player::User).do_move(&mut engine, None);
    assert_eq!(waiting.board, start);
    assert!(!waiting.checkmate);
    assert_eq!(engine.cached(), 5);
    let selected = start.at(&at(7, 4));
    let destination = start.at(&at(6, 4));
    let moved = waiting.do_move(&mut engine, Some((selected, destination)));
    let observed = move_piece(start.clone(), &selected, &destination);
    assert_eq!(moved.board, observed);
    assert_eq!(moved.current_player, Player::User);
    let answered = moved.switch_player().do_move(&mut engine, None);
    assert_eq!(answered.board, calculate_first_layers(observed, DefaultAgent, 2));
    assert_eq!(answered.current_player, Player::Opponent);
}

#[test]
fn do_move_without_a_piece_to_move_changes_nothing() {
    let start = endgame();
    let mut engine = MinMaxAI::new(DefaultAgent, start.clone(), false, 2);
    let empty = start.at(&at(4, 4));
    let next = game(start.clone(), Player::User).do_move(&mut engine, Some((empty, empty)));
    assert_eq!(next.board, start);
    assert!(!next.checkmate);
    let mated = game(back_rank_mate(), Player::User).do_move(&mut engine, None);
    assert!(mated.checkmate);
}

#[test]
fn choosing_a_move_step_by_step() {
    let game_state = GameState::start();
    let board = game_state.board.clone();
    let square = |x, y| GeneralInput::Coordinates(at(x, y));

    let (selection, notice) = choose_fields(&game_state, Selection::Open, square(4, 4));
    assert_eq!((selection, notice), (Selection::Open, Notice::NotYourFigure));
    let (selection, notice) = choose_fields(&game_state, selection, square(1, 4));
    assert_eq!((selection, notice), (Selection::Open, Notice::NotYourFigure));
    let (selection, notice) = choose_fields(&game_state, selection, square(7, 0));
    assert_eq!((selection, notice), (Selection::Open, Notice::NoPossibleMoves));
    let (selection, notice) = choose_fields(
        &game_state,
        selection,
        GeneralInput::Command(CommandInput::Exit),
    );
    assert_eq!((selection, notice), (Selection::Open, Notice::Nothing));

    let pawn = board.at(&at(6, 4));
    let (selection, notice) = choose_fields(&game_state, selection, square(6, 4));
    assert_eq!((selection, notice), (Selection::Piece(pawn), Notice::Nothing));
    let (selection, notice) = choose_fields(&game_state, selection, square(4, 4));
    assert_eq!((selection, notice), (Selection::Piece(pawn), Notice::Nothing));
    let (selection, notice) = choose_fields(
        &game_state,
        selection,
        GeneralInput::ChessPieceType(ChessPieceType::Queen),
    );
    assert_eq!((selection, notice), (Selection::Piece(pawn), Notice::Nothing));
    let (selection, notice) = choose_fields(
        &game_state,
        selection,
        GeneralInput::Command(CommandInput::Back),
    );
    assert_eq!((selection, notice), (Selection::Open, Notice::Nothing));

    let (selection, _) = choose_fields(&game_state, selection, square(6, 4));
    let (selection, notice) = choose_fields(&game_state, selection, square(5, 4));
    let chosen = Selection::Move(pawn, board.at(&at(5, 4)));
    assert_eq!((selection, notice), (chosen, Notice::Nothing));
    let (selection, notice) = choose_fields(&game_state, selection, square(6, 0));
    assert_eq!((selection, notice), (chosen, Notice::Nothing));
}

#[test]
fn a_move_that_exposes_the_king_is_not_chosen() {
    let mut board = put(Board::default(), 7, 4, ChessPieceType::King, Player::User);
    board = put(board, 5, 4, ChessPieceType::Rook, Player::User);
    board = put(board, 0, 4, ChessPieceType::Rook, Player::Opponent);
    let game_state = game(board.clone(), Player::User);
    let rook = board.at(&at(5, 4));
    let (selection, _) =
        choose_fields(&game_state, Selection::Open, GeneralInput::Coordinates(at(5, 4)));
    assert_eq!(selection, Selection::Piece(rook));
    let (selection, notice) =
        choose_fields(&game_state, selection, GeneralInput::Coordinates(at(5, 0)));
    assert_eq!((selection, notice), (Selection::Piece(rook), Notice::KingInCheck));
    let (selection, notice) =
        choose_fields(&game_state, selection, GeneralInput::Coordinates(at(0, 4)));
    assert_eq!(
        (selection, notice),
        (Selection::Move(rook, board.at(&at(0, 4))), Notice::Nothing)
    );
}

#[test]
fn a_random_move_is_a_legal_move() {
    let game_state = GameState::start().switch_player();
    let mut found = 0;
    for _ in 0..200 {
        if let Some((selected, destination)) = pick_computer_move(&game_state) {
            found += 1;
            assert_eq!(selected.check_player(), Some(Player::Opponent));
            assert_eq!(selected, game_state.board.at(&selected.coordinates));
            assert_eq!(destination, game_state.board.at(&destination.coordinates));
            assert!(get_movements(&selected, &game_state.board).contains(&destination.coordinates));
            let moved = move_piece(game_state.board.clone(), &selected, &destination);
            assert!(!check_if_king_in_check(&moved, &Player::Opponent));
        }
    }
    assert!(found > 0);
}

#[test]
fn a_player_without_pieces_draws_no_move() {
    let board = put(Board::default(), 0, 0, ChessPieceType::King, Player::Opponent);
    assert_eq!(pick_computer_move(&game(board, Player::User)), None);
}

#[test]
fn a_random_turn_ends_with_a_legal_successor() {
    let start = GameState::start().switch_player();
    let before = start.board.clone();
    let options = generate_options_for_current_board(&before, true);
    let mut game_state = start;
    let mut tries = 0;
    loop {
        let (next, done) = do_computer_move(game_state);
        game_state = next;
        tries += 1;
        if done {
            break;
        }
        assert_eq!(game_state.board, before);
        assert!(tries < 10_000);
    }
    assert!(!game_state.checkmate);
    assert_eq!(game_state.current_player, Player::Opponent);
    assert!(options.contains(&game_state.board));
}

#[test]
fn a_mated_player_ends_its_random_turn_at_once() {
    let board = back_rank_mate();
    let (next, done) = do_computer_move(game(board.clone(), Player::User));
    assert!(done);
    assert!(next.checkmate);
    assert_eq!(next.board, board);
}

#[test]
fn two_draws_name_a_piece_and_one_of_its_moves() {
    let game_state = GameState::start().switch_player();
    let board = game_state.board.clone();
    // the opponent's pieces in board order: the knights are number 1 and 6
    assert_eq!(
        computer_move_at(&game_state, 1, 0),
        Some((board.at(&at(0, 1)), board.at(&at(2, 0))))
    );
    assert_eq!(
        computer_move_at(&game_state, 1, 1),
        Some((board.at(&at(0, 1)), board.at(&at(2, 2))))
    );
    assert_eq!(
        computer_move_at(&game_state, 6, 1),
        Some((board.at(&at(0, 6)), board.at(&at(2, 7))))
    );
    // pawns follow the back row: number 8 is the pawn in the first column
    assert_eq!(
        computer_move_at(&game_state, 8, 0),
        Some((board.at(&at(1, 0)), board.at(&at(2, 0))))
    );
    assert_eq!(
        computer_move_at(&game_state, 15, 0),
        Some((board.at(&at(1, 7)), board.at(&at(2, 7))))
    );
}

#[test]
fn draws_that_name_nothing_give_no_move() {
    let game_state = GameState::start().switch_player();
    // the rook in the corner cannot move
    assert_eq!(computer_move_at(&game_state, 0, 0), None);
    // the knight has two moves, the pawn one
    assert_eq!(computer_move_at(&game_state, 1, 2), None);
    assert_eq!(computer_move_at(&game_state, 8, 1), None);
    // there are sixteen pieces
    assert_eq!(computer_move_at(&game_state, 16, 0), None);
    assert_eq!(computer_move_at(&game_state, usize::MAX, usize::MAX), None);
    let nobody = game(Board::default(), Player::User);
    assert_eq!(computer_move_at(&nobody, 0, 0), None);
}

#[test]
fn a_draw_that_exposes_the_king_gives_no_move() {
    let mut board = put(Board::default(), 7, 4, ChessPieceType::King, Player::User);
    board = put(board, 5, 4, ChessPieceType::Rook, Player::User);
    board = put(board, 0, 4, ChessPieceType::Rook, Player::Opponent);
    let game_state = game(board.clone(), Player::User);
    // the rook is the user's first piece; its moves go up, down, left, right
    assert_eq!(
        computer_move_at(&game_state, 0, 0),
        Some((board.at(&at(5, 4)), board.at(&at(4, 4))))
    );
    assert_eq!(
        computer_move_at(&game_state, 0, 4),
        Some((board.at(&at(5, 4)), board.at(&at(0, 4))))
    );
    assert_eq!(
        computer_move_at(&game_state, 0, 5),
        Some((board.at(&at(5, 4)), board.at(&at(6, 4))))
    );
    assert_eq!(computer_move_at(&game_state, 0, 6), None);
    assert_eq!(computer_move_at(&game_state, 0, 13), None);
    // the king is the second piece: its first move is the square behind the rook
    assert_eq!(
        computer_move_at(&game_state, 1, 0),
        Some((board.at(&at(7, 4)), board.at(&at(6, 4))))
    );
}

#[test]
fn a_random_move_is_one_that_two_draws_stand_for() {
    let game_state = GameState::start().switch_player();
    let mut all = vec![];
    for field_pick in 0..16 {
        for destination_pick in 0..2 {
            if let Some(found) = computer_move_at(&game_state, field_pick, destination_pick) {
                all.push(found);
            }
        }
    }
    assert_eq!(all.len(), 12);
    let mut some = 0;
    let mut none = 0;
    for _ in 0..300 {
        match pick_computer_move(&game_state) {
            Some(found) => {
                some += 1;
                assert!(all.contains(&found));
            }
            None => none += 1,
        }
    }
    // ten of the sixteen pieces can move, six cannot
    assert!(some > 0);
    assert!(none > 0);
}
