use micattix::board::{Board, BoardSize, GameMode, InvalidMoveError, Piece, Player};
use micattix::game::{GameEvent, GameManager, GameSession};

/// Clears every cell of a small board except the marker, which is placed
/// at the given cell.
fn empty_small_board_with_cross_at(row: usize, col: usize) -> Board {
    let mut board = Board::new(BoardSize::Small);
    for r in 0..4 {
        for c in 0..4 {
            board.set_piece(r, c, Piece::Empty);
        }
    }
    board.set_piece(row, col, Piece::Cross);
    board
}

fn count_value(board: &Board, side: usize, value: i32) -> usize {
    let mut count = 0;
    for r in 0..side {
        for c in 0..side {
            if board.get_piece(r, c) == Piece::Number(value) {
                count += 1;
            }
        }
    }
    count
}

#[test]
fn small_board_exact_tile_multiset() {
    // A generated small board carries each value 1..=7 twice and one 8,
    // whatever permutation the shuffle produced.
    let board = Board::new(BoardSize::Small);
    for v in 1..=7 {
        assert_eq!(count_value(&board, 4, v), 2, "value {} should appear twice", v);
    }
    assert_eq!(count_value(&board, 4, 8), 1);
    assert_eq!(count_value(&board, 4, 0), 0);
}

#[test]
fn large_board_exact_tile_multiset() {
    // Values 1..=6 three times (pair plus filler), 7..=9 twice, 10 once,
    // -1..=-10 once each.
    let board = Board::new(BoardSize::Large);
    for v in 1..=6 {
        assert_eq!(count_value(&board, 6, v), 3, "value {} should appear three times", v);
    }
    for v in 7..=9 {
        assert_eq!(count_value(&board, 6, v), 2, "value {} should appear twice", v);
    }
    assert_eq!(count_value(&board, 6, 10), 1);
    for v in 1..=10 {
        assert_eq!(count_value(&board, 6, -v), 1, "value {} should appear once", -v);
    }
}

#[test]
fn valid_moves_exclude_marker_and_empty_cells() {
    let mut board = empty_small_board_with_cross_at(2, 1);
    board.set_piece(2, 3, Piece::Number(4));
    board.set_piece(0, 1, Piece::Number(-2));

    // Horizontal player: only the one non-empty cell of row 2 qualifies.
    let horizontal = board.get_valid_moves(Player::First);
    assert_eq!(horizontal, vec![(2, 3)]);

    // Vertical player: only the one non-empty cell of column 1 qualifies.
    let vertical = board.get_valid_moves(Player::Second);
    assert_eq!(vertical, vec![(0, 1)]);
}

#[test]
fn valid_moves_ascending_order() {
    let board = {
        let mut b = Board::new(BoardSize::Small);
        for r in 0..4 {
            for c in 0..4 {
                if (r, c) != (0, 0) {
                    b.set_piece(r, c, Piece::Number(1));
                }
            }
        }
        b.set_piece(0, 0, Piece::Cross);
        b
    };
    let moves = board.get_valid_moves(Player::Third);
    assert_eq!(moves, vec![(0, 1), (0, 2), (0, 3)]);
    let column_moves = board.get_valid_moves(Player::Fourth);
    assert_eq!(column_moves, vec![(1, 0), (2, 0), (3, 0)]);
}

#[test]
fn invalid_move_error_carries_target() {
    let mut board = empty_small_board_with_cross_at(0, 0);
    board.set_piece(0, 2, Piece::Number(3));

    // Wrong line for a vertical player.
    let result = board.make_move(Player::Second, (0, 2));
    assert_eq!(result, Err(InvalidMoveError { target: (0, 2) }));

    // Empty target cell.
    let result = board.make_move(Player::First, (0, 1));
    assert_eq!(result, Err(InvalidMoveError { target: (0, 1) }));

    // Out of bounds.
    let result = board.make_move(Player::First, (0, 9));
    assert_eq!(result, Err(InvalidMoveError { target: (0, 9) }));

    // The marker's own cell.
    let result = board.make_move(Player::First, (0, 0));
    assert_eq!(result, Err(InvalidMoveError { target: (0, 0) }));
}

#[test]
fn capture_history_keeps_order() {
    let mut board = empty_small_board_with_cross_at(0, 0);
    board.set_piece(0, 1, Piece::Number(7));
    board.set_piece(2, 1, Piece::Number(-3));

    let mut session = GameSession::new_with_board(board, GameMode::TwoPlayers);
    // First captures 7 moving right; Second captures -3 moving down.
    assert!(session.process_move((0, 1)).is_ok());
    assert!(session.process_move((2, 1)).is_ok());

    assert_eq!(session.scores[0].pieces, vec![Piece::Number(7)]);
    assert_eq!(session.scores[0].total, 7);
    assert_eq!(session.scores[1].pieces, vec![Piece::Number(-3)]);
    assert_eq!(session.scores[1].total, -3);
}

#[test]
fn overall_winner_tie_at_maximum_is_draw() {
    // Three scoring players: totals 10, 10, 5 (and 0) tie at the maximum.
    let mut session = GameSession::new(BoardSize::Small, GameMode::FourPlayers);
    session.total_scores = vec![10, 10, 5, 0];
    assert_eq!(session.get_overall_winner(), None);

    // Totals 10, 7, 5 (and 0): the 10-scorer wins.
    session.total_scores = vec![10, 7, 5, 0];
    assert_eq!(session.get_overall_winner(), Some(Player::First));

    // A tie below the maximum does not matter.
    session.total_scores = vec![3, 9, 3, 0];
    assert_eq!(session.get_overall_winner(), Some(Player::Second));
}

#[test]
fn round_winner_none_while_round_runs() {
    let mut board = empty_small_board_with_cross_at(1, 1);
    board.set_piece(1, 2, Piece::Number(5));
    let session = GameSession::new_with_board(board, GameMode::TwoPlayers);
    // A tile is still on the board: no winner yet, whatever the scores.
    assert_eq!(session.get_round_winner(), None);
}

#[test]
fn round_winner_after_clearing_board() {
    let mut board = empty_small_board_with_cross_at(1, 1);
    board.set_piece(1, 2, Piece::Number(5));
    let mut session = GameSession::new_with_board(board, GameMode::TwoPlayers);
    assert!(session.process_move((1, 2)).is_ok());
    assert!(session.is_round_over());
    assert_eq!(session.get_round_winner(), Some(Player::First));
}

#[test]
fn round_winner_draw_on_equal_totals() {
    let mut board = empty_small_board_with_cross_at(0, 0);
    board.set_piece(0, 1, Piece::Number(5));
    board.set_piece(2, 1, Piece::Number(5));
    let mut session = GameSession::new_with_board(board, GameMode::TwoPlayers);
    assert!(session.process_move((0, 1)).is_ok());
    assert!(session.process_move((2, 1)).is_ok());
    assert!(session.is_round_over());
    assert_eq!(session.get_round_winner(), None);
}

#[test]
fn two_player_rotation_alternates() {
    assert_eq!(Player::First.next_for_mode(GameMode::TwoPlayers), Player::Second);
    assert_eq!(Player::Second.next_for_mode(GameMode::TwoPlayers), Player::First);
    assert_eq!(Player::First.next_for_mode(GameMode::FourPlayers), Player::Second);
    assert_eq!(Player::Fourth.next_for_mode(GameMode::FourPlayers), Player::First);
}

#[test]
fn failed_move_leaves_session_unchanged() {
    let mut board = empty_small_board_with_cross_at(2, 2);
    board.set_piece(2, 0, Piece::Number(6));
    let mut session = GameSession::new_with_board(board, GameMode::TwoPlayers);

    let result = session.process_move((3, 3));
    assert!(result.is_err());
    assert_eq!(session.current_player, Player::First);
    assert_eq!(session.board.cross_position, (2, 2));
    assert_eq!(session.board.get_piece(2, 0), Piece::Number(6));
    assert_eq!(session.round_score(Player::First), 0);
    assert_eq!(session.round_score(Player::Second), 0);
}

#[test]
fn start_game_event_order() {
    let manager = GameManager::new(BoardSize::Small, GameMode::TwoPlayers);
    let events = manager.start_game();
    assert_eq!(events.len(), 2);
    assert!(matches!(events[0], GameEvent::GameStarted));
    assert!(matches!(events[1], GameEvent::RoundStarted(1)));
}

#[test]
fn move_events_on_success_and_rejection() {
    let mut board = empty_small_board_with_cross_at(1, 1);
    board.set_piece(1, 3, Piece::Number(5));
    board.set_piece(3, 3, Piece::Number(2));
    let mut manager = GameManager::new_with_board(board, GameMode::TwoPlayers);

    // Rejected move: one InvalidMove event, nothing else.
    let events = manager.make_move((0, 0));
    assert_eq!(events.len(), 1);
    match &events[0] {
        GameEvent::InvalidMove(player, target, reason) => {
            assert_eq!(*player, Player::First);
            assert_eq!(*target, (0, 0));
            assert_eq!(*reason, InvalidMoveError { target: (0, 0) });
        }
        other => panic!("expected InvalidMove, got {:?}", other),
    }
    assert_eq!(manager.session.current_player, Player::First);

    // Successful move that does not end the round: one MoveMade event.
    let events = manager.make_move((1, 3));
    assert_eq!(events.len(), 1);
    match &events[0] {
        GameEvent::MoveMade(player, target, piece) => {
            assert_eq!(*player, Player::First);
            assert_eq!(*target, (1, 3));
            assert_eq!(*piece, Piece::Number(5));
        }
        other => panic!("expected MoveMade, got {:?}", other),
    }
}

#[test]
fn round_end_event_reports_winner_and_scores() {
    let mut board = empty_small_board_with_cross_at(1, 1);
    board.set_piece(1, 3, Piece::Number(5));
    let mut manager = GameManager::new_with_board(board, GameMode::TwoPlayers);

    let events = manager.make_move((1, 3));
    assert_eq!(events.len(), 2);
    assert!(matches!(events[0], GameEvent::MoveMade(Player::First, (1, 3), Piece::Number(5))));
    match &events[1] {
        GameEvent::RoundEnded(winner, scores) => {
            assert_eq!(*winner, Some(Player::First));
            assert_eq!(*scores, vec![(Player::First, 5), (Player::Second, 0)]);
        }
        other => panic!("expected RoundEnded, got {:?}", other),
    }
}

#[test]
fn game_end_event_reports_overall_winner() {
    let mut manager = GameManager::new(BoardSize::Small, GameMode::TwoPlayers);
    manager.session.total_scores = vec![4, 11];
    let events = manager.end_game();
    assert_eq!(events.len(), 1);
    match &events[0] {
        GameEvent::GameEnded(winner, totals) => {
            assert_eq!(*winner, Some(Player::Second));
            assert_eq!(*totals, vec![(Player::First, 4), (Player::Second, 11)]);
        }
        other => panic!("expected GameEnded, got {:?}", other),
    }
}

#[test]
fn next_round_accumulates_and_resets() {
    let mut board = empty_small_board_with_cross_at(0, 3);
    board.set_piece(0, 0, Piece::Number(8));
    let mut session = GameSession::new_with_board(board, GameMode::TwoPlayers);
    assert!(session.process_move((0, 0)).is_ok());
    assert!(session.is_round_over());
    assert_eq!(session.round_score(Player::First), 8);

    session.start_next_round();

    assert_eq!(session.round, 2);
    assert_eq!(session.cumulative_score(Player::First), 8);
    assert_eq!(session.cumulative_score(Player::Second), 0);
    assert_eq!(session.round_score(Player::First), 0);
    assert_eq!(session.round_score(Player::Second), 0);
    assert_eq!(session.board.size, BoardSize::Small);
    // The fresh board is fully stocked again.
    assert!(!session.is_round_over());
    // Round 2 of a two-player game opens with the second player.
    assert_eq!(session.current_player, Player::Second);
}

#[test]
fn session_round_trip_scenario() {
    // End to end: a 4x4 two-player session whose marker row holds exactly
    // one other non-empty cell of value 5.
    let mut board = empty_small_board_with_cross_at(2, 0);
    board.set_piece(2, 3, Piece::Number(5));
    let mut manager = GameManager::new_with_board(board, GameMode::TwoPlayers);
    let _ = manager.start_game();

    let moves = manager.session.board.get_valid_moves(Player::First);
    assert_eq!(moves, vec![(2, 3)]);

    let _ = manager.make_move((2, 3));

    assert!(manager.session.is_round_over());
    assert_eq!(manager.session.round_score(Player::First), 5);

    let events = manager.start_next_round();
    assert_eq!(manager.session.round, 2);
    assert!(matches!(events[0], GameEvent::RoundStarted(2)));
    assert_eq!(manager.session.cumulative_score(Player::First), 5);
}

#[test]
fn player_names_follow_mode() {
    let two = GameSession::new(BoardSize::Small, GameMode::TwoPlayers);
    assert_eq!(two.get_player_name(Player::First), "プレイヤー1 (横)");
    assert_eq!(two.get_player_name(Player::Second), "プレイヤー2 (縦)");
    let four = GameSession::new(BoardSize::Small, GameMode::FourPlayers);
    assert_eq!(four.get_player_name(Player::Third), "プレイヤー3 (横)");
    assert_eq!(four.get_player_name(Player::Fourth), "プレイヤー4 (縦)");
}
