use chess_bot::chess_bot::observe_opponent_move;
use chess_bot::chess_bot::complete_own_move;
use chess_bot::chess_bot::human_thinking_time_ms;
use chess_bot::chess_bot::BotState;
use chess_bot::chess_bot::MatchState;
use chess_bot::chess_move::ChessMove;
use chess_bot::game_board::GameBoard;
use chess_bot::piece::Piece;
use chess_bot::piece::PieceColor;
use chess_bot::piece::PieceType;
use chess_bot::stockfish::is_best_move_reply;
use chess_bot::stockfish::OracleError;
use chess_bot::stockfish::Stockfish;

#[test]
fn reset_clears_history_and_hands_back_the_new_game_directive() {
    let mut engine = Stockfish::new();
    let e2e4 = ChessMove::from_uci_notation("e2e4").unwrap();
    engine.record_move_played(&e2e4);
    let directive = engine.reset();
    assert_eq!(directive, "ucinewgame");
    assert_eq!(engine.moves.len(), 0);
    assert_eq!(engine.position_command(), "position startpos moves");
}

#[test]
fn position_command_replays_the_whole_history_in_order() {
    let mut engine = Stockfish::new();
    engine.reset();
    let moves = ["e2e4", "e7e5", "g1f3", "e7e8q"];
    for (n, token) in moves.iter().enumerate() {
        let m = ChessMove::from_uci_notation(token).unwrap();
        engine.record_move_played(&m);
        assert_eq!(engine.moves.len(), n + 1);
    }
    assert_eq!(engine.moves, vec!["e2e4", "e7e5", "g1f3", "e7e8q"]);
    assert_eq!(
        engine.position_command(),
        "position startpos moves e2e4 e7e5 g1f3 e7e8q"
    );
}

#[test]
fn go_command_carries_the_search_directive() {
    let engine = Stockfish::new();
    assert_eq!(engine.go_command(), "go depth 1");
}

#[test]
fn reply_sentinel_is_matched_at_line_start() {
    assert!(is_best_move_reply("bestmove e2e4 ponder e7e5"));
    assert!(is_best_move_reply("bestmove"));
    assert!(!is_best_move_reply("info depth 1 bestmove e2e4"));
    assert!(!is_best_move_reply("best"));
    assert!(!is_best_move_reply(""));
}

#[test]
fn get_best_move_decodes_the_second_token_of_the_reply_line() {
    let engine = Stockfish::new();
    let lines = vec![
        String::from("info string starting search"),
        String::from("info depth 1 score cp 30"),
        String::from("bestmove e2e4 ponder e7e5"),
    ];
    let m = engine.get_best_move(&lines).unwrap();
    assert_eq!(m.uci_notation(), "e2e4");
}

#[test]
fn get_best_move_decodes_a_promotion_reply() {
    let engine = Stockfish::new();
    let lines = vec![String::from("bestmove e7e8q")];
    let m = engine.get_best_move(&lines).unwrap();
    assert_eq!(m.promotion, Some(PieceType::Queen));
    assert_eq!(m.uci_notation(), "e7e8q");
}

#[test]
fn get_best_move_uses_the_first_reply_line() {
    let engine = Stockfish::new();
    let lines = vec![
        String::from("bestmove a2a3"),
        String::from("bestmove h7h8q"),
    ];
    let m = engine.get_best_move(&lines).unwrap();
    assert_eq!(m.uci_notation(), "a2a3");
}

#[test]
fn missing_sentinel_is_a_protocol_error() {
    let engine = Stockfish::new();
    let lines = vec![
        String::from("info depth 1"),
        String::from("info string no answer"),
    ];
    match engine.get_best_move(&lines) {
        Err(OracleError::Protocol(_)) => {}
        other => panic!("expected a protocol error, got {:?}", other),
    }
    match engine.get_best_move(&Vec::new()) {
        Err(OracleError::Protocol(_)) => {}
        other => panic!("expected a protocol error, got {:?}", other),
    }
}

#[test]
fn malformed_reply_token_is_a_decode_error() {
    let engine = Stockfish::new();
    for line in ["bestmove", "bestmove xyzzy", "bestmove e9e4", "bestmove e2e4qq"] {
        match engine.get_best_move(&vec![String::from(line)]) {
            Err(OracleError::Decode(_)) => {}
            other => panic!("expected a decode error for {:?}, got {:?}", line, other),
        }
    }
}

#[test]
fn session_transitions_follow_the_table() {
    assert_eq!(BotState::Start.transition(false, false, false), BotState::Login);
    assert_eq!(BotState::Login.transition(true, false, false), BotState::WaitingForMatch);
    assert_eq!(BotState::Login.transition(false, false, false), BotState::Error);
    assert_eq!(
        BotState::WaitingForMatch.transition(false, true, false),
        BotState::MatchFound
    );
    assert_eq!(
        BotState::WaitingForMatch.transition(false, false, false),
        BotState::WaitingForMatch
    );
    assert_eq!(BotState::MatchFound.transition(false, false, false), BotState::Requeue);
    assert_eq!(BotState::Requeue.transition(false, false, true), BotState::WaitingForMatch);
    assert_eq!(BotState::Requeue.transition(false, false, false), BotState::Requeue);
    assert_eq!(BotState::Error.transition(true, true, true), BotState::Error);
}

#[test]
fn match_transitions_follow_the_table() {
    // A match no longer in progress forces the terminal state.
    assert_eq!(
        MatchState::Start.transition(false, PieceColor::White, false),
        MatchState::MatchOver
    );
    assert_eq!(
        MatchState::MyTurn.transition(false, PieceColor::White, true),
        MatchState::MatchOver
    );
    assert_eq!(
        MatchState::Start.transition(true, PieceColor::White, false),
        MatchState::MyTurn
    );
    assert_eq!(
        MatchState::Start.transition(true, PieceColor::Black, false),
        MatchState::WaitingForTurn
    );
    assert_eq!(
        MatchState::WaitingForTurn.transition(true, PieceColor::White, true),
        MatchState::MyTurn
    );
    assert_eq!(
        MatchState::WaitingForTurn.transition(true, PieceColor::White, false),
        MatchState::WaitingForTurn
    );
    assert_eq!(
        MatchState::MyTurn.transition(true, PieceColor::White, false),
        MatchState::WaitingForTurn
    );
    assert_eq!(
        MatchState::MatchOver.transition(true, PieceColor::White, true),
        MatchState::MatchOver
    );
}

#[test]
fn observing_an_opponent_move_records_it() {
    let mut engine = Stockfish::new();
    let before = GameBoard::new().unwrap();
    let mut after = GameBoard::new().unwrap();
    after.squares[6][4].piece = None;
    after.squares[4][4].piece = Some(Piece::from(PieceColor::Black, PieceType::Pawn));

    let observed = observe_opponent_move(&before, &after, &mut engine).unwrap();
    assert_eq!(observed.unwrap().uci_notation(), "e7e5");
    assert_eq!(engine.moves, vec!["e7e5"]);
}

#[test]
fn observing_an_unchanged_board_records_nothing() {
    let mut engine = Stockfish::new();
    let board = GameBoard::new().unwrap();
    let observed = observe_opponent_move(&board, &board, &mut engine).unwrap();
    assert_eq!(observed, None);
    assert_eq!(engine.moves.len(), 0);
}

#[test]
fn observing_a_desync_records_nothing_and_reports_the_count() {
    let mut engine = Stockfish::new();
    let before = GameBoard::new().unwrap();
    let mut after = GameBoard::new().unwrap();
    for file in 0..5 {
        after.squares[3][file].piece = Some(Piece::from(PieceColor::White, PieceType::Pawn));
    }
    let err = observe_opponent_move(&before, &after, &mut engine).unwrap_err();
    assert_eq!(err.count, 5);
    assert_eq!(engine.moves.len(), 0);
}

#[test]
fn completing_an_own_move_records_and_rolls_the_snapshot_forward() {
    let mut engine = Stockfish::new();
    let mut last = GameBoard::new().unwrap();
    let played = ChessMove::from_uci_notation("g1f3").unwrap();
    let mut observed = GameBoard::new().unwrap();
    observed.squares[0][6].piece = None;
    observed.squares[2][5].piece = Some(Piece::from(PieceColor::White, PieceType::Knight));

    complete_own_move(&mut last, &mut engine, &played, &observed);
    assert_eq!(engine.moves, vec!["g1f3"]);
    assert_eq!(last.squares[0][6].piece, None);
    assert_eq!(
        last.squares[2][5].piece,
        Some(Piece::from(PieceColor::White, PieceType::Knight))
    );
}

#[test]
fn thinking_time_stays_in_the_human_range() {
    for _ in 0..100 {
        let ms = human_thinking_time_ms();
        assert!((4500..15000).contains(&ms));
    }
}
