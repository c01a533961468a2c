use chess_bot::game_board::GameBoard;
use chess_bot::piece::Piece;
use chess_bot::piece::PieceColor;
use chess_bot::piece::PieceType;

fn empty_board() -> GameBoard {
    GameBoard {
        squares: GameBoard::get_empty_squares(),
    }
}

fn put(board: &mut GameBoard, rank: usize, file: usize, color: PieceColor, kind: PieceType) {
    board.squares[rank][file].piece = Some(Piece::from(color, kind));
}

fn clear(board: &mut GameBoard, rank: usize, file: usize) {
    board.squares[rank][file].piece = None;
}

#[test]
fn identical_boards_infer_no_move() {
    let b = GameBoard::new().unwrap();
    let result = b.get_move_from_difference(&b).unwrap();
    assert_eq!(result, None);

    let e = empty_board();
    assert_eq!(e.get_move_from_difference(&e).unwrap(), None);
}

#[test]
fn double_pawn_advance_from_start_is_inferred() {
    let before = GameBoard::new().unwrap();
    let mut after = GameBoard::new().unwrap();
    clear(&mut after, 1, 4);
    put(&mut after, 3, 4, PieceColor::White, PieceType::Pawn);

    let m = before.get_move_from_difference(&after).unwrap().unwrap();
    assert_eq!(m.start.rank, 1);
    assert_eq!(m.start.file, 4);
    assert_eq!(m.end.rank, 3);
    assert_eq!(m.end.file, 4);
    assert_eq!(m.promotion, None);
    assert_eq!(m.uci_notation(), "e2e4");
}

#[test]
fn capture_is_a_standard_move() {
    let mut before = empty_board();
    put(&mut before, 3, 3, PieceColor::White, PieceType::Bishop);
    put(&mut before, 5, 5, PieceColor::Black, PieceType::Knight);
    let mut after = empty_board();
    put(&mut after, 5, 5, PieceColor::White, PieceType::Bishop);

    let m = before.get_move_from_difference(&after).unwrap().unwrap();
    assert_eq!((m.start.rank, m.start.file), (3, 3));
    assert_eq!((m.end.rank, m.end.file), (5, 5));
    assert_eq!(m.promotion, None);
}

#[test]
fn promotion_is_read_from_the_destination_kind() {
    let mut before = empty_board();
    put(&mut before, 6, 0, PieceColor::White, PieceType::Pawn);
    let mut after = empty_board();
    put(&mut after, 7, 0, PieceColor::White, PieceType::Queen);

    let m = before.get_move_from_difference(&after).unwrap().unwrap();
    assert_eq!((m.start.rank, m.start.file), (6, 0));
    assert_eq!((m.end.rank, m.end.file), (7, 0));
    assert_eq!(m.promotion, Some(PieceType::Queen));
    assert_eq!(m.uci_notation(), "a7a8q");
}

#[test]
fn en_passant_origin_is_on_the_other_file() {
    // White pawn on e5 captures the black pawn that just advanced d7-d5.
    let mut before = empty_board();
    put(&mut before, 4, 4, PieceColor::White, PieceType::Pawn);
    put(&mut before, 4, 3, PieceColor::Black, PieceType::Pawn);
    let mut after = empty_board();
    put(&mut after, 5, 3, PieceColor::White, PieceType::Pawn);

    let m = before.get_move_from_difference(&after).unwrap().unwrap();
    // origin e5: file 4, differs from the destination file 3
    assert_eq!((m.start.rank, m.start.file), (4, 4));
    assert_eq!((m.end.rank, m.end.file), (5, 3));
    assert_eq!(m.promotion, None);
    assert_eq!(m.uci_notation(), "e5d6");
}

#[test]
fn king_side_castle_on_rank_0_is_inferred() {
    let mut before = empty_board();
    put(&mut before, 0, 4, PieceColor::White, PieceType::King);
    put(&mut before, 0, 7, PieceColor::White, PieceType::Rook);
    let mut after = empty_board();
    put(&mut after, 0, 6, PieceColor::White, PieceType::King);
    put(&mut after, 0, 5, PieceColor::White, PieceType::Rook);

    let m = before.get_move_from_difference(&after).unwrap().unwrap();
    assert_eq!((m.start.rank, m.start.file), (0, 4));
    assert_eq!((m.end.rank, m.end.file), (0, 6));
    assert_eq!(m.promotion, None);
    assert_eq!(m.uci_notation(), "e1g1");
}

#[test]
fn queen_side_castle_on_rank_7_is_inferred() {
    let mut before = empty_board();
    put(&mut before, 7, 4, PieceColor::Black, PieceType::King);
    put(&mut before, 7, 0, PieceColor::Black, PieceType::Rook);
    let mut after = empty_board();
    put(&mut after, 7, 2, PieceColor::Black, PieceType::King);
    put(&mut after, 7, 3, PieceColor::Black, PieceType::Rook);

    let m = before.get_move_from_difference(&after).unwrap().unwrap();
    assert_eq!((m.start.rank, m.start.file), (7, 4));
    assert_eq!((m.end.rank, m.end.file), (7, 2));
    assert_eq!(m.uci_notation(), "e8c8");
}

#[test]
fn desync_counts_are_reported_exactly() {
    for count in [1usize, 5, 6, 7] {
        let before = empty_board();
        let mut after = empty_board();
        for k in 0..count {
            put(&mut after, k / 8, k % 8, PieceColor::White, PieceType::Pawn);
        }
        let err = before.get_move_from_difference(&after).unwrap_err();
        assert_eq!(err.count, count);
        assert_eq!(err.coordinates.len(), count);
        for k in 0..count {
            assert_eq!(err.coordinates[k], (k / 8, k % 8));
        }
    }
}

#[test]
fn two_changes_with_both_squares_occupied_is_a_desync() {
    let before = empty_board();
    let mut after = empty_board();
    put(&mut after, 2, 2, PieceColor::White, PieceType::Pawn);
    put(&mut after, 4, 4, PieceColor::White, PieceType::Pawn);

    let err = before.get_move_from_difference(&after).unwrap_err();
    assert_eq!(err.count, 2);
    assert_eq!(err.coordinates, vec![(2, 2), (4, 4)]);
}

#[test]
fn two_changes_with_both_squares_empty_is_a_desync() {
    let mut before = empty_board();
    put(&mut before, 2, 2, PieceColor::White, PieceType::Pawn);
    put(&mut before, 4, 4, PieceColor::Black, PieceType::Pawn);
    let after = empty_board();

    let err = before.get_move_from_difference(&after).unwrap_err();
    assert_eq!(err.count, 2);
}

#[test]
fn three_changes_without_a_destination_is_a_desync() {
    let mut before = empty_board();
    put(&mut before, 2, 2, PieceColor::White, PieceType::Pawn);
    put(&mut before, 3, 3, PieceColor::White, PieceType::Pawn);
    put(&mut before, 4, 4, PieceColor::White, PieceType::Pawn);
    let after = empty_board();

    let err = before.get_move_from_difference(&after).unwrap_err();
    assert_eq!(err.count, 3);
}

#[test]
fn three_changes_with_ambiguous_origin_is_a_desync() {
    // Destination on file 3; both remaining squares on other files.
    let mut before = empty_board();
    put(&mut before, 4, 4, PieceColor::White, PieceType::Pawn);
    put(&mut before, 4, 2, PieceColor::Black, PieceType::Pawn);
    let mut after = empty_board();
    put(&mut after, 5, 3, PieceColor::White, PieceType::Pawn);

    let err = before.get_move_from_difference(&after).unwrap_err();
    assert_eq!(err.count, 3);
}
