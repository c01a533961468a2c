use chess_bot::chess_move::ChessMove;
use chess_bot::piece::Piece;
use chess_bot::piece::PieceColor;
use chess_bot::piece::PieceType;
use chess_bot::square::Square;

#[test]
fn square_uci_notation_corners() {
    assert_eq!(Square::from(0, 0, None).uci_notation(), "a1");
    assert_eq!(Square::from(7, 7, None).uci_notation(), "h8");
    assert_eq!(Square::from(1, 4, None).uci_notation(), "e2");
    assert_eq!(Square::from(3, 4, None).uci_notation(), "e4");
}

#[test]
fn square_from_uci_notation_round_trip() {
    for rank in 0u8..8 {
        for file in 0u8..8 {
            let sq = Square::from(rank, file, None);
            let notation = sq.uci_notation();
            let parsed = Square::from_uci_notation(&notation).unwrap();
            assert_eq!(parsed.rank, rank);
            assert_eq!(parsed.file, file);
            assert_eq!(parsed.piece, None);
        }
    }
}

#[test]
fn square_from_uci_notation_rejects_bad_input() {
    assert!(Square::from_uci_notation("").is_err());
    assert!(Square::from_uci_notation("e").is_err());
    assert!(Square::from_uci_notation("i1").is_err());
    assert!(Square::from_uci_notation("a9").is_err());
    assert!(Square::from_uci_notation("a0").is_err());
    assert!(Square::from_uci_notation("4e").is_err());
}

#[test]
fn square_index_conversions() {
    assert_eq!(Square::index_to_rank(0).unwrap(), "1");
    assert_eq!(Square::index_to_rank(7).unwrap(), "8");
    assert!(Square::index_to_rank(8).is_err());
    assert_eq!(Square::index_to_file(0).unwrap(), "a");
    assert_eq!(Square::index_to_file(7).unwrap(), "h");
    assert!(Square::index_to_file(8).is_err());
}

#[test]
fn square_rank_and_file_index() {
    let sq = Square::from(2, 5, None);
    assert_eq!(sq.rank_index().unwrap(), 2);
    assert_eq!(sq.file_index().unwrap(), 5);
    let bad = Square::from(8, 9, None);
    assert!(bad.rank_index().is_err());
    assert!(bad.file_index().is_err());
}

#[test]
fn observer_digit_to_index() {
    assert_eq!(Square::chess_dot_com_index_char_to_index('1').unwrap(), 0);
    assert_eq!(Square::chess_dot_com_index_char_to_index('8').unwrap(), 7);
    assert!(Square::chess_dot_com_index_char_to_index('0').is_err());
    assert!(Square::chess_dot_com_index_char_to_index('9').is_err());
    assert!(Square::chess_dot_com_index_char_to_index('a').is_err());
}

#[test]
fn piece_color_char_parsing() {
    assert_eq!(
        Piece::chess_dot_com_char_to_piece_color('w').unwrap(),
        PieceColor::White
    );
    assert_eq!(
        Piece::chess_dot_com_char_to_piece_color('b').unwrap(),
        PieceColor::Black
    );
    assert!(Piece::chess_dot_com_char_to_piece_color('x').is_err());
}

#[test]
fn piece_type_char_parsing() {
    assert_eq!(
        Piece::chess_dot_com_char_to_piece_type('p').unwrap(),
        PieceType::Pawn
    );
    assert_eq!(
        Piece::chess_dot_com_char_to_piece_type('n').unwrap(),
        PieceType::Knight
    );
    assert_eq!(
        Piece::chess_dot_com_char_to_piece_type('k').unwrap(),
        PieceType::King
    );
    assert!(Piece::chess_dot_com_char_to_piece_type('z').is_err());
}

#[test]
fn move_uci_notation_plain() {
    let m = ChessMove::from(Square::from(1, 4, None), Square::from(3, 4, None));
    assert_eq!(m.uci_notation(), "e2e4");
    assert_eq!(m.get_promotion_type(), None);
}

#[test]
fn move_decode_plain() {
    let m = ChessMove::from_uci_notation("e2e4").unwrap();
    assert_eq!(m.start.rank, 1);
    assert_eq!(m.start.file, 4);
    assert_eq!(m.end.rank, 3);
    assert_eq!(m.end.file, 4);
    assert_eq!(m.promotion, None);
}

#[test]
fn move_decode_promotion_suffix() {
    let m = ChessMove::from_uci_notation("e7e8q").unwrap();
    assert_eq!(m.start.rank, 6);
    assert_eq!(m.end.rank, 7);
    assert_eq!(m.promotion, Some(PieceType::Queen));
}

#[test]
fn move_decode_rejects_bad_tokens() {
    assert!(ChessMove::from_uci_notation("").is_err());
    assert!(ChessMove::from_uci_notation("e2e").is_err());
    assert!(ChessMove::from_uci_notation("e2e4qq").is_err());
    assert!(ChessMove::from_uci_notation("e2x4").is_err());
    assert!(ChessMove::from_uci_notation("e2e4x").is_err());
}

#[test]
fn move_round_trip_all_promotions() {
    let kinds = [
        None,
        Some(PieceType::Queen),
        Some(PieceType::Rook),
        Some(PieceType::Bishop),
        Some(PieceType::Knight),
    ];
    for promotion in kinds {
        let m = ChessMove {
            start: Square::from(6, 2, None),
            end: Square::from(7, 2, None),
            promotion,
        };
        let notation = m.uci_notation();
        let decoded = ChessMove::from_uci_notation(&notation).unwrap();
        assert_eq!(decoded, m);
    }
}

#[test]
fn move_round_trip_every_coordinate_pair_sample() {
    for sr in 0u8..8 {
        for sf in 0u8..8 {
            let m = ChessMove {
                start: Square::from(sr, sf, None),
                end: Square::from(7 - sr, 7 - sf, None),
                promotion: None,
            };
            let decoded = ChessMove::from_uci_notation(&m.uci_notation()).unwrap();
            assert_eq!(decoded, m);
        }
    }
}

#[test]
fn promotion_computed_from_squares() {
    let pawn = Some(Piece::from(PieceColor::White, PieceType::Pawn));
    let queen = Some(Piece::from(PieceColor::White, PieceType::Queen));
    let promoting = ChessMove::from(Square::from(6, 0, pawn), Square::from(7, 0, queen));
    assert_eq!(promoting.get_promotion_type(), Some(PieceType::Queen));
    assert_eq!(promoting.uci_notation(), "a7a8q");

    let plain = ChessMove::from(Square::from(6, 0, pawn), Square::from(7, 0, pawn));
    assert_eq!(plain.get_promotion_type(), None);

    let unknown = ChessMove::from(Square::from(6, 0, None), Square::from(7, 0, queen));
    assert_eq!(unknown.get_promotion_type(), None);
}
