use chess_bot::game_board::GameBoard;
use chess_bot::piece::Piece;
use chess_bot::piece::PieceColor;
use chess_bot::piece::PieceType;

fn piece(color: PieceColor, kind: PieceType) -> Option<Piece> {
    Some(Piece::from(color, kind))
}

#[test]
fn new_board_has_starting_position() {
    let board = GameBoard::new().unwrap();
    assert_eq!(board.squares.len(), 8);
    for rank in 0..8 {
        assert_eq!(board.squares[rank].len(), 8);
    }
    let back = [
        PieceType::Rook,
        PieceType::Knight,
        PieceType::Bishop,
        PieceType::Queen,
        PieceType::King,
        PieceType::Bishop,
        PieceType::Knight,
        PieceType::Rook,
    ];
    for file in 0..8 {
        assert_eq!(board.squares[0][file].piece, piece(PieceColor::White, back[file]));
        assert_eq!(board.squares[1][file].piece, piece(PieceColor::White, PieceType::Pawn));
        assert_eq!(board.squares[6][file].piece, piece(PieceColor::Black, PieceType::Pawn));
        assert_eq!(board.squares[7][file].piece, piece(PieceColor::Black, back[file]));
        for rank in 2..6 {
            assert_eq!(board.squares[rank][file].piece, None);
        }
    }
}

#[test]
fn new_board_squares_know_their_coordinates() {
    let board = GameBoard::new().unwrap();
    for rank in 0..8u8 {
        for file in 0..8u8 {
            let sq = &board.squares[rank as usize][file as usize];
            assert_eq!(sq.rank, rank);
            assert_eq!(sq.file, file);
        }
    }
}

#[test]
fn empty_squares_grid_is_empty() {
    let grid = GameBoard::get_empty_squares();
    assert_eq!(grid.len(), 8);
    for rank in 0..8 {
        assert_eq!(grid[rank].len(), 8);
        for file in 0..8 {
            assert_eq!(grid[rank][file].piece, None);
        }
    }
}

#[test]
fn from_square_infos_places_pieces() {
    let infos = vec![
        String::from("piece wp square-52"),
        String::from("piece bk square-58"),
    ];
    let board = GameBoard::from(&infos).unwrap();
    // square-52: file digit 5 (index 4), rank digit 2 (index 1)
    assert_eq!(board.squares[1][4].piece, piece(PieceColor::White, PieceType::Pawn));
    // square-58: file digit 5 (index 4), rank digit 8 (index 7)
    assert_eq!(board.squares[7][4].piece, piece(PieceColor::Black, PieceType::King));
    for rank in 0..8 {
        for file in 0..8 {
            if (rank, file) != (1, 4) && (rank, file) != (7, 4) {
                assert_eq!(board.squares[rank][file].piece, None);
            }
        }
    }
}

#[test]
fn from_square_infos_is_order_independent_within_an_entry() {
    let infos = vec![String::from("square-11 wr")];
    let board = GameBoard::from(&infos).unwrap();
    assert_eq!(board.squares[0][0].piece, piece(PieceColor::White, PieceType::Rook));
}

#[test]
fn from_square_infos_later_entry_overwrites_earlier() {
    let infos = vec![
        String::from("piece wp square-44"),
        String::from("piece bq square-44"),
    ];
    let board = GameBoard::from(&infos).unwrap();
    assert_eq!(board.squares[3][3].piece, piece(PieceColor::Black, PieceType::Queen));
}

#[test]
fn from_empty_list_gives_empty_board() {
    let board = GameBoard::from(&Vec::new()).unwrap();
    for rank in 0..8 {
        for file in 0..8 {
            assert_eq!(board.squares[rank][file].piece, None);
        }
    }
}

#[test]
fn from_rejects_malformed_descriptions() {
    // no two-character piece token
    assert!(GameBoard::from(&vec![String::from("piece square-44")]).is_err());
    // no coordinate token
    assert!(GameBoard::from(&vec![String::from("piece wp")]).is_err());
    // bad color character
    assert!(GameBoard::from(&vec![String::from("xp square-44")]).is_err());
    // bad kind character
    assert!(GameBoard::from(&vec![String::from("wz square-44")]).is_err());
    // coordinate token too short
    assert!(GameBoard::from(&vec![String::from("wp square-4")]).is_err());
    // coordinate digits out of range
    assert!(GameBoard::from(&vec![String::from("wp square-09")]).is_err());
    // one bad entry rejects the whole snapshot
    let infos = vec![String::from("wp square-44"), String::from("nonsense")];
    assert!(GameBoard::from(&infos).is_err());
}

#[test]
fn set_state_copies_occupancy() {
    let mut board = GameBoard::new().unwrap();
    let empty = GameBoard {
        squares: GameBoard::get_empty_squares(),
    };
    board.set_state(&empty);
    for rank in 0..8 {
        for file in 0..8 {
            assert_eq!(board.squares[rank][file].piece, None);
        }
    }

    let start = GameBoard::new().unwrap();
    board.set_state(&start);
    assert_eq!(
        board.squares[0][3].piece,
        piece(PieceColor::White, PieceType::Queen)
    );
    assert_eq!(
        board.squares[6][0].piece,
        piece(PieceColor::Black, PieceType::Pawn)
    );
}
