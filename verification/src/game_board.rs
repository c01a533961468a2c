//! The 8x8 board snapshot: construction from the standard starting position
//! or from observed square descriptions, full-state replacement, and the
//! move-inference engine that classifies the difference between two
//! snapshots.

use vstd::prelude::*;

use crate::chess_move::spec_promotion_of_squares;
use crate::chess_move::ChessMove;
use crate::errors::DesyncError;
use crate::errors::SnapshotParseError;
use crate::piece::spec_color_of_char;
use crate::piece::spec_kind_of_char;
use crate::piece::Piece;
use crate::piece::PieceColor;
use crate::piece::PieceType;
use crate::square::spec_rank_of_char;
use crate::square::Square;
use crate::text::spec_split_ws;
use crate::text::split_ws;
use crate::text::str_to_chars;

verus! {

/// A full snapshot: 8 ranks of 8 squares, each square knowing its own
/// coordinate. Snapshots are immutable facts about one instant; they are
/// compared by structural equality, never edited cell by cell.
pub struct GameBoard {
    pub squares: Vec<Vec<Square>>,
}

/// The rank-major position of coordinate `(r, f)` in a flattened board.
pub open spec fn flat_index(r: int, f: int) -> int {
    8 * r + f
}

/// The back-rank piece kind standing on file `f` in the starting position.
pub open spec fn spec_back_rank_kind(f: int) -> PieceType {
    if f == 0 || f == 7 {
        PieceType::Rook
    } else if f == 1 || f == 6 {
        PieceType::Knight
    } else if f == 2 || f == 5 {
        PieceType::Bishop
    } else if f == 3 {
        PieceType::Queen
    } else {
        PieceType::King
    }
}

/// The occupancy of coordinate `(r, f)` in the standard starting position,
/// with white on ranks 0 and 1.
pub open spec fn spec_starting_piece(r: int, f: int) -> Option<Piece> {
    if r == 0 {
        Some(Piece { color: PieceColor::White, piece_type: spec_back_rank_kind(f) })
    } else if r == 1 {
        Some(Piece { color: PieceColor::White, piece_type: PieceType::Pawn })
    } else if r == 6 {
        Some(Piece { color: PieceColor::Black, piece_type: PieceType::Pawn })
    } else if r == 7 {
        Some(Piece { color: PieceColor::Black, piece_type: spec_back_rank_kind(f) })
    } else {
        None
    }
}

/// Exec counterpart of [`spec_starting_piece`].
fn starting_piece(r: u8, f: u8) -> (p: Option<Piece>)
    ensures
        p == spec_starting_piece(r as int, f as int),
{
    if r == 0 || r == 7 {
        let color = if r == 0 {
            PieceColor::White
        } else {
            PieceColor::Black
        };
        let kind = if f == 0 || f == 7 {
            PieceType::Rook
        } else if f == 1 || f == 6 {
            PieceType::Knight
        } else if f == 2 || f == 5 {
            PieceType::Bishop
        } else if f == 3 {
            PieceType::Queen
        } else {
            PieceType::King
        };
        Some(Piece { color, piece_type: kind })
    } else if r == 1 {
        Some(Piece { color: PieceColor::White, piece_type: PieceType::Pawn })
    } else if r == 6 {
        Some(Piece { color: PieceColor::Black, piece_type: PieceType::Pawn })
    } else {
        None
    }
}

/// Builds the 8x8 grid whose square at `(r, f)` carries `occ[flat_index(r, f)]`.
fn build_grid(occ: &Vec<Option<Piece>>) -> (g: Vec<Vec<Square>>)
    requires
        occ@.len() == 64,
    ensures
        g@.len() == 8,
        forall|r: int| 0 <= r < 8 ==> (#[trigger] g@[r])@.len() == 8,
        forall|r: int, f: int|
            0 <= r < 8 && 0 <= f < 8 ==> (#[trigger] g@[r]@[f]) == (Square {
                rank: r as u8,
                file: f as u8,
                piece: occ@[flat_index(r, f)],
            }),
{
    let mut g: Vec<Vec<Square>> = Vec::new();
    let mut r: usize = 0;
    while r < 8
        invariant
            r <= 8,
            g@.len() == r,
            occ@.len() == 64,
            forall|rr: int| 0 <= rr < r ==> (#[trigger] g@[rr])@.len() == 8,
            forall|rr: int, f: int|
                0 <= rr < r && 0 <= f < 8 ==> (#[trigger] g@[rr]@[f]) == (Square {
                    rank: rr as u8,
                    file: f as u8,
                    piece: occ@[flat_index(rr, f)],
                }),
        decreases 8 - r,
    {
        let mut row: Vec<Square> = Vec::new();
        let mut f: usize = 0;
        while f < 8
            invariant
                f <= 8,
                r < 8,
                row@.len() == f,
                occ@.len() == 64,
                forall|ff: int|
                    0 <= ff < f ==> (#[trigger] row@[ff]) == (Square {
                        rank: r as u8,
                        file: ff as u8,
                        piece: occ@[flat_index(r as int, ff)],
                    }),
            decreases 8 - f,
        {
            row.push(Square { rank: r as u8, file: f as u8, piece: occ[r * 8 + f] });
            f += 1;
        }
        g.push(row);
        r += 1;
    }
    g
}

impl GameBoard {
    /// The grid is 8x8 and every square carries its own coordinate.
    pub open spec fn wf(self) -> bool {
        &&& self.squares@.len() == 8
        &&& forall|r: int| 0 <= r < 8 ==> (#[trigger] self.squares@[r])@.len() == 8
        &&& forall|r: int, f: int|
            0 <= r < 8 && 0 <= f < 8 ==> (#[trigger] self.squares@[r]@[f]) == (Square {
                rank: r as u8,
                file: f as u8,
                piece: self.squares@[r]@[f].piece,
            })
    }

    /// The occupancy of coordinate `(r, f)`.
    pub open spec fn piece_at(self, r: int, f: int) -> Option<Piece> {
        self.squares@[r]@[f].piece
    }

    /// A snapshot of the standard starting position.
    pub fn new() -> (r: Result<GameBoard, SnapshotParseError>)
        ensures
            r matches Ok(b) && b.wf() && forall|rk: int, f: int|
                0 <= rk < 8 && 0 <= f < 8 ==> #[trigger] b.piece_at(rk, f) == spec_starting_piece(
                    rk,
                    f,
                ),
    {
        let mut occ: Vec<Option<Piece>> = Vec::new();
        let mut r: usize = 0;
        while r < 8
            invariant
                r <= 8,
                occ@.len() == 8 * r,
                forall|rr: int, ff: int|
                    0 <= rr && 0 <= ff < 8 && flat_index(rr, ff) < 8 * r ==> occ@[flat_index(
                        rr,
                        ff,
                    )] == spec_starting_piece(rr, ff),
            decreases 8 - r,
        {
            let mut f: usize = 0;
            while f < 8
                invariant
                    f <= 8,
                    r < 8,
                    occ@.len() == 8 * r + f,
                    forall|rr: int, ff: int|
                        0 <= rr && 0 <= ff < 8 && flat_index(rr, ff) < 8 * r + f ==> occ@[flat_index(
                            rr,
                            ff,
                        )] == spec_starting_piece(rr, ff),
                decreases 8 - f,
            {
                occ.push(starting_piece(r as u8, f as u8));
                f += 1;
            }
            r += 1;
        }
        let g = build_grid(&occ);
        Ok(GameBoard { squares: g })
    }

    /// Builds a snapshot from a list of observed square descriptions, each
    /// naming a piece and the coordinate it stands on; every coordinate not
    /// named stays empty, and a later description of the same coordinate
    /// overwrites an earlier one. A description that cannot be parsed
    /// rejects the whole snapshot.
    pub fn from(square_info_list: &Vec<String>) -> (r: Result<GameBoard, SnapshotParseError>)
        ensures
            r matches Ok(b) ==> ({
                &&& spec_occupancy_of_infos(square_info_list.deep_view()) matches Some(m)
                &&& b.wf()
                &&& forall|rk: int, f: int|
                    0 <= rk < 8 && 0 <= f < 8 ==> #[trigger] b.piece_at(rk, f) == (
                    if spec_occupancy_of_infos(square_info_list.deep_view()).unwrap().contains_key(
                        (rk, f),
                    ) {
                        Some(spec_occupancy_of_infos(square_info_list.deep_view()).unwrap()[(rk, f)])
                    } else {
                        None
                    })
            }),
            r is Err <==> spec_occupancy_of_infos(square_info_list.deep_view()) is None,
    {
        let ghost infos = square_info_list.deep_view();
        let mut occ: Vec<Option<Piece>> = Vec::new();
        let mut k: usize = 0;
        while k < 64
            invariant
                k <= 64,
                occ@.len() == k,
                forall|t: int| 0 <= t < k ==> occ@[t] is None,
            decreases 64 - k,
        {
            occ.push(None);
            k += 1;
        }
        let ghost mut m: Map<(int, int), Piece> = Map::empty();
        let mut i: usize = 0;
        while i < square_info_list.len()
            invariant
                i <= square_info_list@.len(),
                infos == square_info_list.deep_view(),
                infos.len() == square_info_list@.len(),
                occ@.len() == 64,
                spec_occupancy_of_infos(infos.take(i as int)) == Some(m),
                forall|rk: int, f: int|
                    0 <= rk < 8 && 0 <= f < 8 ==> occ@[flat_index(rk, f)] == (if m.contains_key(
                        (rk, f),
                    ) {
                        Some(m[(rk, f)])
                    } else {
                        None::<Piece>
                    }),
            decreases square_info_list@.len() - i,
        {
            let entry = &square_info_list[i];
            proof {
                assert(infos[i as int] =~= entry@);
            }
            match parse_square_info(entry) {
                Err(_) => {
                    proof {
                        lemma_occupancy_none(infos, i as int);
                    }
                    return Err(SnapshotParseError);
                },
                Ok((piece, ri, fi)) => {
                    occ.set(ri * 8 + fi, Some(piece));
                    proof {
                        m = m.insert((ri as int, fi as int), piece);
                        assert(infos.take(i + 1).drop_last() =~= infos.take(i as int));
                        assert(infos.take(i + 1).last() == infos[i as int]);
                        assert(spec_occupancy_of_infos(infos.take(i + 1)) == Some(m));
                        assert forall|rk: int, f: int| 0 <= rk < 8 && 0 <= f < 8 implies occ@[flat_index(
                            rk,
                            f,
                        )] == (if m.contains_key((rk, f)) {
                            Some(m[(rk, f)])
                        } else {
                            None::<Piece>
                        }) by {
                            if flat_index(rk, f) == flat_index(ri as int, fi as int) {
                                assert(rk == ri && f == fi);
                            }
                        };
                    }
                },
            }
            i += 1;
        }
        proof {
            assert(infos.take(infos.len() as int) =~= infos);
        }
        let g = build_grid(&occ);
        Ok(GameBoard { squares: g })
    }

    /// An 8x8 grid of empty squares, each knowing its coordinate.
    pub fn get_empty_squares() -> (g: Vec<Vec<Square>>)
        ensures
            g@.len() == 8,
            forall|r: int| 0 <= r < 8 ==> (#[trigger] g@[r])@.len() == 8,
            forall|r: int, f: int|
                0 <= r < 8 && 0 <= f < 8 ==> (#[trigger] g@[r]@[f]) == (Square {
                    rank: r as u8,
                    file: f as u8,
                    piece: None,
                }),
    {
        let mut occ: Vec<Option<Piece>> = Vec::new();
        let mut i: usize = 0;
        while i < 64
            invariant
                i <= 64,
                occ@.len() == i,
                forall|k: int| 0 <= k < i ==> occ@[k] is None,
            decreases 64 - i,
        {
            occ.push(None);
            i += 1;
        }
        build_grid(&occ)
    }

    /// Overwrites this snapshot with the occupancy of `new_board`.
    pub fn set_state(&mut self, new_board: &GameBoard)
        requires
            new_board.wf(),
        ensures
            final(self).wf(),
            forall|r: int, f: int|
                0 <= r < 8 && 0 <= f < 8 ==> #[trigger] final(self).piece_at(r, f)
                    == new_board.piece_at(r, f),
    {
        let mut occ: Vec<Option<Piece>> = Vec::new();
        let mut r: usize = 0;
        while r < 8
            invariant
                r <= 8,
                new_board.wf(),
                occ@.len() == 8 * r,
                forall|rr: int, ff: int|
                    0 <= rr && 0 <= ff < 8 && flat_index(rr, ff) < 8 * r ==> occ@[flat_index(
                        rr,
                        ff,
                    )] == new_board.piece_at(rr, ff),
            decreases 8 - r,
        {
            let mut f: usize = 0;
            while f < 8
                invariant
                    f <= 8,
                    r < 8,
                    new_board.wf(),
                    occ@.len() == 8 * r + f,
                    forall|rr: int, ff: int|
                        0 <= rr && 0 <= ff < 8 && flat_index(rr, ff) < 8 * r + f ==> occ@[flat_index(
                            rr,
                            ff,
                        )] == new_board.piece_at(rr, ff),
                decreases 8 - f,
            {
                occ.push(new_board.squares[r][f].piece);
                f += 1;
            }
            r += 1;
        }
        let g = build_grid(&occ);
        self.squares = g;
    }
}

/// True for a two-character token: a piece description `<color><kind>`.
pub open spec fn spec_is_len2(t: Seq<char>) -> bool {
    t.len() == 2
}

/// True for a token naming a coordinate: `square-` followed by a file digit
/// and a rank digit.
pub open spec fn spec_is_square_token(t: Seq<char>) -> bool {
    t.len() >= 7 && t[0] == 's' && t[1] == 'q' && t[2] == 'u' && t[3] == 'a' && t[4] == 'r' && t[5]
        == 'e' && t[6] == '-'
}

/// The first two-character token, if any.
pub open spec fn spec_first_len2(tokens: Seq<Seq<char>>) -> Option<Seq<char>>
    decreases tokens.len(),
{
    if tokens.len() == 0 {
        None
    } else if spec_is_len2(tokens[0]) {
        Some(tokens[0])
    } else {
        spec_first_len2(tokens.drop_first())
    }
}

/// The first coordinate token, if any.
pub open spec fn spec_first_square_token(tokens: Seq<Seq<char>>) -> Option<Seq<char>>
    decreases tokens.len(),
{
    if tokens.len() == 0 {
        None
    } else if spec_is_square_token(tokens[0]) {
        Some(tokens[0])
    } else {
        spec_first_square_token(tokens.drop_first())
    }
}

proof fn lemma_first_len2_skip(tokens: Seq<Seq<char>>, j: int)
    requires
        0 <= j <= tokens.len(),
        forall|k: int| 0 <= k < j ==> !spec_is_len2(tokens[k]),
    ensures
        spec_first_len2(tokens) == spec_first_len2(tokens.skip(j)),
    decreases j,
{
    if j > 0 {
        lemma_first_len2_skip(tokens.drop_first(), j - 1);
        assert(tokens.drop_first().skip(j - 1) =~= tokens.skip(j));
    } else {
        assert(tokens.skip(0) =~= tokens);
    }
}

proof fn lemma_first_square_token_skip(tokens: Seq<Seq<char>>, j: int)
    requires
        0 <= j <= tokens.len(),
        forall|k: int| 0 <= k < j ==> !spec_is_square_token(tokens[k]),
    ensures
        spec_first_square_token(tokens) == spec_first_square_token(tokens.skip(j)),
    decreases j,
{
    if j > 0 {
        lemma_first_square_token_skip(tokens.drop_first(), j - 1);
        assert(tokens.drop_first().skip(j - 1) =~= tokens.skip(j));
    } else {
        assert(tokens.skip(0) =~= tokens);
    }
}

/// The piece and 0-based board coordinate described by one observed square
/// description, if it parses: the first two-character token is
/// `<color><kind>`, and the first `square-` token carries the 1-based file
/// and rank digits. The result is `(piece, rank_index, file_index)`.
pub open spec fn spec_parse_square_info(s: Seq<char>) -> Option<(Piece, usize, usize)> {
    let tokens = spec_split_ws(s);
    match (spec_first_len2(tokens), spec_first_square_token(tokens)) {
        (Some(pt), Some(ct)) => {
            match (spec_color_of_char(pt[0]), spec_kind_of_char(pt[1])) {
                (Some(color), Some(kind)) => {
                    if ct.len() >= 9 {
                        match (spec_rank_of_char(ct[7]), spec_rank_of_char(ct[8])) {
                            (Some(fi), Some(ri)) => Some(
                                (Piece { color, piece_type: kind }, ri as usize, fi as usize),
                            ),
                            _ => None,
                        }
                    } else {
                        None
                    }
                },
                _ => None,
            }
        },
        _ => None,
    }
}

/// The occupancy described by a list of observed square descriptions,
/// applied in order (a later description of the same coordinate overwrites
/// an earlier one); `None` if any description fails to parse.
pub open spec fn spec_occupancy_of_infos(infos: Seq<Seq<char>>) -> Option<Map<(int, int), Piece>>
    decreases infos.len(),
{
    if infos.len() == 0 {
        Some(Map::empty())
    } else {
        match (spec_occupancy_of_infos(infos.drop_last()), spec_parse_square_info(infos.last())) {
            (Some(m), Some(p)) => Some(m.insert((p.1 as int, p.2 as int), p.0)),
            _ => None,
        }
    }
}

proof fn lemma_occupancy_none(infos: Seq<Seq<char>>, i: int)
    requires
        0 <= i < infos.len(),
        spec_parse_square_info(infos[i]) is None,
    ensures
        spec_occupancy_of_infos(infos) is None,
    decreases infos.len(),
{
    if i < infos.len() - 1 {
        assert(infos.drop_last()[i] == infos[i]);
        lemma_occupancy_none(infos.drop_last(), i);
    }
}

/// The index of the first two-character token, if any.
fn find_len2_token(tokens: &Vec<Vec<char>>) -> (r: Option<usize>)
    ensures
        ({
            let fm = spec_first_len2(tokens.deep_view());
            match r {
                Some(j) => j < tokens@.len() && fm == Some(tokens.deep_view()[j as int])
                    && spec_is_len2(tokens.deep_view()[j as int]),
                None => fm is None,
            }
        }),
{
    let ghost dv = tokens.deep_view();
    let mut j: usize = 0;
    while j < tokens.len()
        invariant
            j <= tokens@.len(),
            dv == tokens.deep_view(),
            dv.len() == tokens@.len(),
            forall|k: int| 0 <= k < j ==> !spec_is_len2(dv[k]),
        decreases tokens@.len() - j,
    {
        proof {
            assert(dv[j as int] =~= tokens@[j as int]@);
        }
        if tokens[j].len() == 2 {
            proof {
                lemma_first_len2_skip(dv, j as int);
                assert(dv.skip(j as int)[0] == dv[j as int]);
            }
            return Some(j);
        }
        j += 1;
    }
    proof {
        lemma_first_len2_skip(dv, dv.len() as int);
        assert(dv.skip(dv.len() as int) =~= Seq::empty());
    }
    None
}

/// The index of the first coordinate token, if any.
fn find_square_token(tokens: &Vec<Vec<char>>) -> (r: Option<usize>)
    ensures
        ({
            let fm = spec_first_square_token(tokens.deep_view());
            match r {
                Some(j) => j < tokens@.len() && fm == Some(tokens.deep_view()[j as int])
                    && spec_is_square_token(tokens.deep_view()[j as int]),
                None => fm is None,
            }
        }),
{
    let ghost dv = tokens.deep_view();
    let mut j: usize = 0;
    while j < tokens.len()
        invariant
            j <= tokens@.len(),
            dv == tokens.deep_view(),
            dv.len() == tokens@.len(),
            forall|k: int| 0 <= k < j ==> !spec_is_square_token(dv[k]),
        decreases tokens@.len() - j,
    {
        proof {
            assert(dv[j as int] =~= tokens@[j as int]@);
        }
        let t = &tokens[j];
        let is_square = t.len() >= 7 && t[0] == 's' && t[1] == 'q' && t[2] == 'u' && t[3] == 'a'
            && t[4] == 'r' && t[5] == 'e' && t[6] == '-';
        if is_square {
            proof {
                lemma_first_square_token_skip(dv, j as int);
                assert(dv.skip(j as int)[0] == dv[j as int]);
            }
            return Some(j);
        }
        j += 1;
    }
    proof {
        lemma_first_square_token_skip(dv, dv.len() as int);
        assert(dv.skip(dv.len() as int) =~= Seq::empty());
    }
    None
}

/// Parses one observed square description into a piece and its 0-based
/// `(rank_index, file_index)` coordinate.
fn parse_square_info(info: &String) -> (r: Result<(Piece, usize, usize), SnapshotParseError>)
    ensures
        r matches Ok(p) ==> spec_parse_square_info(info@) == Some(p) && p.1 < 8 && p.2 < 8,
        r is Err <==> spec_parse_square_info(info@) is None,
{
    let chars = str_to_chars(info.as_str());
    let tokens = split_ws(&chars);
    let ghost dv = tokens.deep_view();
    let pt_idx = match find_len2_token(&tokens) {
        Some(j) => j,
        None => {
            return Err(SnapshotParseError);
        },
    };
    let ct_idx = match find_square_token(&tokens) {
        Some(j) => j,
        None => {
            return Err(SnapshotParseError);
        },
    };
    let pt = &tokens[pt_idx];
    let ct = &tokens[ct_idx];
    proof {
        assert(dv[pt_idx as int] =~= pt@);
        assert(dv[ct_idx as int] =~= ct@);
    }
    let color = match Piece::chess_dot_com_char_to_piece_color(pt[0]) {
        Ok(c) => c,
        Err(_) => {
            return Err(SnapshotParseError);
        },
    };
    let kind = match Piece::chess_dot_com_char_to_piece_type(pt[1]) {
        Ok(k) => k,
        Err(_) => {
            return Err(SnapshotParseError);
        },
    };
    if ct.len() < 9 {
        return Err(SnapshotParseError);
    }
    let fi = match Square::chess_dot_com_index_char_to_index(ct[7]) {
        Ok(i) => i,
        Err(_) => {
            return Err(SnapshotParseError);
        },
    };
    let ri = match Square::chess_dot_com_index_char_to_index(ct[8]) {
        Ok(i) => i,
        Err(_) => {
            return Err(SnapshotParseError);
        },
    };
    Ok((Piece { color, piece_type: kind }, ri, fi))
}

/// True when the two snapshots disagree at `(r, f)`.
pub open spec fn spec_differs(b1: GameBoard, b2: GameBoard, r: int, f: int) -> bool {
    b1.piece_at(r, f) != b2.piece_at(r, f)
}

/// The coordinates where the two snapshots disagree, from `(r, f)` onwards
/// in rank-major order.
pub open spec fn spec_diffs_from(b1: GameBoard, b2: GameBoard, r: int, f: int) -> Seq<
    (usize, usize),
>
    decreases 8 - r, 8 - f,
{
    if r < 0 || f < 0 || r >= 8 {
        Seq::empty()
    } else if f >= 8 {
        spec_diffs_from(b1, b2, r + 1, 0)
    } else if spec_differs(b1, b2, r, f) {
        seq![(r as usize, f as usize)] + spec_diffs_from(b1, b2, r, f + 1)
    } else {
        spec_diffs_from(b1, b2, r, f + 1)
    }
}

/// All coordinates where the two snapshots disagree, in ascending rank-major
/// order.
pub open spec fn spec_diffs(b1: GameBoard, b2: GameBoard) -> Seq<(usize, usize)> {
    spec_diffs_from(b1, b2, 0, 0)
}

/// Strict rank-major order on coordinates.
pub open spec fn coord_lt(a: (usize, usize), b: (usize, usize)) -> bool {
    a.0 < b.0 || (a.0 == b.0 && a.1 < b.1)
}

/// The differing coordinates from `(r, f)` onwards are exactly the in-range
/// coordinates at or after `(r, f)` where the snapshots disagree, listed in
/// strictly ascending rank-major order.
proof fn lemma_diffs_from_elems(b1: GameBoard, b2: GameBoard, r: int, f: int)
    requires
        0 <= r,
        0 <= f,
    ensures
        forall|c: (usize, usize)| #[trigger]
            spec_diffs_from(b1, b2, r, f).contains(c) <==> (c.0 < 8 && c.1 < 8 && spec_differs(
                b1,
                b2,
                c.0 as int,
                c.1 as int,
            ) && (c.0 > r || (c.0 == r && c.1 >= f))),
        forall|i: int, j: int|
            0 <= i < j < spec_diffs_from(b1, b2, r, f).len() ==> coord_lt(
                spec_diffs_from(b1, b2, r, f)[i],
                spec_diffs_from(b1, b2, r, f)[j],
            ),
    decreases 8 - r, 8 - f,
{
    let d = spec_diffs_from(b1, b2, r, f);
    if r >= 8 {
        assert(forall|c: (usize, usize)| !(#[trigger] d.contains(c)));
    } else if f >= 8 {
        lemma_diffs_from_elems(b1, b2, r + 1, 0);
        let rest = spec_diffs_from(b1, b2, r + 1, 0);
        assert(d == rest);
        assert forall|c: (usize, usize)| #[trigger]
            d.contains(c) <==> (c.0 < 8 && c.1 < 8 && spec_differs(b1, b2, c.0 as int, c.1 as int)
                && (c.0 > r || (c.0 == r && c.1 >= f))) by {
            assert(rest.contains(c) <==> (c.0 < 8 && c.1 < 8 && spec_differs(
                b1,
                b2,
                c.0 as int,
                c.1 as int,
            ) && (c.0 > r + 1 || (c.0 == r + 1 && c.1 >= 0))));
        };
    } else if spec_differs(b1, b2, r, f) {
        lemma_diffs_from_elems(b1, b2, r, f + 1);
        let a = (r as usize, f as usize);
        let rest = spec_diffs_from(b1, b2, r, f + 1);
        assert forall|c: (usize, usize)| #[trigger] d.contains(c) implies (c == a || rest.contains(
            c,
        )) by {
            let i = choose|i: int| 0 <= i < d.len() && d[i] == c;
            if i > 0 {
                assert(rest[i - 1] == c);
            }
        };
        assert forall|c: (usize, usize)| rest.contains(c) implies d.contains(c) by {
            let i = choose|i: int| 0 <= i < rest.len() && rest[i] == c;
            assert(d[i + 1] == c);
        };
        assert(d[0] == a);
        assert(d.contains(a));
        assert forall|i: int, j: int| 0 <= i < j < d.len() implies coord_lt(d[i], d[j]) by {
            assert(d[j] == rest[j - 1]);
            assert(rest.contains(rest[j - 1]));
            if i > 0 {
                assert(d[i] == rest[i - 1]);
            }
        };
    } else {
        lemma_diffs_from_elems(b1, b2, r, f + 1);
        let rest = spec_diffs_from(b1, b2, r, f + 1);
        assert(d == rest);
        assert forall|c: (usize, usize)| #[trigger]
            d.contains(c) <==> (c.0 < 8 && c.1 < 8 && spec_differs(b1, b2, c.0 as int, c.1 as int)
                && (c.0 > r || (c.0 == r && c.1 >= f))) by {
            assert(rest.contains(c) <==> (c.0 < 8 && c.1 < 8 && spec_differs(
                b1,
                b2,
                c.0 as int,
                c.1 as int,
            ) && (c.0 > r || (c.0 == r && c.1 >= f + 1))));
        };
    }
}

/// Packaged form of [`lemma_diffs_from_elems`] for the whole board.
pub proof fn lemma_diffs_elems(b1: GameBoard, b2: GameBoard)
    ensures
        forall|c: (usize, usize)| #[trigger]
            spec_diffs(b1, b2).contains(c) <==> (c.0 < 8 && c.1 < 8 && spec_differs(
                b1,
                b2,
                c.0 as int,
                c.1 as int,
            )),
        forall|i: int, j: int|
            0 <= i < j < spec_diffs(b1, b2).len() ==> coord_lt(
                spec_diffs(b1, b2)[i],
                spec_diffs(b1, b2)[j],
            ),
{
    lemma_diffs_from_elems(b1, b2, 0, 0);
}

/// The move from `origin` to `dest`: the origin square as it stood before
/// the move, the destination square as it stands after it, and the promotion
/// those two occupancies imply.
pub open spec fn spec_move_between(
    b1: GameBoard,
    b2: GameBoard,
    origin: (usize, usize),
    dest: (usize, usize),
) -> ChessMove {
    let start = Square {
        rank: origin.0 as u8,
        file: origin.1 as u8,
        piece: b1.piece_at(origin.0 as int, origin.1 as int),
    };
    let end = Square {
        rank: dest.0 as u8,
        file: dest.1 as u8,
        piece: b2.piece_at(dest.0 as int, dest.1 as int),
    };
    ChessMove { start, end, promotion: spec_promotion_of_squares(start, end) }
}

/// Whether `c` is occupied in `b`.
pub open spec fn spec_occupied(b: GameBoard, c: (usize, usize)) -> bool {
    b.piece_at(c.0 as int, c.1 as int) is Some
}

/// Classifies a two-square difference: the square left empty in the new
/// snapshot is the origin and the occupied one the destination; if neither
/// or both are empty, no single move explains the difference.
pub open spec fn spec_standard_move(b1: GameBoard, b2: GameBoard, d: Seq<(usize, usize)>) -> Option<
    ChessMove,
> {
    let occ0 = spec_occupied(b2, d[0]);
    let occ1 = spec_occupied(b2, d[1]);
    if !occ0 && occ1 {
        Some(spec_move_between(b1, b2, d[0], d[1]))
    } else if occ0 && !occ1 {
        Some(spec_move_between(b1, b2, d[1], d[0]))
    } else {
        None
    }
}

/// Classifies a three-square difference as an en passant capture: the single
/// square occupied in the new snapshot is the destination, and the origin is
/// the single remaining square whose file differs from the destination's
/// (the captured pawn sits on the destination's file, one rank back).
pub open spec fn spec_en_passant_move(
    b1: GameBoard,
    b2: GameBoard,
    d: Seq<(usize, usize)>,
) -> Option<ChessMove> {
    let occ0 = spec_occupied(b2, d[0]);
    let occ1 = spec_occupied(b2, d[1]);
    let occ2 = spec_occupied(b2, d[2]);
    if occ0 && !occ1 && !occ2 {
        spec_en_passant_origin(b1, b2, d[0], d[1], d[2])
    } else if !occ0 && occ1 && !occ2 {
        spec_en_passant_origin(b1, b2, d[1], d[0], d[2])
    } else if !occ0 && !occ1 && occ2 {
        spec_en_passant_origin(b1, b2, d[2], d[0], d[1])
    } else {
        None
    }
}

/// Picks the en passant origin among the two non-destination squares: the
/// one on a file different from the destination's, required to be unique.
pub open spec fn spec_en_passant_origin(
    b1: GameBoard,
    b2: GameBoard,
    dest: (usize, usize),
    c1: (usize, usize),
    c2: (usize, usize),
) -> Option<ChessMove> {
    let c1_other_file = c1.1 != dest.1;
    let c2_other_file = c2.1 != dest.1;
    if c1_other_file && !c2_other_file {
        Some(spec_move_between(b1, b2, c1, dest))
    } else if !c1_other_file && c2_other_file {
        Some(spec_move_between(b1, b2, c2, dest))
    } else {
        None
    }
}

/// Classifies a four-square difference as a castle: the home coordinate of
/// the king (file 4, rank 0 or 7) present among the changes names the rank,
/// and the king ends on file 6 (king side) when that changed, else file 2.
pub open spec fn spec_castle_move(b1: GameBoard, b2: GameBoard, d: Seq<(usize, usize)>) -> ChessMove {
    let king_rank: usize = if d.contains((0usize, 4usize)) {
        0
    } else {
        7
    };
    let end_file: usize = if d.contains((king_rank, 6usize)) {
        6
    } else {
        2
    };
    spec_move_between(b1, b2, (king_rank, 4usize), (king_rank, end_file))
}

/// The full classification of a snapshot difference by its changed-square
/// count: `Some(answer)` when some single move (or no move at all) explains
/// it, `None` when the difference is a desync that must be surfaced.
pub open spec fn spec_classify(b1: GameBoard, b2: GameBoard, d: Seq<(usize, usize)>) -> Option<
    Option<ChessMove>,
> {
    if d.len() == 0 {
        Some(None)
    } else if d.len() == 2 {
        match spec_standard_move(b1, b2, d) {
            Some(m) => Some(Some(m)),
            None => None,
        }
    } else if d.len() == 3 {
        match spec_en_passant_move(b1, b2, d) {
            Some(m) => Some(Some(m)),
            None => None,
        }
    } else if d.len() == 4 {
        Some(Some(spec_castle_move(b1, b2, d)))
    } else {
        None
    }
}

/// The rank a pawn of the given color starts on.
pub open spec fn pawn_start_rank(color: PieceColor) -> int {
    if color == PieceColor::White {
        1
    } else {
        6
    }
}

/// The rank a pawn of the given color reaches by a double advance from its
/// starting rank.
pub open spec fn pawn_double_rank(color: PieceColor) -> int {
    if color == PieceColor::White {
        3
    } else {
        4
    }
}

/// The two snapshots differ exactly at the two distinct coordinates given:
/// then their difference list is those two coordinates, in some order.
proof fn lemma_diffs_pair(b1: GameBoard, b2: GameBoard, c0: (usize, usize), c1: (usize, usize))
    requires
        c0 != c1,
        c0.0 < 8 && c0.1 < 8 && c1.0 < 8 && c1.1 < 8,
        spec_differs(b1, b2, c0.0 as int, c0.1 as int),
        spec_differs(b1, b2, c1.0 as int, c1.1 as int),
        forall|r: int, f: int|
            0 <= r < 8 && 0 <= f < 8 && (r as usize, f as usize) != c0 && (r as usize, f as usize)
                != c1 ==> !spec_differs(b1, b2, r, f),
    ensures
        spec_diffs(b1, b2).len() == 2,
        (spec_diffs(b1, b2)[0] == c0 && spec_diffs(b1, b2)[1] == c1) || (spec_diffs(b1, b2)[0] == c1
            && spec_diffs(b1, b2)[1] == c0),
{
    lemma_diffs_elems(b1, b2);
    let d = spec_diffs(b1, b2);
    assert(d.contains(c0));
    assert(d.contains(c1));
    let i0 = choose|i: int| 0 <= i < d.len() && d[i] == c0;
    let i1 = choose|i: int| 0 <= i < d.len() && d[i] == c1;
    assert(i0 != i1);
    assert forall|i: int| 0 <= i < d.len() implies (d[i] == c0 || d[i] == c1) by {
        assert(d.contains(d[i]));
    };
    if d.len() >= 3 {
        assert(coord_lt(d[0], d[1]) && coord_lt(d[1], d[2]) && coord_lt(d[0], d[2]));
        assert(false);
    }
    assert(d.len() == 2);
}

/// The two snapshots differ exactly at the three distinct coordinates
/// given: then their difference list is those three, in some order.
proof fn lemma_diffs_triple(
    b1: GameBoard,
    b2: GameBoard,
    c0: (usize, usize),
    c1: (usize, usize),
    c2: (usize, usize),
)
    requires
        c0 != c1 && c0 != c2 && c1 != c2,
        c0.0 < 8 && c0.1 < 8 && c1.0 < 8 && c1.1 < 8 && c2.0 < 8 && c2.1 < 8,
        spec_differs(b1, b2, c0.0 as int, c0.1 as int),
        spec_differs(b1, b2, c1.0 as int, c1.1 as int),
        spec_differs(b1, b2, c2.0 as int, c2.1 as int),
        forall|r: int, f: int|
            0 <= r < 8 && 0 <= f < 8 && (r as usize, f as usize) != c0 && (r as usize, f as usize)
                != c1 && (r as usize, f as usize) != c2 ==> !spec_differs(b1, b2, r, f),
    ensures
        spec_diffs(b1, b2).len() == 3,
        spec_diffs(b1, b2).contains(c0),
        spec_diffs(b1, b2).contains(c1),
        spec_diffs(b1, b2).contains(c2),
        forall|i: int|
            0 <= i < 3 ==> (#[trigger] spec_diffs(b1, b2)[i] == c0 || spec_diffs(b1, b2)[i] == c1
                || spec_diffs(b1, b2)[i] == c2),
        spec_diffs(b1, b2)[0] != spec_diffs(b1, b2)[1] && spec_diffs(b1, b2)[0] != spec_diffs(
            b1,
            b2,
        )[2] && spec_diffs(b1, b2)[1] != spec_diffs(b1, b2)[2],
{
    lemma_diffs_elems(b1, b2);
    let d = spec_diffs(b1, b2);
    assert(d.contains(c0));
    assert(d.contains(c1));
    assert(d.contains(c2));
    let i0 = choose|i: int| 0 <= i < d.len() && d[i] == c0;
    let i1 = choose|i: int| 0 <= i < d.len() && d[i] == c1;
    let i2 = choose|i: int| 0 <= i < d.len() && d[i] == c2;
    assert(i0 != i1 && i0 != i2 && i1 != i2);
    assert forall|i: int| 0 <= i < d.len() implies (d[i] == c0 || d[i] == c1 || d[i] == c2) by {
        assert(d.contains(d[i]));
    };
    if d.len() >= 4 {
        assert(coord_lt(d[0], d[1]) && coord_lt(d[1], d[2]) && coord_lt(d[2], d[3]));
        assert(coord_lt(d[0], d[2]) && coord_lt(d[0], d[3]) && coord_lt(d[1], d[3]));
        assert(false);
    }
    assert(d.len() == 3);
    assert(coord_lt(d[0], d[1]) && coord_lt(d[1], d[2]) && coord_lt(d[0], d[2]));
}

/// The two snapshots differ exactly at the four distinct coordinates given:
/// then their difference list is those four, in some order.
proof fn lemma_diffs_quad(
    b1: GameBoard,
    b2: GameBoard,
    c0: (usize, usize),
    c1: (usize, usize),
    c2: (usize, usize),
    c3: (usize, usize),
)
    requires
        c0 != c1 && c0 != c2 && c0 != c3 && c1 != c2 && c1 != c3 && c2 != c3,
        c0.0 < 8 && c0.1 < 8 && c1.0 < 8 && c1.1 < 8 && c2.0 < 8 && c2.1 < 8 && c3.0 < 8 && c3.1
            < 8,
        spec_differs(b1, b2, c0.0 as int, c0.1 as int),
        spec_differs(b1, b2, c1.0 as int, c1.1 as int),
        spec_differs(b1, b2, c2.0 as int, c2.1 as int),
        spec_differs(b1, b2, c3.0 as int, c3.1 as int),
        forall|r: int, f: int|
            0 <= r < 8 && 0 <= f < 8 && (r as usize, f as usize) != c0 && (r as usize, f as usize)
                != c1 && (r as usize, f as usize) != c2 && (r as usize, f as usize) != c3
                ==> !spec_differs(b1, b2, r, f),
    ensures
        spec_diffs(b1, b2).len() == 4,
        spec_diffs(b1, b2).contains(c0),
        spec_diffs(b1, b2).contains(c1),
        spec_diffs(b1, b2).contains(c2),
        spec_diffs(b1, b2).contains(c3),
{
    lemma_diffs_elems(b1, b2);
    let d = spec_diffs(b1, b2);
    assert(d.contains(c0));
    assert(d.contains(c1));
    assert(d.contains(c2));
    assert(d.contains(c3));
    let i0 = choose|i: int| 0 <= i < d.len() && d[i] == c0;
    let i1 = choose|i: int| 0 <= i < d.len() && d[i] == c1;
    let i2 = choose|i: int| 0 <= i < d.len() && d[i] == c2;
    let i3 = choose|i: int| 0 <= i < d.len() && d[i] == c3;
    assert(i0 != i1 && i0 != i2 && i0 != i3 && i1 != i2 && i1 != i3 && i2 != i3);
    assert forall|i: int| 0 <= i < d.len() implies (d[i] == c0 || d[i] == c1 || d[i] == c2 || d[i]
        == c3) by {
        assert(d.contains(d[i]));
    };
    if d.len() >= 5 {
        assert(coord_lt(d[0], d[1]) && coord_lt(d[1], d[2]) && coord_lt(d[2], d[3]) && coord_lt(
            d[3],
            d[4],
        ));
        assert(coord_lt(d[0], d[2]) && coord_lt(d[0], d[3]) && coord_lt(d[0], d[4]));
        assert(coord_lt(d[1], d[3]) && coord_lt(d[1], d[4]) && coord_lt(d[2], d[4]));
        assert(false);
    }
    assert(d.len() == 4);
}

/// Law: diffing any snapshot against itself infers that no move occurred.
pub proof fn lemma_infer_identity(b: GameBoard)
    ensures
        spec_diffs(b, b).len() == 0,
        spec_classify(b, b, spec_diffs(b, b)) == Some(None::<ChessMove>),
{
    lemma_diffs_elems(b, b);
    let d = spec_diffs(b, b);
    if d.len() > 0 {
        assert(d.contains(d[0]));
        assert(false);
    }
}

/// Law: when exactly two squares changed, the one now empty being the
/// origin and the one now occupied the destination, inference returns
/// exactly the move between them.
pub proof fn lemma_infer_standard_move(
    b1: GameBoard,
    b2: GameBoard,
    origin: (usize, usize),
    dest: (usize, usize),
)
    requires
        origin != dest,
        origin.0 < 8 && origin.1 < 8 && dest.0 < 8 && dest.1 < 8,
        spec_differs(b1, b2, origin.0 as int, origin.1 as int),
        spec_differs(b1, b2, dest.0 as int, dest.1 as int),
        forall|r: int, f: int|
            0 <= r < 8 && 0 <= f < 8 && (r as usize, f as usize) != origin && (
            r as usize,
            f as usize,
            ) != dest ==> !spec_differs(b1, b2, r, f),
        !spec_occupied(b2, origin),
        spec_occupied(b2, dest),
    ensures
        spec_classify(b1, b2, spec_diffs(b1, b2)) == Some(
            Some(spec_move_between(b1, b2, origin, dest)),
        ),
{
    lemma_diffs_pair(b1, b2, origin, dest);
}

/// Law: from the standard starting position, a board with exactly one pawn
/// advanced two ranks is inferred as that pawn's move, with no promotion.
pub proof fn lemma_infer_double_pawn_advance(
    b1: GameBoard,
    b2: GameBoard,
    color: PieceColor,
    file: usize,
)
    requires
        file < 8,
        forall|r: int, f: int|
            0 <= r < 8 && 0 <= f < 8 ==> #[trigger] b1.piece_at(r, f) == spec_starting_piece(r, f),
        b2.piece_at(pawn_start_rank(color), file as int) == None::<Piece>,
        b2.piece_at(pawn_double_rank(color), file as int) == Some(
            Piece { color, piece_type: PieceType::Pawn },
        ),
        forall|r: int, f: int|
            0 <= r < 8 && 0 <= f < 8 && !(r == pawn_start_rank(color) && f == file as int) && !(r
                == pawn_double_rank(color) && f == file as int) ==> #[trigger] b2.piece_at(r, f)
                == b1.piece_at(r, f),
    ensures
        spec_classify(b1, b2, spec_diffs(b1, b2)) == Some(
            Some(
                ChessMove {
                    start: Square {
                        rank: pawn_start_rank(color) as u8,
                        file: file as u8,
                        piece: Some(Piece { color, piece_type: PieceType::Pawn }),
                    },
                    end: Square {
                        rank: pawn_double_rank(color) as u8,
                        file: file as u8,
                        piece: Some(Piece { color, piece_type: PieceType::Pawn }),
                    },
                    promotion: None,
                },
            ),
        ),
{
    let origin = (pawn_start_rank(color) as usize, file);
    let dest = (pawn_double_rank(color) as usize, file);
    assert(b1.piece_at(origin.0 as int, origin.1 as int) == spec_starting_piece(
        pawn_start_rank(color),
        file as int,
    ));
    assert(b1.piece_at(dest.0 as int, dest.1 as int) == spec_starting_piece(
        pawn_double_rank(color),
        file as int,
    ));
    lemma_infer_standard_move(b1, b2, origin, dest);
}

/// Law: a pawn advance onto the last rank that leaves a different piece
/// kind on the destination is inferred with exactly that promotion.
pub proof fn lemma_infer_promotion(b1: GameBoard, b2: GameBoard, file: usize, promoted: Piece)
    requires
        file < 8,
        promoted.piece_type != PieceType::Pawn,
        b1.piece_at(6, file as int) matches Some(p) && p.piece_type == PieceType::Pawn,
        b2.piece_at(6, file as int) == None::<Piece>,
        b2.piece_at(7, file as int) == Some(promoted),
        b1.piece_at(7, file as int) != b2.piece_at(7, file as int),
        forall|r: int, f: int|
            0 <= r < 8 && 0 <= f < 8 && !(r == 6 && f == file as int) && !(r == 7 && f
                == file as int) ==> #[trigger] b2.piece_at(r, f) == b1.piece_at(r, f),
    ensures
        ({
            let m = spec_move_between(b1, b2, (6, file), (7, file));
            &&& spec_classify(b1, b2, spec_diffs(b1, b2)) == Some(Some(m))
            &&& m.promotion == Some(promoted.piece_type)
            &&& m.start.rank == 6 && m.start.file == file
            &&& m.end.rank == 7 && m.end.file == file
        }),
{
    lemma_infer_standard_move(b1, b2, (6, file), (7, file));
}

/// Law: a three-square difference consistent with en passant (the
/// destination occupied, the captured pawn's square and the origin now
/// empty, the captured pawn on the destination's file) is inferred as the
/// move whose origin is the square on the file *different* from the
/// destination's.
pub proof fn lemma_infer_en_passant(
    b1: GameBoard,
    b2: GameBoard,
    origin: (usize, usize),
    captured: (usize, usize),
    dest: (usize, usize),
)
    requires
        origin != captured && origin != dest && captured != dest,
        origin.0 < 8 && origin.1 < 8 && captured.0 < 8 && captured.1 < 8 && dest.0 < 8 && dest.1
            < 8,
        spec_occupied(b1, origin),
        spec_occupied(b1, captured),
        !spec_occupied(b2, origin),
        !spec_occupied(b2, captured),
        spec_occupied(b2, dest),
        spec_differs(b1, b2, dest.0 as int, dest.1 as int),
        captured.1 == dest.1,
        origin.1 != dest.1,
        forall|r: int, f: int|
            0 <= r < 8 && 0 <= f < 8 && (r as usize, f as usize) != origin && (
            r as usize,
            f as usize,
            ) != captured && (r as usize, f as usize) != dest ==> !spec_differs(b1, b2, r, f),
    ensures
        spec_classify(b1, b2, spec_diffs(b1, b2)) == Some(
            Some(spec_move_between(b1, b2, origin, dest)),
        ),
{
    lemma_diffs_triple(b1, b2, origin, captured, dest);
}

/// Law: a four-square difference matching the king-side castle pattern on
/// rank 0 is inferred as the king's move from file 4 to file 6 on rank 0.
pub proof fn lemma_infer_kingside_castle(b1: GameBoard, b2: GameBoard)
    requires
        spec_differs(b1, b2, 0, 4),
        spec_differs(b1, b2, 0, 5),
        spec_differs(b1, b2, 0, 6),
        spec_differs(b1, b2, 0, 7),
        forall|r: int, f: int|
            0 <= r < 8 && 0 <= f < 8 && !(r == 0 && 4 <= f <= 7) ==> !spec_differs(b1, b2, r, f),
    ensures
        ({
            let m = spec_move_between(b1, b2, (0, 4), (0, 6));
            &&& spec_classify(b1, b2, spec_diffs(b1, b2)) == Some(Some(m))
            &&& m.start.rank == 0 && m.start.file == 4
            &&& m.end.rank == 0 && m.end.file == 6
        }),
{
    lemma_diffs_quad(b1, b2, (0, 4), (0, 5), (0, 6), (0, 7));
    let d = spec_diffs(b1, b2);
    assert(d.contains((0usize, 4usize)));
    assert(d.contains((0usize, 6usize)));
}

/// Law: a difference of 1, 5, 6, or 7 squares fits no single move, so
/// inference surfaces it as a desync rather than guessing.
pub proof fn lemma_infer_desync_counts(b1: GameBoard, b2: GameBoard)
    requires
        spec_diffs(b1, b2).len() == 1 || spec_diffs(b1, b2).len() == 5 || spec_diffs(b1, b2).len()
            == 6 || spec_diffs(b1, b2).len() == 7,
    ensures
        spec_classify(b1, b2, spec_diffs(b1, b2)) is None,
{
}

/// Whether the coordinate list contains `c`.
fn contains_coord(v: &Vec<(usize, usize)>, c: (usize, usize)) -> (r: bool)
    ensures
        r == v@.contains(c),
{
    let mut i: usize = 0;
    while i < v.len()
        invariant
            i <= v@.len(),
            forall|k: int| 0 <= k < i ==> v@[k] != c,
        decreases v@.len() - i,
    {
        let e = v[i];
        if e.0 == c.0 && e.1 == c.1 {
            proof {
                assert(v@[i as int] == c);
            }
            return true;
        }
        i += 1;
    }
    proof {
        if v@.contains(c) {
            let k = choose|k: int| 0 <= k < v@.len() && v@[k] == c;
            assert(v@[k] != c);
        }
    }
    false
}

impl GameBoard {
    /// Diffs this snapshot (the last known state) against a newer one and
    /// produces the single move that explains the difference: no move for an
    /// unchanged board, a standard move for two changed squares, an en
    /// passant capture for three, a castle for four. Any other difference is
    /// a desync carrying the exact changed-square count and coordinates,
    /// surfaced rather than guessed at.
    pub fn get_move_from_difference(&self, new_board: &GameBoard) -> (r: Result<
        Option<ChessMove>,
        DesyncError,
    >)
        requires
            self.wf(),
            new_board.wf(),
        ensures
            r matches Ok(m) ==> spec_classify(*self, *new_board, spec_diffs(*self, *new_board))
                == Some(m),
            r matches Ok(Some(mv)) ==> mv.wf(),
            r matches Err(e) ==> spec_classify(*self, *new_board, spec_diffs(*self, *new_board))
                is None && e.count == spec_diffs(*self, *new_board).len() && e.coordinates@
                == spec_diffs(*self, *new_board),
    {
        let ghost b1 = *self;
        let ghost b2 = *new_board;
        let mut changed: Vec<(usize, usize)> = Vec::new();
        let mut rk: usize = 0;
        while rk < 8
            invariant
                self.wf(),
                new_board.wf(),
                b1 == *self,
                b2 == *new_board,
                rk <= 8,
                spec_diffs(b1, b2) == changed@ + spec_diffs_from(b1, b2, rk as int, 0),
            decreases 8 - rk,
        {
            let mut fl: usize = 0;
            while fl < 8
                invariant
                    self.wf(),
                    new_board.wf(),
                    b1 == *self,
                    b2 == *new_board,
                    rk < 8,
                    fl <= 8,
                    spec_diffs(b1, b2) == changed@ + spec_diffs_from(b1, b2, rk as int, fl as int),
                decreases 8 - fl,
            {
                let s1 = self.squares[rk][fl];
                let s2 = new_board.squares[rk][fl];
                let ghost prev = changed@;
                if !(s1 == s2) {
                    changed.push((rk, fl));
                    proof {
                        assert(spec_differs(b1, b2, rk as int, fl as int));
                        assert(changed@ =~= prev + seq![(rk, fl)]);
                        assert(changed@ + spec_diffs_from(b1, b2, rk as int, fl + 1) =~= prev + (
                        seq![(rk, fl)] + spec_diffs_from(b1, b2, rk as int, fl + 1)));
                    }
                } else {
                    proof {
                        assert(!spec_differs(b1, b2, rk as int, fl as int));
                    }
                }
                fl += 1;
            }
            rk += 1;
        }
        proof {
            assert(changed@ =~= spec_diffs(b1, b2));
            lemma_diffs_elems(b1, b2);
        }
        let n = changed.len();
        if n == 0 {
            Ok(None)
        } else if n == 2 {
            let c0 = changed[0];
            let c1 = changed[1];
            proof {
                assert(changed@.contains(c0));
                assert(changed@.contains(c1));
            }
            let occ0 = new_board.squares[c0.0][c0.1].piece.is_some();
            let occ1 = new_board.squares[c1.0][c1.1].piece.is_some();
            if !occ0 && occ1 {
                let m = ChessMove::from(self.squares[c0.0][c0.1], new_board.squares[c1.0][c1.1]);
                Ok(Some(m))
            } else if occ0 && !occ1 {
                let m = ChessMove::from(self.squares[c1.0][c1.1], new_board.squares[c0.0][c0.1]);
                Ok(Some(m))
            } else {
                Err(DesyncError { count: n, coordinates: changed })
            }
        } else if n == 3 {
            let c0 = changed[0];
            let c1 = changed[1];
            let c2 = changed[2];
            proof {
                assert(changed@.contains(c0));
                assert(changed@.contains(c1));
                assert(changed@.contains(c2));
            }
            let occ0 = new_board.squares[c0.0][c0.1].piece.is_some();
            let occ1 = new_board.squares[c1.0][c1.1].piece.is_some();
            let occ2 = new_board.squares[c2.0][c2.1].piece.is_some();
            let (dest, a, b) = if occ0 && !occ1 && !occ2 {
                (c0, c1, c2)
            } else if !occ0 && occ1 && !occ2 {
                (c1, c0, c2)
            } else if !occ0 && !occ1 && occ2 {
                (c2, c0, c1)
            } else {
                return Err(DesyncError { count: n, coordinates: changed });
            };
            let a_other_file = a.1 != dest.1;
            let b_other_file = b.1 != dest.1;
            let origin = if a_other_file && !b_other_file {
                a
            } else if !a_other_file && b_other_file {
                b
            } else {
                return Err(DesyncError { count: n, coordinates: changed });
            };
            let m = ChessMove::from(
                self.squares[origin.0][origin.1],
                new_board.squares[dest.0][dest.1],
            );
            Ok(Some(m))
        } else if n == 4 {
            let king_rank: usize = if contains_coord(&changed, (0, 4)) {
                0
            } else {
                7
            };
            let end_file: usize = if contains_coord(&changed, (king_rank, 6)) {
                6
            } else {
                2
            };
            let m = ChessMove::from(
                self.squares[king_rank][4],
                new_board.squares[king_rank][end_file],
            );
            Ok(Some(m))
        } else {
            Err(DesyncError { count: n, coordinates: changed })
        }
    }
}

} // verus!
