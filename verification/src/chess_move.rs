//! A move between two squares, with the optional promotion kind, and its
//! codec for the oracle protocol's coordinate notation
//! `<origin><destination>[<promotion-letter>]` (for example `e2e4`, `e7e8q`).

use vstd::prelude::*;
use vstd::string::StringExecFns;

use crate::errors::MoveDecodeError;
use crate::piece::spec_kind_char;
use crate::piece::spec_kind_of_char;
use crate::piece::PieceType;
use crate::square::file_index_of_char;
use crate::square::rank_index_of_char;
use crate::square::spec_file_char;
use crate::square::spec_rank_char;
use crate::square::spec_square_of_chars;
use crate::square::Square;
use crate::text::str_to_chars;

verus! {

/// A single move: origin, destination, and the piece kind promoted to, if
/// the move changed the kind standing on the destination.
#[derive(Clone, Copy, Debug, PartialEq, Eq, Structural)]
pub struct ChessMove {
    pub start: Square,
    pub end: Square,
    pub promotion: Option<PieceType>,
}

/// The promotion carried by a move from `start` (as it stood before the
/// move) to `end` (as it stands after): the destination's kind, exactly when
/// both squares carry a piece and the kinds differ. It is never inferred
/// from anything else, since pieces are fungible.
pub open spec fn spec_promotion_of_squares(start: Square, end: Square) -> Option<PieceType> {
    match (start.piece, end.piece) {
        (Some(sp), Some(ep)) => if sp.piece_type == ep.piece_type {
            None
        } else {
            Some(ep.piece_type)
        },
        _ => None,
    }
}

/// The coordinate-notation encoding of a move: four coordinate characters,
/// then the promotion letter if there is one.
pub open spec fn spec_uci_chars(m: ChessMove) -> Seq<char> {
    let base = seq![
        spec_file_char(m.start.file as int),
        spec_rank_char(m.start.rank as int),
        spec_file_char(m.end.file as int),
        spec_rank_char(m.end.rank as int),
    ];
    match m.promotion {
        None => base,
        Some(kind) => base.push(spec_kind_char(kind)),
    }
}

/// The move denoted by a coordinate-notation token: exactly four or five
/// characters, two squares, and an optional promotion letter. The decoded
/// squares carry no pieces.
pub open spec fn spec_move_of_chars(s: Seq<char>) -> Option<ChessMove> {
    if s.len() < 4 || s.len() > 5 {
        None
    } else {
        match (spec_square_of_chars(s[0], s[1]), spec_square_of_chars(s[2], s[3])) {
            (Some(start), Some(end)) => {
                if s.len() == 4 {
                    Some(ChessMove { start, end, promotion: None })
                } else {
                    match spec_kind_of_char(s[4]) {
                        Some(kind) => Some(ChessMove { start, end, promotion: Some(kind) }),
                        None => None,
                    }
                }
            },
            _ => None,
        }
    }
}

/// The same move with the pieces stripped from its squares: what survives a
/// trip through coordinate notation.
pub open spec fn spec_coords_only(m: ChessMove) -> ChessMove {
    ChessMove {
        start: Square { rank: m.start.rank, file: m.start.file, piece: None },
        end: Square { rank: m.end.rank, file: m.end.file, piece: None },
        promotion: m.promotion,
    }
}

impl ChessMove {
    /// Both endpoints lie on the board.
    pub open spec fn wf(self) -> bool {
        self.start.wf() && self.end.wf()
    }

    /// Builds the move explained by an origin square (as observed before the
    /// move) and a destination square (as observed after it), reading the
    /// promotion off the two occupancies.
    pub fn from(start: Square, end: Square) -> (m: ChessMove)
        ensures
            m.start == start,
            m.end == end,
            m.promotion == spec_promotion_of_squares(start, end),
    {
        let promotion = match (start.piece, end.piece) {
            (Some(sp), Some(ep)) => if sp.piece_type == ep.piece_type {
                None
            } else {
                Some(ep.piece_type)
            },
            _ => None,
        };
        ChessMove { start, end, promotion }
    }

    /// Decodes a coordinate-notation token given as characters; a malformed
    /// token (wrong length or a character outside the notation's domain) is
    /// rejected.
    pub fn from_uci_chars(chars: &Vec<char>) -> (r: Result<ChessMove, MoveDecodeError>)
        ensures
            r == spec_move_of_chars(chars@).ok_or(MoveDecodeError),
            r matches Ok(m) ==> m.wf(),
    {
        let len = chars.len();
        if len < 4 || len > 5 {
            return Err(MoveDecodeError);
        }
        let start_file = file_index_of_char(chars[0]);
        let start_rank = rank_index_of_char(chars[1]);
        let end_file = file_index_of_char(chars[2]);
        let end_rank = rank_index_of_char(chars[3]);
        match (start_file, start_rank, end_file, end_rank) {
            (Some(sf), Some(sr), Some(ef), Some(er)) => {
                let start = Square { rank: sr, file: sf, piece: None };
                let end = Square { rank: er, file: ef, piece: None };
                if len == 4 {
                    Ok(ChessMove { start, end, promotion: None })
                } else {
                    match PieceType::from_uci_char(chars[4]) {
                        Some(kind) => Ok(ChessMove { start, end, promotion: Some(kind) }),
                        None => Err(MoveDecodeError),
                    }
                }
            },
            _ => Err(MoveDecodeError),
        }
    }

    /// Decodes a coordinate-notation token; a malformed token (wrong length
    /// or a character outside the notation's domain) is rejected.
    pub fn from_uci_notation(notation: &str) -> (r: Result<ChessMove, MoveDecodeError>)
        ensures
            r == spec_move_of_chars(notation@).ok_or(MoveDecodeError),
            r matches Ok(m) ==> m.wf(),
    {
        let chars = str_to_chars(notation);
        ChessMove::from_uci_chars(&chars)
    }

    /// Encodes this move in coordinate notation.
    pub fn uci_notation(&self) -> (r: String)
        requires
            self.wf(),
        ensures
            r@ == spec_uci_chars(*self),
    {
        let mut out = self.start.uci_notation();
        let end = self.end.uci_notation();
        out.append(end.as_str());
        match self.promotion {
            None => {
                proof {
                    assert(out@ =~= spec_uci_chars(*self));
                }
                out
            },
            Some(kind) => {
                out.append(kind.uci_notation());
                proof {
                    assert(out@ =~= spec_uci_chars(*self));
                }
                out
            },
        }
    }

    /// The promotion this move carries, if any.
    pub fn get_promotion_type(&self) -> (r: Option<PieceType>)
        ensures
            r == self.promotion,
    {
        self.promotion
    }
}

/// Law: decoding the encoding of any well-formed move gives the move back,
/// for every origin, destination, and promotion combination. Only the pieces
/// standing on the endpoint squares are shed, since the notation does not
/// carry them.
pub proof fn lemma_uci_round_trip(m: ChessMove)
    requires
        m.wf(),
    ensures
        spec_move_of_chars(spec_uci_chars(m)) == Some(spec_coords_only(m)),
{
    let s = spec_uci_chars(m);
    match m.promotion {
        None => {
            assert(s.len() == 4);
        },
        Some(kind) => {
            assert(s.len() == 5);
            assert(s[4] == spec_kind_char(kind));
        },
    }
}

} // verus!
