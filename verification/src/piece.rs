//! Pieces are fungible values: the model tracks occupancy by color and kind,
//! never the identity of an individual piece across time.

use vstd::prelude::*;

use crate::errors::SnapshotParseError;

verus! {

#[derive(Clone, Copy, Debug, PartialEq, Eq, Structural)]
pub enum PieceColor {
    Black,
    White,
}

#[derive(Clone, Copy, Debug, PartialEq, Eq, Structural)]
pub enum PieceType {
    Pawn,
    Bishop,
    Knight,
    Rook,
    Queen,
    King,
}

#[derive(Clone, Copy, Debug, PartialEq, Eq, Structural)]
pub struct Piece {
    pub color: PieceColor,
    pub piece_type: PieceType,
}

/// The piece color denoted by a color character of an observed square
/// description, if any.
pub open spec fn spec_color_of_char(c: char) -> Option<PieceColor> {
    if c == 'w' {
        Some(PieceColor::White)
    } else if c == 'b' {
        Some(PieceColor::Black)
    } else {
        None
    }
}

/// The piece kind denoted by a kind character of an observed square
/// description, if any.
pub open spec fn spec_kind_of_char(c: char) -> Option<PieceType> {
    if c == 'p' {
        Some(PieceType::Pawn)
    } else if c == 'b' {
        Some(PieceType::Bishop)
    } else if c == 'n' {
        Some(PieceType::Knight)
    } else if c == 'r' {
        Some(PieceType::Rook)
    } else if c == 'q' {
        Some(PieceType::Queen)
    } else if c == 'k' {
        Some(PieceType::King)
    } else {
        None
    }
}

/// The letter that stands for a piece kind in coordinate move notation
/// (as a promotion suffix).
pub open spec fn spec_kind_char(kind: PieceType) -> char {
    match kind {
        PieceType::Pawn => 'p',
        PieceType::Bishop => 'b',
        PieceType::Knight => 'n',
        PieceType::Rook => 'r',
        PieceType::Queen => 'q',
        PieceType::King => 'k',
    }
}

impl Piece {
    pub fn from(color: PieceColor, piece_type: PieceType) -> (p: Piece)
        ensures
            p == (Piece { color, piece_type }),
    {
        Piece { color, piece_type }
    }

    /// Parses the color character of an observed square description:
    /// `'w'` is white, `'b'` is black, anything else is rejected.
    pub fn chess_dot_com_char_to_piece_color(c: char) -> (r: Result<
        PieceColor,
        SnapshotParseError,
    >)
        ensures
            r matches Ok(color) ==> spec_color_of_char(c) == Some(color),
            r is Err <==> spec_color_of_char(c) is None,
    {
        match c {
            'w' => Ok(PieceColor::White),
            'b' => Ok(PieceColor::Black),
            _ => Err(SnapshotParseError),
        }
    }

    /// Parses the kind character of an observed square description.
    pub fn chess_dot_com_char_to_piece_type(c: char) -> (r: Result<PieceType, SnapshotParseError>)
        ensures
            r matches Ok(kind) ==> spec_kind_of_char(c) == Some(kind),
            r is Err <==> spec_kind_of_char(c) is None,
    {
        match c {
            'p' => Ok(PieceType::Pawn),
            'b' => Ok(PieceType::Bishop),
            'n' => Ok(PieceType::Knight),
            'r' => Ok(PieceType::Rook),
            'q' => Ok(PieceType::Queen),
            'k' => Ok(PieceType::King),
            _ => Err(SnapshotParseError),
        }
    }
}

impl PieceType {
    /// The promotion-suffix letter for this kind in coordinate move notation.
    pub fn uci_notation(&self) -> (s: &'static str)
        ensures
            s@.len() == 1,
            s@[0] == spec_kind_char(*self),
    {
        proof {
            reveal_strlit("p");
            reveal_strlit("b");
            reveal_strlit("n");
            reveal_strlit("r");
            reveal_strlit("q");
            reveal_strlit("k");
        }
        match self {
            PieceType::Pawn => "p",
            PieceType::Bishop => "b",
            PieceType::Knight => "n",
            PieceType::Rook => "r",
            PieceType::Queen => "q",
            PieceType::King => "k",
        }
    }

    /// Exec counterpart of [`spec_kind_of_char`].
    pub fn from_uci_char(c: char) -> (r: Option<PieceType>)
        ensures
            r == spec_kind_of_char(c),
    {
        match c {
            'p' => Some(PieceType::Pawn),
            'b' => Some(PieceType::Bishop),
            'n' => Some(PieceType::Knight),
            'r' => Some(PieceType::Rook),
            'q' => Some(PieceType::Queen),
            'k' => Some(PieceType::King),
            _ => None,
        }
    }
}

} // verus!
