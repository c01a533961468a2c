//! A board coordinate with its optional occupying piece, plus the total,
//! reversible mappings between 0-based indices, notation characters, and the
//! observer's 1-based coordinate digits. Indices outside `0..8` are
//! input-validation failures, never panics.

use vstd::prelude::*;
use vstd::string::StrSliceExecFns;
use vstd::string::StringExecFns;

use crate::errors::MoveDecodeError;
use crate::errors::SnapshotParseError;
use crate::piece::Piece;

verus! {

/// One square of a snapshot: a coordinate (`rank`, `file`, both `0..8` when
/// well-formed) and the piece standing on it, if any.
#[derive(Clone, Copy, Debug, PartialEq, Eq, Structural)]
pub struct Square {
    pub rank: u8,
    pub file: u8,
    pub piece: Option<Piece>,
}

/// The notation letter of a file index: `0` is `'a'`, ..., `7` is `'h'`.
pub open spec fn spec_file_char(i: int) -> char {
    if i == 0 {
        'a'
    } else if i == 1 {
        'b'
    } else if i == 2 {
        'c'
    } else if i == 3 {
        'd'
    } else if i == 4 {
        'e'
    } else if i == 5 {
        'f'
    } else if i == 6 {
        'g'
    } else if i == 7 {
        'h'
    } else {
        ' '
    }
}

/// The notation digit of a rank index: `0` is `'1'`, ..., `7` is `'8'`.
pub open spec fn spec_rank_char(i: int) -> char {
    if i == 0 {
        '1'
    } else if i == 1 {
        '2'
    } else if i == 2 {
        '3'
    } else if i == 3 {
        '4'
    } else if i == 4 {
        '5'
    } else if i == 5 {
        '6'
    } else if i == 6 {
        '7'
    } else if i == 7 {
        '8'
    } else {
        ' '
    }
}

/// The file index denoted by a notation letter, if the letter is `'a'..='h'`.
pub open spec fn spec_file_of_char(c: char) -> Option<u8> {
    if c == 'a' {
        Some(0u8)
    } else if c == 'b' {
        Some(1u8)
    } else if c == 'c' {
        Some(2u8)
    } else if c == 'd' {
        Some(3u8)
    } else if c == 'e' {
        Some(4u8)
    } else if c == 'f' {
        Some(5u8)
    } else if c == 'g' {
        Some(6u8)
    } else if c == 'h' {
        Some(7u8)
    } else {
        None
    }
}

/// The rank index denoted by a notation digit, if the digit is `'1'..='8'`.
pub open spec fn spec_rank_of_char(c: char) -> Option<u8> {
    if c == '1' {
        Some(0u8)
    } else if c == '2' {
        Some(1u8)
    } else if c == '3' {
        Some(2u8)
    } else if c == '4' {
        Some(3u8)
    } else if c == '5' {
        Some(4u8)
    } else if c == '6' {
        Some(5u8)
    } else if c == '7' {
        Some(6u8)
    } else if c == '8' {
        Some(7u8)
    } else {
        None
    }
}

/// The square denoted by a file letter and a rank digit, carrying no piece;
/// `None` if either character is out of the notation's domain.
pub open spec fn spec_square_of_chars(file_char: char, rank_char: char) -> Option<Square> {
    match (spec_file_of_char(file_char), spec_rank_of_char(rank_char)) {
        (Some(f), Some(r)) => Some(Square { rank: r, file: f, piece: None }),
        _ => None,
    }
}

impl Square {
    /// Both coordinates lie on the 8x8 board.
    pub open spec fn wf(self) -> bool {
        self.rank < 8 && self.file < 8
    }

    pub fn from(rank: u8, file: u8, piece: Option<Piece>) -> (s: Square)
        ensures
            s == (Square { rank, file, piece }),
    {
        Square { rank, file, piece }
    }

    /// Decodes the first two characters of a coordinate-notation token
    /// (file letter, then rank digit) into a square without a piece.
    /// Anything shorter or outside the notation's domain is rejected.
    pub fn from_uci_notation(notation: &str) -> (r: Result<Square, MoveDecodeError>)
        ensures
            notation@.len() >= 2 ==> r == spec_square_of_chars(
                notation@[0],
                notation@[1],
            ).ok_or(MoveDecodeError),
            notation@.len() < 2 ==> r is Err,
    {
        if notation.unicode_len() < 2 {
            return Err(MoveDecodeError);
        }
        let file_char = notation.get_char(0);
        let rank_char = notation.get_char(1);
        let file = match file_index_of_char(file_char) {
            Some(f) => f,
            None => {
                return Err(MoveDecodeError);
            },
        };
        let rank = match rank_index_of_char(rank_char) {
            Some(r) => r,
            None => {
                return Err(MoveDecodeError);
            },
        };
        Ok(Square { rank, file, piece: None })
    }

    /// The 0-based rank index of this square; rejected when the stored rank
    /// lies outside the board.
    pub fn rank_index(&self) -> (r: Result<usize, MoveDecodeError>)
        ensures
            self.rank < 8 ==> r == Ok::<usize, MoveDecodeError>(self.rank as usize),
            self.rank >= 8 ==> r is Err,
    {
        if self.rank < 8 {
            Ok(self.rank as usize)
        } else {
            Err(MoveDecodeError)
        }
    }

    /// The 0-based file index of this square; rejected when the stored file
    /// lies outside the board.
    pub fn file_index(&self) -> (r: Result<usize, MoveDecodeError>)
        ensures
            self.file < 8 ==> r == Ok::<usize, MoveDecodeError>(self.file as usize),
            self.file >= 8 ==> r is Err,
    {
        if self.file < 8 {
            Ok(self.file as usize)
        } else {
            Err(MoveDecodeError)
        }
    }

    /// The display digit for a rank index: `"1"` through `"8"`, rejected
    /// outside `0..8`.
    pub fn index_to_rank(index: usize) -> (r: Result<String, MoveDecodeError>)
        ensures
            index < 8 ==> (r matches Ok(s) && s@.len() == 1 && s@[0] == spec_rank_char(index as int)),
            index >= 8 ==> r is Err,
    {
        let s = match index {
            0 => "1",
            1 => "2",
            2 => "3",
            3 => "4",
            4 => "5",
            5 => "6",
            6 => "7",
            7 => "8",
            _ => {
                return Err(MoveDecodeError);
            },
        };
        proof {
            reveal_strlit("1");
            reveal_strlit("2");
            reveal_strlit("3");
            reveal_strlit("4");
            reveal_strlit("5");
            reveal_strlit("6");
            reveal_strlit("7");
            reveal_strlit("8");
        }
        Ok(s.to_owned())
    }

    /// The display letter for a file index: `"a"` through `"h"`, rejected
    /// outside `0..8`.
    pub fn index_to_file(index: usize) -> (r: Result<String, MoveDecodeError>)
        ensures
            index < 8 ==> (r matches Ok(s) && s@.len() == 1 && s@[0] == spec_file_char(index as int)),
            index >= 8 ==> r is Err,
    {
        let s = match index {
            0 => "a",
            1 => "b",
            2 => "c",
            3 => "d",
            4 => "e",
            5 => "f",
            6 => "g",
            7 => "h",
            _ => {
                return Err(MoveDecodeError);
            },
        };
        proof {
            reveal_strlit("a");
            reveal_strlit("b");
            reveal_strlit("c");
            reveal_strlit("d");
            reveal_strlit("e");
            reveal_strlit("f");
            reveal_strlit("g");
            reveal_strlit("h");
        }
        Ok(s.to_owned())
    }

    /// Converts one of the observer's 1-based coordinate digits (`'1'`
    /// through `'8'`) to a 0-based index; any other character is rejected.
    pub fn chess_dot_com_index_char_to_index(c: char) -> (r: Result<usize, SnapshotParseError>)
        ensures
            spec_rank_of_char(c) matches Some(i) ==> r == Ok::<usize, SnapshotParseError>(
                i as usize,
            ),
            spec_rank_of_char(c) is None ==> r is Err,
    {
        match rank_index_of_char(c) {
            Some(i) => Ok(i as usize),
            None => Err(SnapshotParseError),
        }
    }

    /// This square's two-character coordinate-notation token: file letter,
    /// then rank digit.
    pub fn uci_notation(&self) -> (r: String)
        requires
            self.wf(),
        ensures
            r@.len() == 2,
            r@[0] == spec_file_char(self.file as int),
            r@[1] == spec_rank_char(self.rank as int),
    {
        let mut out = match Square::index_to_file(self.file as usize) {
            Ok(s) => s,
            Err(_) => String::new(),
        };
        let rank = match Square::index_to_rank(self.rank as usize) {
            Ok(s) => s,
            Err(_) => String::new(),
        };
        out.append(rank.as_str());
        out
    }
}

/// Exec counterpart of [`spec_file_of_char`].
pub fn file_index_of_char(c: char) -> (r: Option<u8>)
    ensures
        r == spec_file_of_char(c),
{
    match c {
        'a' => Some(0),
        'b' => Some(1),
        'c' => Some(2),
        'd' => Some(3),
        'e' => Some(4),
        'f' => Some(5),
        'g' => Some(6),
        'h' => Some(7),
        _ => None,
    }
}

/// Exec counterpart of [`spec_rank_of_char`].
pub fn rank_index_of_char(c: char) -> (r: Option<u8>)
    ensures
        r == spec_rank_of_char(c),
{
    match c {
        '1' => Some(0),
        '2' => Some(1),
        '3' => Some(2),
        '4' => Some(3),
        '5' => Some(4),
        '6' => Some(5),
        '7' => Some(6),
        '8' => Some(7),
        _ => None,
    }
}

} // verus!
