//! State representation for a chess engine: bitboards, identifier types,
//! the position snapshot with its text form, and the packed move.

use vstd::prelude::*;

pub mod bit;
pub mod board;
pub mod mov;
pub mod round_trip;
pub mod text;

verus! {

/// The castling permissions, each a flag in a set of four bits.
#[derive(Debug, Clone, Copy, PartialEq, Eq, Structural)]
pub enum CastlePerm {
    NoRights,
    WhiteKing,
    WhiteQueen,
    BlackKing,
    BlackQueen,
    All,
}

impl CastlePerm {
    /// The flag bits of this permission.
    pub open spec fn mask(self) -> u8 {
        match self {
            CastlePerm::NoRights => 0,
            CastlePerm::WhiteKing => 1,
            CastlePerm::WhiteQueen => 2,
            CastlePerm::BlackKing => 4,
            CastlePerm::BlackQueen => 8,
            CastlePerm::All => 15,
        }
    }

    /// Converts to the flag bits.
    pub fn bits(self) -> (r: u8)
        ensures
            r == self.mask(),
    {
        match self {
            CastlePerm::NoRights => 0,
            CastlePerm::WhiteKing => 1,
            CastlePerm::WhiteQueen => 2,
            CastlePerm::BlackKing => 4,
            CastlePerm::BlackQueen => 8,
            CastlePerm::All => 15,
        }
    }
}

/// The sides; `Both` names the union of the two and is never to move.
#[derive(Debug, Clone, Copy, PartialEq, Eq, Structural)]
pub enum Color {
    White,
    Black,
    Both,
}

impl Color {
    /// The number of sides.
    pub const COUNT: usize = 3;

    /// The integer that stands for this side.
    pub open spec fn index(self) -> int {
        match self {
            Color::White => 0,
            Color::Black => 1,
            Color::Both => 2,
        }
    }

    /// The side that `i` stands for; `i` is below 3.
    pub open spec fn at(i: int) -> Color {
        if i == 0 {
            Color::White
        } else if i == 1 {
            Color::Black
        } else {
            Color::Both
        }
    }

    /// Converts to the integer that stands for this side.
    pub fn to_u8(self) -> (r: u8)
        ensures
            r == self.index(),
            r < 3,
            Color::at(r as int) == self,
    {
        match self {
            Color::White => 0,
            Color::Black => 1,
            Color::Both => 2,
        }
    }
}

/// The piece kinds; `NoPiece` is the kind of no piece, a value like the
/// others.
#[derive(Debug, Clone, Copy, PartialEq, Eq, Structural)]
pub enum Piece {
    NoPiece,
    Pawn,
    Knight,
    Bishop,
    Rook,
    Queen,
    King,
}

impl Piece {
    /// The number of piece kinds.
    pub const COUNT: usize = 7;

    /// The integer that stands for this piece kind.
    pub open spec fn index(self) -> int {
        match self {
            Piece::NoPiece => 0,
            Piece::Pawn => 1,
            Piece::Knight => 2,
            Piece::Bishop => 3,
            Piece::Rook => 4,
            Piece::Queen => 5,
            Piece::King => 6,
        }
    }

    /// The piece kind that `i` stands for; `i` is below 7.
    pub open spec fn at(i: int) -> Piece {
        if i == 0 {
            Piece::NoPiece
        } else if i == 1 {
            Piece::Pawn
        } else if i == 2 {
            Piece::Knight
        } else if i == 3 {
            Piece::Bishop
        } else if i == 4 {
            Piece::Rook
        } else if i == 5 {
            Piece::Queen
        } else {
            Piece::King
        }
    }

    /// Converts to the integer that stands for this piece kind.
    pub fn to_u8(self) -> (r: u8)
        ensures
            r == self.index(),
            r < 7,
            Piece::at(r as int) == self,
    {
        match self {
            Piece::NoPiece => 0,
            Piece::Pawn => 1,
            Piece::Knight => 2,
            Piece::Bishop => 3,
            Piece::Rook => 4,
            Piece::Queen => 5,
            Piece::King => 6,
        }
    }
}

impl TryFrom<u8> for Piece {
    type Error = ();

    /// Converts from the integer that stands for a piece kind; any other
    /// integer is refused.
    fn try_from(value: u8) -> (r: Result<Self, ()>) {
        match value {
            0 => Ok(Piece::NoPiece),
            1 => Ok(Piece::Pawn),
            2 => Ok(Piece::Knight),
            3 => Ok(Piece::Bishop),
            4 => Ok(Piece::Rook),
            5 => Ok(Piece::Queen),
            6 => Ok(Piece::King),
            _ => Err(()),
        }
    }
}

impl vstd::std_specs::convert::TryFromSpecImpl<u8> for Piece {
    /// The conversion does what `try_from_spec` says.
    open spec fn obeys_try_from_spec() -> bool {
        true
    }

    /// The value that `v` stands for, if it stands for one.
    open spec fn try_from_spec(v: u8) -> Result<Self, ()> {
        if v < 7 {
            Ok(Piece::at(v as int))
        } else {
            Err(())
        }
    }
}

/// The pieces with their side: the identities that a position stores.
#[derive(Debug, Clone, Copy, PartialEq, Eq, Structural)]
pub enum ColoredPiece {
    WhitePawn,
    WhiteKnight,
    WhiteBishop,
    WhiteRook,
    WhiteQueen,
    WhiteKing,
    BlackPawn,
    BlackKnight,
    BlackBishop,
    BlackRook,
    BlackQueen,
    BlackKing,
}

impl ColoredPiece {
    /// The number of pieces.
    pub const COUNT: usize = 12;

    /// The integer that stands for this piece.
    pub open spec fn index(self) -> int {
        match self {
            ColoredPiece::WhitePawn => 0,
            ColoredPiece::WhiteKnight => 1,
            ColoredPiece::WhiteBishop => 2,
            ColoredPiece::WhiteRook => 3,
            ColoredPiece::WhiteQueen => 4,
            ColoredPiece::WhiteKing => 5,
            ColoredPiece::BlackPawn => 6,
            ColoredPiece::BlackKnight => 7,
            ColoredPiece::BlackBishop => 8,
            ColoredPiece::BlackRook => 9,
            ColoredPiece::BlackQueen => 10,
            ColoredPiece::BlackKing => 11,
        }
    }

    /// The piece that `i` stands for; `i` is below 12.
    pub open spec fn at(i: int) -> ColoredPiece {
        if i == 0 {
            ColoredPiece::WhitePawn
        } else if i == 1 {
            ColoredPiece::WhiteKnight
        } else if i == 2 {
            ColoredPiece::WhiteBishop
        } else if i == 3 {
            ColoredPiece::WhiteRook
        } else if i == 4 {
            ColoredPiece::WhiteQueen
        } else if i == 5 {
            ColoredPiece::WhiteKing
        } else if i == 6 {
            ColoredPiece::BlackPawn
        } else if i == 7 {
            ColoredPiece::BlackKnight
        } else if i == 8 {
            ColoredPiece::BlackBishop
        } else if i == 9 {
            ColoredPiece::BlackRook
        } else if i == 10 {
            ColoredPiece::BlackQueen
        } else {
            ColoredPiece::BlackKing
        }
    }

    /// Converts to the integer that stands for this piece.
    pub fn to_u8(self) -> (r: u8)
        ensures
            r == self.index(),
            r < 12,
            ColoredPiece::at(r as int) == self,
    {
        match self {
            ColoredPiece::WhitePawn => 0,
            ColoredPiece::WhiteKnight => 1,
            ColoredPiece::WhiteBishop => 2,
            ColoredPiece::WhiteRook => 3,
            ColoredPiece::WhiteQueen => 4,
            ColoredPiece::WhiteKing => 5,
            ColoredPiece::BlackPawn => 6,
            ColoredPiece::BlackKnight => 7,
            ColoredPiece::BlackBishop => 8,
            ColoredPiece::BlackRook => 9,
            ColoredPiece::BlackQueen => 10,
            ColoredPiece::BlackKing => 11,
        }
    }

    /// The letter that the position text writes for this piece: upper case
    /// for White, lower case for Black.
    pub open spec fn glyph(self) -> char {
        match self {
            ColoredPiece::WhitePawn => 'P',
            ColoredPiece::WhiteKnight => 'N',
            ColoredPiece::WhiteBishop => 'B',
            ColoredPiece::WhiteRook => 'R',
            ColoredPiece::WhiteQueen => 'Q',
            ColoredPiece::WhiteKing => 'K',
            ColoredPiece::BlackPawn => 'p',
            ColoredPiece::BlackKnight => 'n',
            ColoredPiece::BlackBishop => 'b',
            ColoredPiece::BlackRook => 'r',
            ColoredPiece::BlackQueen => 'q',
            ColoredPiece::BlackKing => 'k',
        }
    }

    /// The piece that the position text writes as `c`, if there is one.
    pub open spec fn from_glyph(c: char) -> Option<ColoredPiece> {
        if c == 'P' {
            Some(ColoredPiece::WhitePawn)
        } else if c == 'N' {
            Some(ColoredPiece::WhiteKnight)
        } else if c == 'B' {
            Some(ColoredPiece::WhiteBishop)
        } else if c == 'R' {
            Some(ColoredPiece::WhiteRook)
        } else if c == 'Q' {
            Some(ColoredPiece::WhiteQueen)
        } else if c == 'K' {
            Some(ColoredPiece::WhiteKing)
        } else if c == 'p' {
            Some(ColoredPiece::BlackPawn)
        } else if c == 'n' {
            Some(ColoredPiece::BlackKnight)
        } else if c == 'b' {
            Some(ColoredPiece::BlackBishop)
        } else if c == 'r' {
            Some(ColoredPiece::BlackRook)
        } else if c == 'q' {
            Some(ColoredPiece::BlackQueen)
        } else if c == 'k' {
            Some(ColoredPiece::BlackKing)
        } else {
            None
        }
    }

    /// The side that owns this piece.
    pub open spec fn side(self) -> Color {
        if self.index() < 6 {
            Color::White
        } else {
            Color::Black
        }
    }

    /// The kind of this piece, without its side.
    pub open spec fn piece(self) -> Piece {
        Piece::at(self.index() % 6 + 1)
    }

    /// Converts to the letter of the position text.
    pub fn to_char(&self) -> (c: char)
        ensures
            c == self.glyph(),
            ColoredPiece::from_glyph(c) == Some(*self),
    {
        match self {
            ColoredPiece::WhitePawn => 'P',
            ColoredPiece::WhiteKnight => 'N',
            ColoredPiece::WhiteBishop => 'B',
            ColoredPiece::WhiteRook => 'R',
            ColoredPiece::WhiteQueen => 'Q',
            ColoredPiece::WhiteKing => 'K',
            ColoredPiece::BlackPawn => 'p',
            ColoredPiece::BlackKnight => 'n',
            ColoredPiece::BlackBishop => 'b',
            ColoredPiece::BlackRook => 'r',
            ColoredPiece::BlackQueen => 'q',
            ColoredPiece::BlackKing => 'k',
        }
    }

    /// Reads a letter of the position text; any other character is refused.
    pub fn from_char(c: char) -> (r: Option<ColoredPiece>)
        ensures
            r == ColoredPiece::from_glyph(c),
            r matches Some(p) ==> p.glyph() == c,
    {
        match c {
            'P' => Some(ColoredPiece::WhitePawn),
            'N' => Some(ColoredPiece::WhiteKnight),
            'B' => Some(ColoredPiece::WhiteBishop),
            'R' => Some(ColoredPiece::WhiteRook),
            'Q' => Some(ColoredPiece::WhiteQueen),
            'K' => Some(ColoredPiece::WhiteKing),
            'p' => Some(ColoredPiece::BlackPawn),
            'n' => Some(ColoredPiece::BlackKnight),
            'b' => Some(ColoredPiece::BlackBishop),
            'r' => Some(ColoredPiece::BlackRook),
            'q' => Some(ColoredPiece::BlackQueen),
            'k' => Some(ColoredPiece::BlackKing),
            _ => None,
        }
    }

    /// The side that owns this piece: never `Both`.
    pub fn color(&self) -> (c: Color)
        ensures
            c == self.side(),
            c != Color::Both,
    {
        match self {
            ColoredPiece::WhitePawn => Color::White,
            ColoredPiece::WhiteKnight => Color::White,
            ColoredPiece::WhiteBishop => Color::White,
            ColoredPiece::WhiteRook => Color::White,
            ColoredPiece::WhiteQueen => Color::White,
            ColoredPiece::WhiteKing => Color::White,
            ColoredPiece::BlackPawn => Color::Black,
            ColoredPiece::BlackKnight => Color::Black,
            ColoredPiece::BlackBishop => Color::Black,
            ColoredPiece::BlackRook => Color::Black,
            ColoredPiece::BlackQueen => Color::Black,
            ColoredPiece::BlackKing => Color::Black,
        }
    }

    /// The kind of this piece: never `Piece::NoPiece`.
    pub fn kind(&self) -> (k: Piece)
        ensures
            k == self.piece(),
            k != Piece::NoPiece,
    {
        match self {
            ColoredPiece::WhitePawn => Piece::Pawn,
            ColoredPiece::WhiteKnight => Piece::Knight,
            ColoredPiece::WhiteBishop => Piece::Bishop,
            ColoredPiece::WhiteRook => Piece::Rook,
            ColoredPiece::WhiteQueen => Piece::Queen,
            ColoredPiece::WhiteKing => Piece::King,
            ColoredPiece::BlackPawn => Piece::Pawn,
            ColoredPiece::BlackKnight => Piece::Knight,
            ColoredPiece::BlackBishop => Piece::Bishop,
            ColoredPiece::BlackRook => Piece::Rook,
            ColoredPiece::BlackQueen => Piece::Queen,
            ColoredPiece::BlackKing => Piece::King,
        }
    }
}

/// The files, from the a-file to the h-file.
#[derive(Debug, Clone, Copy, PartialEq, Eq, Structural, PartialOrd, Ord)]
pub enum File {
    A,
    B,
    C,
    D,
    E,
    F,
    G,
    H,
}

impl File {
    /// The number of files.
    pub const COUNT: usize = 8;

    /// The integer that stands for this file.
    pub open spec fn index(self) -> int {
        match self {
            File::A => 0,
            File::B => 1,
            File::C => 2,
            File::D => 3,
            File::E => 4,
            File::F => 5,
            File::G => 6,
            File::H => 7,
        }
    }

    /// The file that `i` stands for; `i` is below 8.
    pub open spec fn at(i: int) -> File {
        if i == 0 {
            File::A
        } else if i == 1 {
            File::B
        } else if i == 2 {
            File::C
        } else if i == 3 {
            File::D
        } else if i == 4 {
            File::E
        } else if i == 5 {
            File::F
        } else if i == 6 {
            File::G
        } else {
            File::H
        }
    }

    /// Converts to the integer that stands for this file.
    pub fn to_u8(self) -> (r: u8)
        ensures
            r == self.index(),
            r < 8,
            File::at(r as int) == self,
    {
        match self {
            File::A => 0,
            File::B => 1,
            File::C => 2,
            File::D => 3,
            File::E => 4,
            File::F => 5,
            File::G => 6,
            File::H => 7,
        }
    }
}

impl TryFrom<u8> for File {
    type Error = ();

    /// Converts from the integer that stands for a file; any other
    /// integer is refused.
    fn try_from(value: u8) -> (r: Result<Self, ()>) {
        match value {
            0 => Ok(File::A),
            1 => Ok(File::B),
            2 => Ok(File::C),
            3 => Ok(File::D),
            4 => Ok(File::E),
            5 => Ok(File::F),
            6 => Ok(File::G),
            7 => Ok(File::H),
            _ => Err(()),
        }
    }
}

impl vstd::std_specs::convert::TryFromSpecImpl<u8> for File {
    /// The conversion does what `try_from_spec` says.
    open spec fn obeys_try_from_spec() -> bool {
        true
    }

    /// The value that `v` stands for, if it stands for one.
    open spec fn try_from_spec(v: u8) -> Result<Self, ()> {
        if v < 8 {
            Ok(File::at(v as int))
        } else {
            Err(())
        }
    }
}

/// The ranks, from White's back rank to Black's.
#[derive(Debug, Clone, Copy, PartialEq, Eq, Structural, PartialOrd, Ord)]
pub enum Rank {
    R1,
    R2,
    R3,
    R4,
    R5,
    R6,
    R7,
    R8,
}

impl Rank {
    /// The number of ranks.
    pub const COUNT: usize = 8;

    /// The integer that stands for this rank.
    pub open spec fn index(self) -> int {
        match self {
            Rank::R1 => 0,
            Rank::R2 => 1,
            Rank::R3 => 2,
            Rank::R4 => 3,
            Rank::R5 => 4,
            Rank::R6 => 5,
            Rank::R7 => 6,
            Rank::R8 => 7,
        }
    }

    /// The rank that `i` stands for; `i` is below 8.
    pub open spec fn at(i: int) -> Rank {
        if i == 0 {
            Rank::R1
        } else if i == 1 {
            Rank::R2
        } else if i == 2 {
            Rank::R3
        } else if i == 3 {
            Rank::R4
        } else if i == 4 {
            Rank::R5
        } else if i == 5 {
            Rank::R6
        } else if i == 6 {
            Rank::R7
        } else {
            Rank::R8
        }
    }

    /// Converts to the integer that stands for this rank.
    pub fn to_u8(self) -> (r: u8)
        ensures
            r == self.index(),
            r < 8,
            Rank::at(r as int) == self,
    {
        match self {
            Rank::R1 => 0,
            Rank::R2 => 1,
            Rank::R3 => 2,
            Rank::R4 => 3,
            Rank::R5 => 4,
            Rank::R6 => 5,
            Rank::R7 => 6,
            Rank::R8 => 7,
        }
    }
}

impl TryFrom<u8> for Rank {
    type Error = ();

    /// Converts from the integer that stands for a rank; any other
    /// integer is refused.
    fn try_from(value: u8) -> (r: Result<Self, ()>) {
        match value {
            0 => Ok(Rank::R1),
            1 => Ok(Rank::R2),
            2 => Ok(Rank::R3),
            3 => Ok(Rank::R4),
            4 => Ok(Rank::R5),
            5 => Ok(Rank::R6),
            6 => Ok(Rank::R7),
            7 => Ok(Rank::R8),
            _ => Err(()),
        }
    }
}

impl vstd::std_specs::convert::TryFromSpecImpl<u8> for Rank {
    /// The conversion does what `try_from_spec` says.
    open spec fn obeys_try_from_spec() -> bool {
        true
    }

    /// The value that `v` stands for, if it stands for one.
    open spec fn try_from_spec(v: u8) -> Result<Self, ()> {
        if v < 8 {
            Ok(Rank::at(v as int))
        } else {
            Err(())
        }
    }
}

/// The letter of file `f`, `a` for 0 to `h` for 7.
pub open spec fn file_letter(f: int) -> char {
    ('a' as int + f) as char
}

/// The digit of rank `r`, `1` for 0 to `8` for 7.
pub open spec fn rank_digit(r: int) -> char {
    ('1' as int + r) as char
}

/// Whether `c` is the letter of a file.
pub open spec fn is_file_letter(c: char) -> bool {
    'a' as int <= c as int <= 'h' as int
}

/// Whether `c` is the digit of a rank.
pub open spec fn is_rank_digit(c: char) -> bool {
    '1' as int <= c as int <= '8' as int
}

/// The squares, rank by rank from `A1`: a square stands at eight times its
/// rank plus its file.
#[derive(Debug, Clone, Copy, PartialEq, Eq, Structural, PartialOrd, Ord)]
pub enum Square {
    A1,
    B1,
    C1,
    D1,
    E1,
    F1,
    G1,
    H1,
    A2,
    B2,
    C2,
    D2,
    E2,
    F2,
    G2,
    H2,
    A3,
    B3,
    C3,
    D3,
    E3,
    F3,
    G3,
    H3,
    A4,
    B4,
    C4,
    D4,
    E4,
    F4,
    G4,
    H4,
    A5,
    B5,
    C5,
    D5,
    E5,
    F5,
    G5,
    H5,
    A6,
    B6,
    C6,
    D6,
    E6,
    F6,
    G6,
    H6,
    A7,
    B7,
    C7,
    D7,
    E7,
    F7,
    G7,
    H7,
    A8,
    B8,
    C8,
    D8,
    E8,
    F8,
    G8,
    H8,
}

impl Square {
    /// The number of squares.
    pub const COUNT: usize = 64;

    /// The integer that stands for this square.
    pub open spec fn index(self) -> int {
        match self {
            Square::A1 => 0,
            Square::B1 => 1,
            Square::C1 => 2,
            Square::D1 => 3,
            Square::E1 => 4,
            Square::F1 => 5,
            Square::G1 => 6,
            Square::H1 => 7,
            Square::A2 => 8,
            Square::B2 => 9,
            Square::C2 => 10,
            Square::D2 => 11,
            Square::E2 => 12,
            Square::F2 => 13,
            Square::G2 => 14,
            Square::H2 => 15,
            Square::A3 => 16,
            Square::B3 => 17,
            Square::C3 => 18,
            Square::D3 => 19,
            Square::E3 => 20,
            Square::F3 => 21,
            Square::G3 => 22,
            Square::H3 => 23,
            Square::A4 => 24,
            Square::B4 => 25,
            Square::C4 => 26,
            Square::D4 => 27,
            Square::E4 => 28,
            Square::F4 => 29,
            Square::G4 => 30,
            Square::H4 => 31,
            Square::A5 => 32,
            Square::B5 => 33,
            Square::C5 => 34,
            Square::D5 => 35,
            Square::E5 => 36,
            Square::F5 => 37,
            Square::G5 => 38,
            Square::H5 => 39,
            Square::A6 => 40,
            Square::B6 => 41,
            Square::C6 => 42,
            Square::D6 => 43,
            Square::E6 => 44,
            Square::F6 => 45,
            Square::G6 => 46,
            Square::H6 => 47,
            Square::A7 => 48,
            Square::B7 => 49,
            Square::C7 => 50,
            Square::D7 => 51,
            Square::E7 => 52,
            Square::F7 => 53,
            Square::G7 => 54,
            Square::H7 => 55,
            Square::A8 => 56,
            Square::B8 => 57,
            Square::C8 => 58,
            Square::D8 => 59,
            Square::E8 => 60,
            Square::F8 => 61,
            Square::G8 => 62,
            Square::H8 => 63,
        }
    }

    /// The square that `i` stands for; `i` is below 64.
    pub open spec fn at(i: int) -> Square {
        if i == 0 {
            Square::A1
        } else if i == 1 {
            Square::B1
        } else if i == 2 {
            Square::C1
        } else if i == 3 {
            Square::D1
        } else if i == 4 {
            Square::E1
        } else if i == 5 {
            Square::F1
        } else if i == 6 {
            Square::G1
        } else if i == 7 {
            Square::H1
        } else if i == 8 {
            Square::A2
        } else if i == 9 {
            Square::B2
        } else if i == 10 {
            Square::C2
        } else if i == 11 {
            Square::D2
        } else if i == 12 {
            Square::E2
        } else if i == 13 {
            Square::F2
        } else if i == 14 {
            Square::G2
        } else if i == 15 {
            Square::H2
        } else if i == 16 {
            Square::A3
        } else if i == 17 {
            Square::B3
        } else if i == 18 {
            Square::C3
        } else if i == 19 {
            Square::D3
        } else if i == 20 {
            Square::E3
        } else if i == 21 {
            Square::F3
        } else if i == 22 {
            Square::G3
        } else if i == 23 {
            Square::H3
        } else if i == 24 {
            Square::A4
        } else if i == 25 {
            Square::B4
        } else if i == 26 {
            Square::C4
        } else if i == 27 {
            Square::D4
        } else if i == 28 {
            Square::E4
        } else if i == 29 {
            Square::F4
        } else if i == 30 {
            Square::G4
        } else if i == 31 {
            Square::H4
        } else if i == 32 {
            Square::A5
        } else if i == 33 {
            Square::B5
        } else if i == 34 {
            Square::C5
        } else if i == 35 {
            Square::D5
        } else if i == 36 {
            Square::E5
        } else if i == 37 {
            Square::F5
        } else if i == 38 {
            Square::G5
        } else if i == 39 {
            Square::H5
        } else if i == 40 {
            Square::A6
        } else if i == 41 {
            Square::B6
        } else if i == 42 {
            Square::C6
        } else if i == 43 {
            Square::D6
        } else if i == 44 {
            Square::E6
        } else if i == 45 {
            Square::F6
        } else if i == 46 {
            Square::G6
        } else if i == 47 {
            Square::H6
        } else if i == 48 {
            Square::A7
        } else if i == 49 {
            Square::B7
        } else if i == 50 {
            Square::C7
        } else if i == 51 {
            Square::D7
        } else if i == 52 {
            Square::E7
        } else if i == 53 {
            Square::F7
        } else if i == 54 {
            Square::G7
        } else if i == 55 {
            Square::H7
        } else if i == 56 {
            Square::A8
        } else if i == 57 {
            Square::B8
        } else if i == 58 {
            Square::C8
        } else if i == 59 {
            Square::D8
        } else if i == 60 {
            Square::E8
        } else if i == 61 {
            Square::F8
        } else if i == 62 {
            Square::G8
        } else {
            Square::H8
        }
    }

    /// Converts to the integer that stands for this square.
    pub fn to_u8(self) -> (r: u8)
        ensures
            r == self.index(),
            r < 64,
            Square::at(r as int) == self,
    {
        match self {
            Square::A1 => 0,
            Square::B1 => 1,
            Square::C1 => 2,
            Square::D1 => 3,
            Square::E1 => 4,
            Square::F1 => 5,
            Square::G1 => 6,
            Square::H1 => 7,
            Square::A2 => 8,
            Square::B2 => 9,
            Square::C2 => 10,
            Square::D2 => 11,
            Square::E2 => 12,
            Square::F2 => 13,
            Square::G2 => 14,
            Square::H2 => 15,
            Square::A3 => 16,
            Square::B3 => 17,
            Square::C3 => 18,
            Square::D3 => 19,
            Square::E3 => 20,
            Square::F3 => 21,
            Square::G3 => 22,
            Square::H3 => 23,
            Square::A4 => 24,
            Square::B4 => 25,
            Square::C4 => 26,
            Square::D4 => 27,
            Square::E4 => 28,
            Square::F4 => 29,
            Square::G4 => 30,
            Square::H4 => 31,
            Square::A5 => 32,
            Square::B5 => 33,
            Square::C5 => 34,
            Square::D5 => 35,
            Square::E5 => 36,
            Square::F5 => 37,
            Square::G5 => 38,
            Square::H5 => 39,
            Square::A6 => 40,
            Square::B6 => 41,
            Square::C6 => 42,
            Square::D6 => 43,
            Square::E6 => 44,
            Square::F6 => 45,
            Square::G6 => 46,
            Square::H6 => 47,
            Square::A7 => 48,
            Square::B7 => 49,
            Square::C7 => 50,
            Square::D7 => 51,
            Square::E7 => 52,
            Square::F7 => 53,
            Square::G7 => 54,
            Square::H7 => 55,
            Square::A8 => 56,
            Square::B8 => 57,
            Square::C8 => 58,
            Square::D8 => 59,
            Square::E8 => 60,
            Square::F8 => 61,
            Square::G8 => 62,
            Square::H8 => 63,
        }
    }

    /// The two-character algebraic name: the file's letter, then the rank's
    /// digit.
    pub open spec fn name(self) -> Seq<char> {
        seq![file_letter(self.index() % 8), rank_digit(self.index() / 8)]
    }

    /// The square that `s` names, if it names one.
    pub open spec fn from_name(s: Seq<char>) -> Option<Square> {
        if s.len() == 2 && is_file_letter(s[0]) && is_rank_digit(s[1]) {
            Some(Square::at((s[1] as int - '1' as int) * 8 + (s[0] as int - 'a' as int)))
        } else {
            None
        }
    }

    /// The file of this square.
    pub fn file(self) -> (f: File)
        ensures
            f.index() == self.index() % 8,
    {
        match self {
            Square::A1 => File::A,
            Square::B1 => File::B,
            Square::C1 => File::C,
            Square::D1 => File::D,
            Square::E1 => File::E,
            Square::F1 => File::F,
            Square::G1 => File::G,
            Square::H1 => File::H,
            Square::A2 => File::A,
            Square::B2 => File::B,
            Square::C2 => File::C,
            Square::D2 => File::D,
            Square::E2 => File::E,
            Square::F2 => File::F,
            Square::G2 => File::G,
            Square::H2 => File::H,
            Square::A3 => File::A,
            Square::B3 => File::B,
            Square::C3 => File::C,
            Square::D3 => File::D,
            Square::E3 => File::E,
            Square::F3 => File::F,
            Square::G3 => File::G,
            Square::H3 => File::H,
            Square::A4 => File::A,
            Square::B4 => File::B,
            Square::C4 => File::C,
            Square::D4 => File::D,
            Square::E4 => File::E,
            Square::F4 => File::F,
            Square::G4 => File::G,
            Square::H4 => File::H,
            Square::A5 => File::A,
            Square::B5 => File::B,
            Square::C5 => File::C,
            Square::D5 => File::D,
            Square::E5 => File::E,
            Square::F5 => File::F,
            Square::G5 => File::G,
            Square::H5 => File::H,
            Square::A6 => File::A,
            Square::B6 => File::B,
            Square::C6 => File::C,
            Square::D6 => File::D,
            Square::E6 => File::E,
            Square::F6 => File::F,
            Square::G6 => File::G,
            Square::H6 => File::H,
            Square::A7 => File::A,
            Square::B7 => File::B,
            Square::C7 => File::C,
            Square::D7 => File::D,
            Square::E7 => File::E,
            Square::F7 => File::F,
            Square::G7 => File::G,
            Square::H7 => File::H,
            Square::A8 => File::A,
            Square::B8 => File::B,
            Square::C8 => File::C,
            Square::D8 => File::D,
            Square::E8 => File::E,
            Square::F8 => File::F,
            Square::G8 => File::G,
            Square::H8 => File::H,
        }
    }

    /// The rank of this square.
    pub fn rank(self) -> (r: Rank)
        ensures
            r.index() == self.index() / 8,
    {
        match self {
            Square::A1 => Rank::R1,
            Square::B1 => Rank::R1,
            Square::C1 => Rank::R1,
            Square::D1 => Rank::R1,
            Square::E1 => Rank::R1,
            Square::F1 => Rank::R1,
            Square::G1 => Rank::R1,
            Square::H1 => Rank::R1,
            Square::A2 => Rank::R2,
            Square::B2 => Rank::R2,
            Square::C2 => Rank::R2,
            Square::D2 => Rank::R2,
            Square::E2 => Rank::R2,
            Square::F2 => Rank::R2,
            Square::G2 => Rank::R2,
            Square::H2 => Rank::R2,
            Square::A3 => Rank::R3,
            Square::B3 => Rank::R3,
            Square::C3 => Rank::R3,
            Square::D3 => Rank::R3,
            Square::E3 => Rank::R3,
            Square::F3 => Rank::R3,
            Square::G3 => Rank::R3,
            Square::H3 => Rank::R3,
            Square::A4 => Rank::R4,
            Square::B4 => Rank::R4,
            Square::C4 => Rank::R4,
            Square::D4 => Rank::R4,
            Square::E4 => Rank::R4,
            Square::F4 => Rank::R4,
            Square::G4 => Rank::R4,
            Square::H4 => Rank::R4,
            Square::A5 => Rank::R5,
            Square::B5 => Rank::R5,
            Square::C5 => Rank::R5,
            Square::D5 => Rank::R5,
            Square::E5 => Rank::R5,
            Square::F5 => Rank::R5,
            Square::G5 => Rank::R5,
            Square::H5 => Rank::R5,
            Square::A6 => Rank::R6,
            Square::B6 => Rank::R6,
            Square::C6 => Rank::R6,
            Square::D6 => Rank::R6,
            Square::E6 => Rank::R6,
            Square::F6 => Rank::R6,
            Square::G6 => Rank::R6,
            Square::H6 => Rank::R6,
            Square::A7 => Rank::R7,
            Square::B7 => Rank::R7,
            Square::C7 => Rank::R7,
            Square::D7 => Rank::R7,
            Square::E7 => Rank::R7,
            Square::F7 => Rank::R7,
            Square::G7 => Rank::R7,
            Square::H7 => Rank::R7,
            Square::A8 => Rank::R8,
            Square::B8 => Rank::R8,
            Square::C8 => Rank::R8,
            Square::D8 => Rank::R8,
            Square::E8 => Rank::R8,
            Square::F8 => Rank::R8,
            Square::G8 => Rank::R8,
            Square::H8 => Rank::R8,
        }
    }

    /// Reads an algebraic name given by its characters.
    pub fn from_chars(name: &Vec<char>) -> (r: Option<Self>)
        ensures
            r == Square::from_name(name@),
    {
        if name.len() != 2 {
            return None;
        }
        let file = name[0];
        let rank = name[1];
        if 'a' <= file && file <= 'h' && '1' <= rank && rank <= '8' {
            let index = (rank as u8 - 49) * 8 + (file as u8 - 97);
            match Square::try_from(index) {
                Ok(sq) => Some(sq),
                Err(_) => None,
            }
        } else {
            None
        }
    }

    /// Reads an algebraic name, `a1` to `h8`; any other text is refused.
    pub fn from_str(s: &str) -> (r: Option<Self>)
        ensures
            r == Square::from_name(s@),
    {
        if s.unicode_len() != 2 {
            return None;
        }
        let file = s.get_char(0);
        let rank = s.get_char(1);
        if 'a' <= file && file <= 'h' && '1' <= rank && rank <= '8' {
            let index = (rank as u8 - 49) * 8 + (file as u8 - 97);
            match Square::try_from(index) {
                Ok(sq) => Some(sq),
                Err(_) => None,
            }
        } else {
            None
        }
    }

    /// The algebraic name of this square.
    pub fn to_str(&self) -> (s: &'static str)
        ensures
            s@ == self.name(),
            Square::from_name(s@) == Some(*self),
    {
        match self {
            Square::A1 => {
                proof {
                    reveal_strlit("a1");
                    assert("a1"@ =~= Square::A1.name());
                }
                "a1"
            },
            Square::B1 => {
                proof {
                    reveal_strlit("b1");
                    assert("b1"@ =~= Square::B1.name());
                }
                "b1"
            },
            Square::C1 => {
                proof {
                    reveal_strlit("c1");
                    assert("c1"@ =~= Square::C1.name());
                }
                "c1"
            },
            Square::D1 => {
                proof {
                    reveal_strlit("d1");
                    assert("d1"@ =~= Square::D1.name());
                }
                "d1"
            },
            Square::E1 => {
                proof {
                    reveal_strlit("e1");
                    assert("e1"@ =~= Square::E1.name());
                }
                "e1"
            },
            Square::F1 => {
                proof {
                    reveal_strlit("f1");
                    assert("f1"@ =~= Square::F1.name());
                }
                "f1"
            },
            Square::G1 => {
                proof {
                    reveal_strlit("g1");
                    assert("g1"@ =~= Square::G1.name());
                }
                "g1"
            },
            Square::H1 => {
                proof {
                    reveal_strlit("h1");
                    assert("h1"@ =~= Square::H1.name());
                }
                "h1"
            },
            Square::A2 => {
                proof {
                    reveal_strlit("a2");
                    assert("a2"@ =~= Square::A2.name());
                }
                "a2"
            },
            Square::B2 => {
                proof {
                    reveal_strlit("b2");
                    assert("b2"@ =~= Square::B2.name());
                }
                "b2"
            },
            Square::C2 => {
                proof {
                    reveal_strlit("c2");
                    assert("c2"@ =~= Square::C2.name());
                }
                "c2"
            },
            Square::D2 => {
                proof {
                    reveal_strlit("d2");
                    assert("d2"@ =~= Square::D2.name());
                }
                "d2"
            },
            Square::E2 => {
                proof {
                    reveal_strlit("e2");
                    assert("e2"@ =~= Square::E2.name());
                }
                "e2"
            },
            Square::F2 => {
                proof {
                    reveal_strlit("f2");
                    assert("f2"@ =~= Square::F2.name());
                }
                "f2"
            },
            Square::G2 => {
                proof {
                    reveal_strlit("g2");
                    assert("g2"@ =~= Square::G2.name());
                }
                "g2"
            },
            Square::H2 => {
                proof {
                    reveal_strlit("h2");
                    assert("h2"@ =~= Square::H2.name());
                }
                "h2"
            },
            Square::A3 => {
                proof {
                    reveal_strlit("a3");
                    assert("a3"@ =~= Square::A3.name());
                }
                "a3"
            },
            Square::B3 => {
                proof {
                    reveal_strlit("b3");
                    assert("b3"@ =~= Square::B3.name());
                }
                "b3"
            },
            Square::C3 => {
                proof {
                    reveal_strlit("c3");
                    assert("c3"@ =~= Square::C3.name());
                }
                "c3"
            },
            Square::D3 => {
                proof {
                    reveal_strlit("d3");
                    assert("d3"@ =~= Square::D3.name());
                }
                "d3"
            },
            Square::E3 => {
                proof {
                    reveal_strlit("e3");
                    assert("e3"@ =~= Square::E3.name());
                }
                "e3"
            },
            Square::F3 => {
                proof {
                    reveal_strlit("f3");
                    assert("f3"@ =~= Square::F3.name());
                }
                "f3"
            },
            Square::G3 => {
                proof {
                    reveal_strlit("g3");
                    assert("g3"@ =~= Square::G3.name());
                }
                "g3"
            },
            Square::H3 => {
                proof {
                    reveal_strlit("h3");
                    assert("h3"@ =~= Square::H3.name());
                }
                "h3"
            },
            Square::A4 => {
                proof {
                    reveal_strlit("a4");
                    assert("a4"@ =~= Square::A4.name());
                }
                "a4"
            },
            Square::B4 => {
                proof {
                    reveal_strlit("b4");
                    assert("b4"@ =~= Square::B4.name());
                }
                "b4"
            },
            Square::C4 => {
                proof {
                    reveal_strlit("c4");
                    assert("c4"@ =~= Square::C4.name());
                }
                "c4"
            },
            Square::D4 => {
                proof {
                    reveal_strlit("d4");
                    assert("d4"@ =~= Square::D4.name());
                }
                "d4"
            },
            Square::E4 => {
                proof {
                    reveal_strlit("e4");
                    assert("e4"@ =~= Square::E4.name());
                }
                "e4"
            },
            Square::F4 => {
                proof {
                    reveal_strlit("f4");
                    assert("f4"@ =~= Square::F4.name());
                }
                "f4"
            },
            Square::G4 => {
                proof {
                    reveal_strlit("g4");
                    assert("g4"@ =~= Square::G4.name());
                }
                "g4"
            },
            Square::H4 => {
                proof {
                    reveal_strlit("h4");
                    assert("h4"@ =~= Square::H4.name());
                }
                "h4"
            },
            Square::A5 => {
                proof {
                    reveal_strlit("a5");
                    assert("a5"@ =~= Square::A5.name());
                }
                "a5"
            },
            Square::B5 => {
                proof {
                    reveal_strlit("b5");
                    assert("b5"@ =~= Square::B5.name());
                }
                "b5"
            },
            Square::C5 => {
                proof {
                    reveal_strlit("c5");
                    assert("c5"@ =~= Square::C5.name());
                }
                "c5"
            },
            Square::D5 => {
                proof {
                    reveal_strlit("d5");
                    assert("d5"@ =~= Square::D5.name());
                }
                "d5"
            },
            Square::E5 => {
                proof {
                    reveal_strlit("e5");
                    assert("e5"@ =~= Square::E5.name());
                }
                "e5"
            },
            Square::F5 => {
                proof {
                    reveal_strlit("f5");
                    assert("f5"@ =~= Square::F5.name());
                }
                "f5"
            },
            Square::G5 => {
                proof {
                    reveal_strlit("g5");
                    assert("g5"@ =~= Square::G5.name());
                }
                "g5"
            },
            Square::H5 => {
                proof {
                    reveal_strlit("h5");
                    assert("h5"@ =~= Square::H5.name());
                }
                "h5"
            },
            Square::A6 => {
                proof {
                    reveal_strlit("a6");
                    assert("a6"@ =~= Square::A6.name());
                }
                "a6"
            },
            Square::B6 => {
                proof {
                    reveal_strlit("b6");
                    assert("b6"@ =~= Square::B6.name());
                }
                "b6"
            },
            Square::C6 => {
                proof {
                    reveal_strlit("c6");
                    assert("c6"@ =~= Square::C6.name());
                }
                "c6"
            },
            Square::D6 => {
                proof {
                    reveal_strlit("d6");
                    assert("d6"@ =~= Square::D6.name());
                }
                "d6"
            },
            Square::E6 => {
                proof {
                    reveal_strlit("e6");
                    assert("e6"@ =~= Square::E6.name());
                }
                "e6"
            },
            Square::F6 => {
                proof {
                    reveal_strlit("f6");
                    assert("f6"@ =~= Square::F6.name());
                }
                "f6"
            },
            Square::G6 => {
                proof {
                    reveal_strlit("g6");
                    assert("g6"@ =~= Square::G6.name());
                }
                "g6"
            },
            Square::H6 => {
                proof {
                    reveal_strlit("h6");
                    assert("h6"@ =~= Square::H6.name());
                }
                "h6"
            },
            Square::A7 => {
                proof {
                    reveal_strlit("a7");
                    assert("a7"@ =~= Square::A7.name());
                }
                "a7"
            },
            Square::B7 => {
                proof {
                    reveal_strlit("b7");
                    assert("b7"@ =~= Square::B7.name());
                }
                "b7"
            },
            Square::C7 => {
                proof {
                    reveal_strlit("c7");
                    assert("c7"@ =~= Square::C7.name());
                }
                "c7"
            },
            Square::D7 => {
                proof {
                    reveal_strlit("d7");
                    assert("d7"@ =~= Square::D7.name());
                }
                "d7"
            },
            Square::E7 => {
                proof {
                    reveal_strlit("e7");
                    assert("e7"@ =~= Square::E7.name());
                }
                "e7"
            },
            Square::F7 => {
                proof {
                    reveal_strlit("f7");
                    assert("f7"@ =~= Square::F7.name());
                }
                "f7"
            },
            Square::G7 => {
                proof {
                    reveal_strlit("g7");
                    assert("g7"@ =~= Square::G7.name());
                }
                "g7"
            },
            Square::H7 => {
                proof {
                    reveal_strlit("h7");
                    assert("h7"@ =~= Square::H7.name());
                }
                "h7"
            },
            Square::A8 => {
                proof {
                    reveal_strlit("a8");
                    assert("a8"@ =~= Square::A8.name());
                }
                "a8"
            },
            Square::B8 => {
                proof {
                    reveal_strlit("b8");
                    assert("b8"@ =~= Square::B8.name());
                }
                "b8"
            },
            Square::C8 => {
                proof {
                    reveal_strlit("c8");
                    assert("c8"@ =~= Square::C8.name());
                }
                "c8"
            },
            Square::D8 => {
                proof {
                    reveal_strlit("d8");
                    assert("d8"@ =~= Square::D8.name());
                }
                "d8"
            },
            Square::E8 => {
                proof {
                    reveal_strlit("e8");
                    assert("e8"@ =~= Square::E8.name());
                }
                "e8"
            },
            Square::F8 => {
                proof {
                    reveal_strlit("f8");
                    assert("f8"@ =~= Square::F8.name());
                }
                "f8"
            },
            Square::G8 => {
                proof {
                    reveal_strlit("g8");
                    assert("g8"@ =~= Square::G8.name());
                }
                "g8"
            },
            Square::H8 => {
                proof {
                    reveal_strlit("h8");
                    assert("h8"@ =~= Square::H8.name());
                }
                "h8"
            },
        }
    }
}

impl TryFrom<u8> for Square {
    type Error = ();

    /// Converts from the integer that stands for a square; any other
    /// integer is refused.
    fn try_from(value: u8) -> (r: Result<Self, ()>) {
        match value {
            0 => Ok(Square::A1),
            1 => Ok(Square::B1),
            2 => Ok(Square::C1),
            3 => Ok(Square::D1),
            4 => Ok(Square::E1),
            5 => Ok(Square::F1),
            6 => Ok(Square::G1),
            7 => Ok(Square::H1),
            8 => Ok(Square::A2),
            9 => Ok(Square::B2),
            10 => Ok(Square::C2),
            11 => Ok(Square::D2),
            12 => Ok(Square::E2),
            13 => Ok(Square::F2),
            14 => Ok(Square::G2),
            15 => Ok(Square::H2),
            16 => Ok(Square::A3),
            17 => Ok(Square::B3),
            18 => Ok(Square::C3),
            19 => Ok(Square::D3),
            20 => Ok(Square::E3),
            21 => Ok(Square::F3),
            22 => Ok(Square::G3),
            23 => Ok(Square::H3),
            24 => Ok(Square::A4),
            25 => Ok(Square::B4),
            26 => Ok(Square::C4),
            27 => Ok(Square::D4),
            28 => Ok(Square::E4),
            29 => Ok(Square::F4),
            30 => Ok(Square::G4),
            31 => Ok(Square::H4),
            32 => Ok(Square::A5),
            33 => Ok(Square::B5),
            34 => Ok(Square::C5),
            35 => Ok(Square::D5),
            36 => Ok(Square::E5),
            37 => Ok(Square::F5),
            38 => Ok(Square::G5),
            39 => Ok(Square::H5),
            40 => Ok(Square::A6),
            41 => Ok(Square::B6),
            42 => Ok(Square::C6),
            43 => Ok(Square::D6),
            44 => Ok(Square::E6),
            45 => Ok(Square::F6),
            46 => Ok(Square::G6),
            47 => Ok(Square::H6),
            48 => Ok(Square::A7),
            49 => Ok(Square::B7),
            50 => Ok(Square::C7),
            51 => Ok(Square::D7),
            52 => Ok(Square::E7),
            53 => Ok(Square::F7),
            54 => Ok(Square::G7),
            55 => Ok(Square::H7),
            56 => Ok(Square::A8),
            57 => Ok(Square::B8),
            58 => Ok(Square::C8),
            59 => Ok(Square::D8),
            60 => Ok(Square::E8),
            61 => Ok(Square::F8),
            62 => Ok(Square::G8),
            63 => Ok(Square::H8),
            _ => Err(()),
        }
    }
}

impl vstd::std_specs::convert::TryFromSpecImpl<u8> for Square {
    /// The conversion does what `try_from_spec` says.
    open spec fn obeys_try_from_spec() -> bool {
        true
    }

    /// The value that `v` stands for, if it stands for one.
    open spec fn try_from_spec(v: u8) -> Result<Self, ()> {
        if v < 64 {
            Ok(Square::at(v as int))
        } else {
            Err(())
        }
    }
}

/// A square's name reads back as that square, and no other text does.
pub proof fn lemma_square_name_round_trip(sq: Square, s: Seq<char>)
    ensures
        Square::from_name(sq.name()) == Some(sq),
        Square::from_name(s) == Some(sq) ==> s == sq.name(),
{
    assert(sq.name().len() == 2);
    if Square::from_name(s) == Some(sq) {
        assert(s =~= sq.name());
    }
}

/// A square's integer converts back to that square, and the integers from
/// 64 up are refused.
pub proof fn lemma_square_index_round_trip(sq: Square, v: u8)
    ensures
        0 <= sq.index() < 64,
        Square::at(sq.index()) == sq,
        v < 64 ==> Square::at(v as int).index() == v,
{
}

} // verus!
