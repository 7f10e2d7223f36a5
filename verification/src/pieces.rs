//! Primitive value types: colors, piece kinds, pieces, and board coordinates.

use vstd::prelude::*;

verus! {

/// Relies on String::push: appends the character to the end of the string.
pub assume_specification[ String::push ](s: &mut String, c: char)
    ensures
        final(s)@ == old(s)@.push(c),
;

/// The two sides of the game.
#[derive(Debug, Clone, Copy, PartialEq, Eq, Structural)]
pub enum Color {
    White,
    Black,
}

impl Color {
    /// The other side.
    pub open spec fn spec_opposite(self) -> Color {
        match self {
            Color::White => Color::Black,
            Color::Black => Color::White,
        }
    }

    pub fn opposite(&self) -> (r: Color)
        ensures
            r == self.spec_opposite(),
    {
        match self {
            Color::White => Color::Black,
            Color::Black => Color::White,
        }
    }
}

/// The six kinds of piece.
#[derive(Debug, Clone, Copy, PartialEq, Eq, Structural)]
pub enum PieceType {
    Pawn,
    Knight,
    Bishop,
    Rook,
    Queen,
    King,
}

/// Base material value of a piece kind, in centipawns.
pub open spec fn spec_piece_value(t: PieceType) -> int {
    match t {
        PieceType::Pawn => 100,
        PieceType::Knight => 320,
        PieceType::Bishop => 330,
        PieceType::Rook => 500,
        PieceType::Queen => 900,
        PieceType::King => 20000,
    }
}

/// The filled figurine character shown for a piece kind.
pub open spec fn spec_piece_symbol(t: PieceType) -> char {
    match t {
        PieceType::Pawn => '♟',
        PieceType::Knight => '♞',
        PieceType::Bishop => '♝',
        PieceType::Rook => '♜',
        PieceType::Queen => '♛',
        PieceType::King => '♚',
    }
}

/// The three text rows a piece kind is drawn with on a large board cell.
pub open spec fn spec_ascii_art(t: PieceType) -> Seq<Seq<char>> {
    match t {
        PieceType::Pawn => seq![" ● "@, "▐█▌"@, "███"@],
        PieceType::Knight => seq!["▐▀▌"@, "▐█▌"@, "███"@],
        PieceType::Bishop => seq![" ◆ "@, "▐█▌"@, "███"@],
        PieceType::Rook => seq!["█▀█"@, "▐█▌"@, "███"@],
        PieceType::Queen => seq!["◆◆◆"@, "▐█▌"@, "███"@],
        PieceType::King => seq![" + "@, "▐█▌"@, "███"@],
    }
}

impl PieceType {
    pub fn value(&self) -> (r: i32)
        ensures
            r == spec_piece_value(*self),
    {
        match self {
            PieceType::Pawn => 100,
            PieceType::Knight => 320,
            PieceType::Bishop => 330,
            PieceType::Rook => 500,
            PieceType::Queen => 900,
            PieceType::King => 20000,
        }
    }

    pub fn symbol(&self) -> (r: char)
        ensures
            r == spec_piece_symbol(*self),
    {
        match self {
            PieceType::Pawn => '♟',
            PieceType::Knight => '♞',
            PieceType::Bishop => '♝',
            PieceType::Rook => '♜',
            PieceType::Queen => '♛',
            PieceType::King => '♚',
        }
    }

    /// The three rows the piece is drawn with, top to bottom.
    pub fn ascii_art(&self) -> (r: Vec<&'static str>)
        ensures
            r@.len() == 3,
            r@[0]@ == spec_ascii_art(*self)[0],
            r@[1]@ == spec_ascii_art(*self)[1],
            r@[2]@ == spec_ascii_art(*self)[2],
    {
        match self {
            PieceType::Pawn => {
                let mut v: Vec<&'static str> = Vec::new();
                v.push(" ● ");
                v.push("▐█▌");
                v.push("███");
                v
            },
            PieceType::Knight => {
                let mut v: Vec<&'static str> = Vec::new();
                v.push("▐▀▌");
                v.push("▐█▌");
                v.push("███");
                v
            },
            PieceType::Bishop => {
                let mut v: Vec<&'static str> = Vec::new();
                v.push(" ◆ ");
                v.push("▐█▌");
                v.push("███");
                v
            },
            PieceType::Rook => {
                let mut v: Vec<&'static str> = Vec::new();
                v.push("█▀█");
                v.push("▐█▌");
                v.push("███");
                v
            },
            PieceType::Queen => {
                let mut v: Vec<&'static str> = Vec::new();
                v.push("◆◆◆");
                v.push("▐█▌");
                v.push("███");
                v
            },
            PieceType::King => {
                let mut v: Vec<&'static str> = Vec::new();
                v.push(" + ");
                v.push("▐█▌");
                v.push("███");
                v
            },
        }
    }
}

/// A piece: a kind together with the side it belongs to.
#[derive(Debug, Clone, Copy, PartialEq, Eq, Structural)]
pub struct Piece {
    pub piece_type: PieceType,
    pub color: Color,
}

impl Piece {
    pub fn new(piece_type: PieceType, color: Color) -> (r: Piece)
        ensures
            r == (Piece { piece_type, color }),
    {
        Piece { piece_type, color }
    }

    pub fn symbol(&self) -> (r: char)
        ensures
            r == spec_piece_symbol(self.piece_type),
    {
        self.piece_type.symbol()
    }

    pub fn value(&self) -> (r: i32)
        ensures
            r == spec_piece_value(self.piece_type),
    {
        self.piece_type.value()
    }
}

/// The file letter of a column: 'a' for column 0 through 'h' for column 7.
pub open spec fn spec_file_char(col: int) -> char {
    ((97 + col) as u8) as char
}

/// The rank digit of a row: '8' for row 0 down to '1' for row 7.
pub open spec fn spec_rank_char(row: int) -> char {
    ((49 + 7 - row) as u8) as char
}

/// The two-character file-and-rank name of a square ("e4").
pub open spec fn spec_pos_algebraic(p: Position) -> Seq<char> {
    seq![spec_file_char(p.col as int), spec_rank_char(p.row as int)]
}

/// The square named by a two-character string, when it names one: a file
/// letter 'a'..'h' followed by a rank digit '1'..'8'.
pub open spec fn spec_from_algebraic(s: Seq<char>) -> Option<Position> {
    if s.len() == 2 && 97 <= s[0] as int <= 104 && 49 <= s[1] as int <= 56 {
        Some(Position { row: (7 - (s[1] as int - 49)) as usize, col: (s[0] as int - 97) as usize })
    } else {
        None
    }
}

/// A board coordinate. Row 0 is the top of the board (Black's back rank),
/// column 0 the leftmost file; both are valid only below 8.
#[derive(Debug, Clone, Copy, PartialEq, Eq, Structural)]
pub struct Position {
    pub row: usize,
    pub col: usize,
}

impl Position {
    /// Whether the coordinate lies on the 8x8 board.
    pub open spec fn spec_valid(self) -> bool {
        self.row < 8 && self.col < 8
    }

    pub fn new(row: usize, col: usize) -> (r: Position)
        ensures
            r == (Position { row, col }),
    {
        Position { row, col }
    }

    pub fn is_valid(&self) -> (r: bool)
        ensures
            r == self.spec_valid(),
    {
        self.row < 8 && self.col < 8
    }

    /// The square's file-and-rank name.
    pub fn to_algebraic(&self) -> (r: String)
        requires
            self.spec_valid(),
        ensures
            r@ == spec_pos_algebraic(*self),
    {
        let file = (97u8 + self.col as u8) as char;
        let rank = (49u8 + (7 - self.row) as u8) as char;
        let mut s = String::new();
        s.push(file);
        s.push(rank);
        proof {
            assert(s@ =~= spec_pos_algebraic(*self));
        }
        s
    }

    /// Parse a square name such as "e4"; `None` for anything that is not a
    /// file letter 'a'..'h' followed by a rank digit '1'..'8'.
    pub fn from_algebraic(s: &str) -> (r: Option<Position>)
        ensures
            r == spec_from_algebraic(s@),
    {
        if s.unicode_len() != 2 {
            return None;
        }
        let f = s.get_char(0) as u32;
        let d = s.get_char(1) as u32;
        if f < 97 || f > 104 || d < 49 || d > 56 {
            return None;
        }
        let col = (f - 97) as usize;
        let row = (7 - (d - 49)) as usize;
        Some(Position::new(row, col))
    }
}

} // verus!
