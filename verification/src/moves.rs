//! Moves: a self-contained description of one move, sufficient to replay its
//! effect on a board without re-deriving intent.

use vstd::prelude::*;

use crate::pieces::{spec_file_char, spec_pos_algebraic, Piece, PieceType, Position};

verus! {

/// The letter a piece kind is written with in move notation; pawns get none.
pub open spec fn spec_piece_letter(t: PieceType) -> Seq<char> {
    match t {
        PieceType::Pawn => ""@,
        PieceType::Knight => "N"@,
        PieceType::Bishop => "B"@,
        PieceType::Rook => "R"@,
        PieceType::Queen => "Q"@,
        PieceType::King => "K"@,
    }
}

/// The suffix letter of a promotion target; empty for kinds a pawn cannot
/// promote to.
pub open spec fn spec_promo_letter(t: PieceType) -> Seq<char> {
    match t {
        PieceType::Knight => "N"@,
        PieceType::Bishop => "B"@,
        PieceType::Rook => "R"@,
        PieceType::Queen => "Q"@,
        _ => ""@,
    }
}

/// The minimal textual form of a move: piece letter (none for a pawn), a
/// capture marker ('x', preceded by the origin file for pawn captures), the
/// destination square, castling as "O-O"/"O-O-O", and "=X" after a
/// promotion. No disambiguation and no check or mate suffixes.
pub open spec fn spec_move_algebraic(mv: Move) -> Seq<char> {
    match mv.move_type {
        MoveType::Castle => if mv.to.col > mv.from.col {
            "O-O"@
        } else {
            "O-O-O"@
        },
        MoveType::Promotion(t) => spec_piece_letter(mv.piece.piece_type) + (if mv.captured
            is Some {
            "x"@
        } else {
            Seq::<char>::empty()
        }) + spec_pos_algebraic(mv.to) + "="@ + spec_promo_letter(t),
        _ => {
            let capture = if mv.captured is Some {
                if mv.piece.piece_type == PieceType::Pawn {
                    seq![spec_file_char(mv.from.col as int), 'x']
                } else {
                    "x"@
                }
            } else {
                Seq::<char>::empty()
            };
            spec_piece_letter(mv.piece.piece_type) + capture + spec_pos_algebraic(mv.to)
        },
    }
}

/// How a move mutates the board beyond relocating the mover.
#[derive(Debug, Clone, Copy, PartialEq, Eq, Structural)]
pub enum MoveType {
    Normal,
    Capture,
    EnPassant,
    Castle,
    Promotion(PieceType),
}

/// One move: origin, destination, the moving piece (as it stood before the
/// move), the captured piece if any, and the move's kind.
#[derive(Debug, Clone, Copy)]
pub struct Move {
    pub from: Position,
    pub to: Position,
    pub move_type: MoveType,
    pub piece: Piece,
    pub captured: Option<Piece>,
}

/// A quiet move: no capture recorded, kind `Normal`.
pub open spec fn spec_move_new(from: Position, to: Position, piece: Piece) -> Move {
    Move { from, to, move_type: MoveType::Normal, piece, captured: None }
}

/// A capturing move of the given victim, kind `Capture`.
pub open spec fn spec_move_capture(from: Position, to: Position, piece: Piece, captured: Piece) -> Move {
    Move { from, to, move_type: MoveType::Capture, piece, captured: Some(captured) }
}

impl Move {
    pub fn new(from: Position, to: Position, piece: Piece) -> (r: Move)
        ensures
            r == spec_move_new(from, to, piece),
    {
        Move { from, to, move_type: MoveType::Normal, piece, captured: None }
    }

    pub fn with_capture(from: Position, to: Position, piece: Piece, captured: Piece) -> (r: Move)
        ensures
            r == spec_move_capture(from, to, piece, captured),
    {
        Move { from, to, move_type: MoveType::Capture, piece, captured: Some(captured) }
    }

    /// The same move with its kind replaced.
    pub fn with_type(self, move_type: MoveType) -> (r: Move)
        ensures
            r == (Move { move_type, ..self }),
    {
        let mut m = self;
        m.move_type = move_type;
        m
    }

    /// The move-notation letter of a piece kind.
    fn piece_letter(t: PieceType) -> (r: &'static str)
        ensures
            r@ == spec_piece_letter(t),
    {
        match t {
            PieceType::Pawn => "",
            PieceType::Knight => "N",
            PieceType::Bishop => "B",
            PieceType::Rook => "R",
            PieceType::Queen => "Q",
            PieceType::King => "K",
        }
    }

    /// The suffix letter of a promotion target.
    fn promo_letter(t: PieceType) -> (r: &'static str)
        ensures
            r@ == spec_promo_letter(t),
    {
        match t {
            PieceType::Knight => "N",
            PieceType::Bishop => "B",
            PieceType::Rook => "R",
            PieceType::Queen => "Q",
            _ => "",
        }
    }

    /// The move's minimal textual form ("Nxf3", "e4", "O-O", "exd8=Q").
    pub fn to_algebraic(&self) -> (r: String)
        requires
            self.from.spec_valid(),
            self.to.spec_valid(),
        ensures
            r@ == spec_move_algebraic(*self),
    {
        match self.move_type {
            MoveType::Castle => {
                if self.to.col > self.from.col {
                    "O-O".to_owned()
                } else {
                    "O-O-O".to_owned()
                }
            },
            MoveType::Promotion(promoted_to) => {
                let mut s = String::new();
                s.append(Self::piece_letter(self.piece.piece_type));
                if self.captured.is_some() {
                    s.append("x");
                }
                let dest = self.to.to_algebraic();
                s.append(dest.as_str());
                s.append("=");
                s.append(Self::promo_letter(promoted_to));
                proof {
                    assert(s@ =~= spec_move_algebraic(*self));
                }
                s
            },
            _ => {
                let mut s = String::new();
                s.append(Self::piece_letter(self.piece.piece_type));
                if self.captured.is_some() {
                    if self.piece.piece_type == PieceType::Pawn {
                        let file = (97u8 + self.from.col as u8) as char;
                        s.push(file);
                        s.push('x');
                    } else {
                        s.append("x");
                    }
                }
                let dest = self.to.to_algebraic();
                s.append(dest.as_str());
                proof {
                    assert(s@ =~= spec_move_algebraic(*self));
                }
                s
            },
        }
    }
}

} // verus!
