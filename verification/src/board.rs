//! The board: an 8x8 grid of optional pieces plus auxiliary state (side to
//! move, en-passant target, castling rights, move clocks), and the single
//! mutation entry point `make_move`.
//!
//! Contracts are stated over [`BoardView`], a mathematical model of the board,
//! through the view `@`. `spec_after_move` gives the exact post-state of
//! `make_move` for every move value.

use vstd::prelude::*;

use crate::moves::{Move, MoveType};
use crate::pieces::{Color, Piece, PieceType, Position};

verus! {

broadcast use vstd::array::group_array_axioms;

/// Which castlings are still available, per color and side.
#[derive(Debug, Clone, Copy, PartialEq, Eq, Structural)]
pub struct CastlingRights {
    pub white_kingside: bool,
    pub white_queenside: bool,
    pub black_kingside: bool,
    pub black_queenside: bool,
}

impl CastlingRights {
    pub fn new() -> (r: CastlingRights)
        ensures
            r == (CastlingRights {
                white_kingside: true,
                white_queenside: true,
                black_kingside: true,
                black_queenside: true,
            }),
    {
        CastlingRights {
            white_kingside: true,
            white_queenside: true,
            black_kingside: true,
            black_queenside: true,
        }
    }
}

/// Mathematical model of a board: the grid as a sequence of rows, with the
/// auxiliary state as unbounded integers.
pub struct BoardView {
    pub grid: Seq<Seq<Option<Piece>>>,
    pub turn: Color,
    pub ep: Option<Position>,
    pub rights: CastlingRights,
    pub halfmove: int,
    pub fullmove: int,
}

impl BoardView {
    /// The grid really is 8x8. Holds of the view of every `Board`.
    pub open spec fn wf(self) -> bool {
        self.grid.len() == 8 && forall|r: int| 0 <= r < 8 ==> (#[trigger] self.grid[r]).len() == 8
    }

    /// The piece on square (r, c); `None` off the board, mirroring `get_piece`.
    pub open spec fn sq(self, r: int, c: int) -> Option<Piece> {
        if 0 <= r < 8 && 0 <= c < 8 {
            self.grid[r][c]
        } else {
            None
        }
    }

    /// The piece on a `Position`.
    pub open spec fn sq_at(self, p: Position) -> Option<Piece> {
        self.sq(p.row as int, p.col as int)
    }

    /// The grid with square (r, c) replaced; unchanged off the board,
    /// mirroring `set_piece`.
    pub open spec fn with_sq(self, r: int, c: int, p: Option<Piece>) -> BoardView {
        if 0 <= r < 8 && 0 <= c < 8 {
            BoardView { grid: self.grid.update(r, self.grid[r].update(c, p)), ..self }
        } else {
            self
        }
    }

    /// The grid with the square at `pos` replaced.
    pub open spec fn with_sq_at(self, pos: Position, p: Option<Piece>) -> BoardView {
        self.with_sq(pos.row as int, pos.col as int, p)
    }
}

/// `make_move` applies a move only when the square at `mv.from` still holds
/// exactly the piece the move claims to be moving.
pub open spec fn spec_can_apply(b: BoardView, mv: Move) -> bool {
    b.sq_at(mv.from) == Some(mv.piece)
}

/// The grid (only) after the type-specific mutation of `mv`: piece moved,
/// captures overwritten, the en-passant victim removed, the castling rook
/// relocated, or the promoted piece placed.
pub open spec fn spec_grid_after(b: BoardView, mv: Move) -> BoardView {
    match mv.move_type {
        MoveType::Normal | MoveType::Capture => b.with_sq_at(mv.from, None).with_sq_at(
            mv.to,
            Some(mv.piece),
        ),
        MoveType::EnPassant => b.with_sq_at(mv.from, None).with_sq_at(mv.to, Some(mv.piece))
            .with_sq(mv.from.row as int, mv.to.col as int, None),
        MoveType::Castle => {
            let k = b.with_sq_at(mv.from, None).with_sq_at(mv.to, Some(mv.piece));
            if mv.to.col > mv.from.col {
                let rook = k.sq(mv.from.row as int, 7);
                k.with_sq(mv.from.row as int, 7, None).with_sq(mv.from.row as int, 5, rook)
            } else {
                let rook = k.sq(mv.from.row as int, 0);
                k.with_sq(mv.from.row as int, 0, None).with_sq(mv.from.row as int, 3, rook)
            }
        },
        MoveType::Promotion(t) => b.with_sq_at(mv.from, None).with_sq_at(
            mv.to,
            Some(Piece { piece_type: t, color: mv.piece.color }),
        ),
    }
}

/// The en-passant target after `mv`: set only right after a two-row pawn
/// advance, to the passed-over square; cleared otherwise.
pub open spec fn spec_ep_after(mv: Move) -> Option<Position> {
    if mv.piece.piece_type == PieceType::Pawn && (mv.to.row - mv.from.row == 2 || mv.from.row
        - mv.to.row == 2) {
        Some(
            Position {
                row: (((mv.from.row + mv.to.row) as int) / 2) as usize,
                col: mv.from.col,
            },
        )
    } else {
        None
    }
}

/// Castling rights after `mv`: both of a color's rights fall when its king
/// moves; one side's right falls when the rook leaves its home corner.
pub open spec fn spec_rights_after(r: CastlingRights, mv: Move) -> CastlingRights {
    if mv.piece.piece_type == PieceType::King {
        match mv.piece.color {
            Color::White => CastlingRights { white_kingside: false, white_queenside: false, ..r },
            Color::Black => CastlingRights { black_kingside: false, black_queenside: false, ..r },
        }
    } else if mv.piece.piece_type == PieceType::Rook {
        if mv.piece.color == Color::White && mv.from.row == 7 && mv.from.col == 0 {
            CastlingRights { white_queenside: false, ..r }
        } else if mv.piece.color == Color::White && mv.from.row == 7 && mv.from.col == 7 {
            CastlingRights { white_kingside: false, ..r }
        } else if mv.piece.color == Color::Black && mv.from.row == 0 && mv.from.col == 0 {
            CastlingRights { black_queenside: false, ..r }
        } else if mv.piece.color == Color::Black && mv.from.row == 0 && mv.from.col == 7 {
            CastlingRights { black_kingside: false, ..r }
        } else {
            r
        }
    } else {
        r
    }
}

/// The halfmove clock after `mv`: reset by any capture or pawn move, else
/// incremented.
pub open spec fn spec_halfmove_after(b: BoardView, mv: Move) -> int {
    if mv.captured is Some || mv.piece.piece_type == PieceType::Pawn {
        0
    } else {
        b.halfmove + 1
    }
}

/// The full model after `make_move`: the board is unchanged when the move is
/// rejected, and otherwise gets the new grid, flipped side to move, and the
/// updated en-passant target, rights and clocks.
pub open spec fn spec_after_move(b: BoardView, mv: Move) -> BoardView {
    if !spec_can_apply(b, mv) {
        b
    } else {
        let g = spec_grid_after(b, mv);
        BoardView {
            grid: g.grid,
            turn: b.turn.spec_opposite(),
            ep: spec_ep_after(mv),
            rights: spec_rights_after(b.rights, mv),
            halfmove: spec_halfmove_after(b, mv),
            fullmove: if b.turn == Color::Black {
                b.fullmove + 1
            } else {
                b.fullmove
            },
        }
    }
}

/// Whether flat index n (row-major, 0..64) holds a king of `color`.
pub open spec fn spec_king_here(b: BoardView, color: Color, n: int) -> bool {
    b.sq(n / 8, n % 8) matches Some(p) && p.color == color && p.piece_type == PieceType::King
}

/// The first square at flat index n or beyond (row-major) holding a king of
/// `color`, or `None`.
pub open spec fn spec_find_king_from(b: BoardView, color: Color, n: int) -> Option<Position>
    decreases 64 - n,
{
    if n < 0 || n >= 64 {
        None
    } else if spec_king_here(b, color, n) {
        Some(Position { row: (n / 8) as usize, col: (n % 8) as usize })
    } else {
        spec_find_king_from(b, color, n + 1)
    }
}

/// The square of the first king of `color` in row-major order, if any.
pub open spec fn spec_find_king(b: BoardView, color: Color) -> Option<Position> {
    spec_find_king_from(b, color, 0)
}

/// All (position, piece) pairs of `color` from flat index n on, in row-major
/// order.
pub open spec fn spec_pieces_from(b: BoardView, color: Color, n: int) -> Seq<(Position, Piece)>
    decreases 64 - n,
{
    if n < 0 || n >= 64 {
        Seq::empty()
    } else {
        let rest = spec_pieces_from(b, color, n + 1);
        match b.sq(n / 8, n % 8) {
            Some(p) => if p.color == color {
                seq![(Position { row: (n / 8) as usize, col: (n % 8) as usize }, p)] + rest
            } else {
                rest
            },
            None => rest,
        }
    }
}

/// A square reported by `spec_find_king_from` is always a real board
/// coordinate.
pub proof fn lemma_find_king_valid(b: BoardView, color: Color, n: int)
    ensures
        spec_find_king_from(b, color, n) matches Some(p) ==> p.spec_valid(),
    decreases 64 - n,
{
    if 0 <= n < 64 && !spec_king_here(b, color, n) {
        lemma_find_king_valid(b, color, n + 1);
    }
}

/// All (position, piece) pairs of `color`, scanned row-major from the top
/// left; this order fixes the enumeration order of move generation.
pub open spec fn spec_all_pieces(b: BoardView, color: Color) -> Seq<(Position, Piece)> {
    spec_pieces_from(b, color, 0)
}

/// At most one piece per square: the scan from flat index n reports at most
/// 64 - n pieces.
pub proof fn lemma_pieces_from_len(b: BoardView, color: Color, n: int)
    requires
        0 <= n <= 64,
    ensures
        spec_pieces_from(b, color, n).len() <= 64 - n,
    decreases 64 - n,
{
    if 0 <= n < 64 {
        lemma_pieces_from_len(b, color, n + 1);
    }
}

/// The game state: grid plus auxiliary data. `squares[r][c]` is the piece on
/// row r, column c.
#[derive(Clone, Copy)]
pub struct Board {
    pub squares: [[Option<Piece>; 8]; 8],
    pub current_player: Color,
    pub en_passant_target: Option<Position>,
    pub castling_rights: CastlingRights,
    pub halfmove_clock: u32,
    pub fullmove_number: u32,
}

impl View for Board {
    type V = BoardView;

    open spec fn view(&self) -> BoardView {
        BoardView {
            grid: Seq::new(8, |r: int| Seq::new(8, |c: int| self.squares@[r]@[c])),
            turn: self.current_player,
            ep: self.en_passant_target,
            rights: self.castling_rights,
            halfmove: self.halfmove_clock as int,
            fullmove: self.fullmove_number as int,
        }
    }
}

/// The standard starting grid: back ranks on rows 0 (Black) and 7 (White),
/// pawns on rows 1 and 6, everything between empty.
pub open spec fn spec_initial_square(r: int, c: int) -> Option<Piece> {
    if r == 1 {
        Some(Piece { piece_type: PieceType::Pawn, color: Color::Black })
    } else if r == 6 {
        Some(Piece { piece_type: PieceType::Pawn, color: Color::White })
    } else if r == 0 || r == 7 {
        let color = if r == 0 {
            Color::Black
        } else {
            Color::White
        };
        let t = if c == 0 || c == 7 {
            PieceType::Rook
        } else if c == 1 || c == 6 {
            PieceType::Knight
        } else if c == 2 || c == 5 {
            PieceType::Bishop
        } else if c == 3 {
            PieceType::Queen
        } else {
            PieceType::King
        };
        Some(Piece { piece_type: t, color })
    } else {
        None
    }
}

/// The starting state of a game: the standard starting grid, White to move,
/// no en-passant target, full castling rights, clocks at 0 and 1.
pub open spec fn spec_is_initial(b: BoardView) -> bool {
    &&& forall|r: int, c: int|
        0 <= r < 8 && 0 <= c < 8 ==> b.sq(r, c) == spec_initial_square(r, c)
    &&& b.turn == Color::White
    &&& b.ep is None
    &&& b.rights == (CastlingRights {
        white_kingside: true,
        white_queenside: true,
        black_kingside: true,
        black_queenside: true,
    })
    &&& b.halfmove == 0
    &&& b.fullmove == 1
}

impl Board {
    /// A fresh game: the standard starting position, White to move, full
    /// castling rights, clocks at 0 and 1.
    pub fn new() -> (b: Board)
        ensures
            spec_is_initial(b@),
    {
        let mut board = Board {
            squares: [[None; 8]; 8],
            current_player: Color::White,
            en_passant_target: None,
            castling_rights: CastlingRights::new(),
            halfmove_clock: 0,
            fullmove_number: 1,
        };
        proof {
            let inner = vstd::array::spec_array_fill_for_copy_type::<Option<Piece>, 8>(None);
            let outer = vstd::array::spec_array_fill_for_copy_type::<[Option<Piece>; 8], 8>(inner);
            assert(board.squares == outer);
            assert(forall|r: int| 0 <= r < 8 ==> outer@[r] == inner);
            assert(forall|c: int| 0 <= c < 8 ==> inner@[c] is None);
            assert(forall|r: int, c: int| 0 <= r < 8 && 0 <= c < 8 ==> board@.sq(r, c) is None);
        }
        board.setup_initial_position();
        proof {
            assert forall|r: int, c: int| 0 <= r < 8 && 0 <= c < 8 implies board@.sq(r, c)
                == spec_initial_square(r, c) by {
                if 2 <= r <= 5 {
                    assert(board@.sq(r, c) is None);
                }
            }
        }
        board
    }

    /// Place the 32 starting pieces on an otherwise arbitrary grid.
    fn setup_initial_position(&mut self)
        ensures
            forall|r: int, c: int|
                0 <= r < 8 && 0 <= c < 8 && !(r == 2 || r == 3 || r == 4 || r == 5)
                    ==> final(self)@.sq(r, c) == spec_initial_square(r, c),
            forall|r: int, c: int|
                0 <= r < 8 && 0 <= c < 8 && (r == 2 || r == 3 || r == 4 || r == 5)
                    ==> final(self)@.sq(r, c) == old(self)@.sq(r, c),
            final(self).current_player == old(self).current_player,
            final(self).en_passant_target == old(self).en_passant_target,
            final(self).castling_rights == old(self).castling_rights,
            final(self).halfmove_clock == old(self).halfmove_clock,
            final(self).fullmove_number == old(self).fullmove_number,
    {
        let mut col: usize = 0;
        while col < 8
            invariant
                col <= 8,
                forall|c: int| 0 <= c < col ==> self@.sq(1, c) == spec_initial_square(1, c),
                forall|c: int| 0 <= c < col ==> self@.sq(6, c) == spec_initial_square(6, c),
                forall|r: int, c: int|
                    0 <= r < 8 && 0 <= c < 8 && r != 1 && r != 6 ==> self@.sq(r, c) == old(
                        self,
                    )@.sq(r, c),
                forall|c: int| col <= c < 8 ==> self@.sq(1, c) == old(self)@.sq(1, c),
                forall|c: int| col <= c < 8 ==> self@.sq(6, c) == old(self)@.sq(6, c),
                self.current_player == old(self).current_player,
                self.en_passant_target == old(self).en_passant_target,
                self.castling_rights == old(self).castling_rights,
                self.halfmove_clock == old(self).halfmove_clock,
                self.fullmove_number == old(self).fullmove_number,
            decreases 8 - col,
        {
            self.squares[1][col] = Some(Piece::new(PieceType::Pawn, Color::Black));
            self.squares[6][col] = Some(Piece::new(PieceType::Pawn, Color::White));
            col += 1;
        }

        self.squares[0][0] = Some(Piece::new(PieceType::Rook, Color::Black));
        self.squares[0][1] = Some(Piece::new(PieceType::Knight, Color::Black));
        self.squares[0][2] = Some(Piece::new(PieceType::Bishop, Color::Black));
        self.squares[0][3] = Some(Piece::new(PieceType::Queen, Color::Black));
        self.squares[0][4] = Some(Piece::new(PieceType::King, Color::Black));
        self.squares[0][5] = Some(Piece::new(PieceType::Bishop, Color::Black));
        self.squares[0][6] = Some(Piece::new(PieceType::Knight, Color::Black));
        self.squares[0][7] = Some(Piece::new(PieceType::Rook, Color::Black));

        self.squares[7][0] = Some(Piece::new(PieceType::Rook, Color::White));
        self.squares[7][1] = Some(Piece::new(PieceType::Knight, Color::White));
        self.squares[7][2] = Some(Piece::new(PieceType::Bishop, Color::White));
        self.squares[7][3] = Some(Piece::new(PieceType::Queen, Color::White));
        self.squares[7][4] = Some(Piece::new(PieceType::King, Color::White));
        self.squares[7][5] = Some(Piece::new(PieceType::Bishop, Color::White));
        self.squares[7][6] = Some(Piece::new(PieceType::Knight, Color::White));
        self.squares[7][7] = Some(Piece::new(PieceType::Rook, Color::White));
    }

    /// The piece on `pos`, or `None` when `pos` is off the board.
    pub fn get_piece(&self, pos: Position) -> (r: Option<Piece>)
        ensures
            r == self@.sq_at(pos),
    {
        if pos.is_valid() {
            self.squares[pos.row][pos.col]
        } else {
            None
        }
    }

    /// Apply `mv`. Rejected (returning false, board untouched) when the
    /// square at `mv.from` no longer holds `mv.piece`, which defends against
    /// stale move lists; otherwise the board becomes exactly
    /// `spec_after_move` of its old state and the call returns true.
    #[verifier::rlimit(50)]
    pub fn make_move(&mut self, mv: &Move) -> (r: bool)
        requires
            old(self).halfmove_clock < u32::MAX,
            old(self).fullmove_number < u32::MAX,
        ensures
            r == spec_can_apply(old(self)@, *mv),
            final(self)@ == spec_after_move(old(self)@, *mv),
    {
        let here = self.get_piece(mv.from);
        let matches_mover = match here {
            Some(p) => p == mv.piece,
            None => false,
        };
        if !matches_mover {
            return false;
        }

        if mv.captured.is_some() || mv.piece.piece_type == PieceType::Pawn {
            self.halfmove_clock = 0;
        } else {
            self.halfmove_clock = self.halfmove_clock + 1;
        }

        match mv.move_type {
            MoveType::Normal | MoveType::Capture => {
                self.set_piece(mv.from, None);
                self.set_piece(mv.to, Some(mv.piece));
                proof {
                    assert(self@.grid =~~= spec_grid_after(old(self)@, *mv).grid);
                }
            },
            MoveType::EnPassant => {
                self.set_piece(mv.from, None);
                self.set_piece(mv.to, Some(mv.piece));
                let captured_pawn_pos = Position::new(mv.from.row, mv.to.col);
                self.set_piece(captured_pawn_pos, None);
                proof {
                    assert(self@.grid =~~= spec_grid_after(old(self)@, *mv).grid);
                }
            },
            MoveType::Castle => {
                self.set_piece(mv.from, None);
                self.set_piece(mv.to, Some(mv.piece));
                if mv.to.col > mv.from.col {
                    let rook = self.get_piece(Position::new(mv.from.row, 7));
                    self.set_piece(Position::new(mv.from.row, 7), None);
                    self.set_piece(Position::new(mv.from.row, 5), rook);
                    proof {
                        assert(self@.grid =~~= spec_grid_after(old(self)@, *mv).grid);
                    }
                } else {
                    let rook = self.get_piece(Position::new(mv.from.row, 0));
                    self.set_piece(Position::new(mv.from.row, 0), None);
                    self.set_piece(Position::new(mv.from.row, 3), rook);
                    proof {
                        assert(self@.grid =~~= spec_grid_after(old(self)@, *mv).grid);
                    }
                }
            },
            MoveType::Promotion(promoted_to) => {
                self.set_piece(mv.from, None);
                self.set_piece(mv.to, Some(Piece::new(promoted_to, mv.piece.color)));
                proof {
                    assert(self@.grid =~~= spec_grid_after(old(self)@, *mv).grid);
                }
            },
        }

        self.en_passant_target = None;
        if mv.piece.piece_type == PieceType::Pawn {
            let row_diff = if mv.to.row >= mv.from.row {
                mv.to.row - mv.from.row
            } else {
                mv.from.row - mv.to.row
            };
            if row_diff == 2 {
                let ep_row = (mv.from.row + mv.to.row) / 2;
                self.en_passant_target = Some(Position::new(ep_row, mv.from.col));
            }
        }

        if mv.piece.piece_type == PieceType::King {
            match mv.piece.color {
                Color::White => {
                    self.castling_rights.white_kingside = false;
                    self.castling_rights.white_queenside = false;
                },
                Color::Black => {
                    self.castling_rights.black_kingside = false;
                    self.castling_rights.black_queenside = false;
                },
            }
        } else if mv.piece.piece_type == PieceType::Rook {
            if mv.piece.color == Color::White && mv.from.row == 7 && mv.from.col == 0 {
                self.castling_rights.white_queenside = false;
            } else if mv.piece.color == Color::White && mv.from.row == 7 && mv.from.col == 7 {
                self.castling_rights.white_kingside = false;
            } else if mv.piece.color == Color::Black && mv.from.row == 0 && mv.from.col == 0 {
                self.castling_rights.black_queenside = false;
            } else if mv.piece.color == Color::Black && mv.from.row == 0 && mv.from.col == 7 {
                self.castling_rights.black_kingside = false;
            }
        }

        if self.current_player == Color::Black {
            self.fullmove_number = self.fullmove_number + 1;
        }

        self.current_player = self.current_player.opposite();

        true
    }

    /// The square of the first king of `color` in row-major order; `None`
    /// signals an invalid or unreachable state.
    pub fn find_king(&self, color: Color) -> (r: Option<Position>)
        ensures
            r == spec_find_king(self@, color),
    {
        let mut row: usize = 0;
        while row < 8
            invariant
                row <= 8,
                spec_find_king(self@, color) == spec_find_king_from(self@, color, row as int * 8),
            decreases 8 - row,
        {
            let mut col: usize = 0;
            while col < 8
                invariant
                    row < 8,
                    col <= 8,
                    spec_find_king(self@, color) == spec_find_king_from(
                        self@,
                        color,
                        row as int * 8 + col as int,
                    ),
                decreases 8 - col,
            {
                proof {
                    let n = row as int * 8 + col as int;
                    assert(n / 8 == row as int && n % 8 == col as int);
                }
                if let Some(piece) = self.squares[row][col] {
                    if piece.color == color && piece.piece_type == PieceType::King {
                        return Some(Position::new(row, col));
                    }
                }
                col += 1;
            }
            row += 1;
        }
        None
    }

    /// All (position, piece) pairs of `color`, in row-major scan order.
    pub fn get_all_pieces(&self, color: Color) -> (r: Vec<(Position, Piece)>)
        ensures
            r@ == spec_all_pieces(self@, color),
    {
        let mut pieces: Vec<(Position, Piece)> = Vec::new();
        let mut row: usize = 0;
        while row < 8
            invariant
                row <= 8,
                pieces@ + spec_pieces_from(self@, color, row as int * 8) == spec_all_pieces(
                    self@,
                    color,
                ),
            decreases 8 - row,
        {
            let mut col: usize = 0;
            while col < 8
                invariant
                    row < 8,
                    col <= 8,
                    pieces@ + spec_pieces_from(self@, color, row as int * 8 + col as int)
                        == spec_all_pieces(self@, color),
                decreases 8 - col,
            {
                proof {
                    let n = row as int * 8 + col as int;
                    assert(n / 8 == row as int && n % 8 == col as int);
                }
                if let Some(piece) = self.squares[row][col] {
                    if piece.color == color {
                        let ghost prev = pieces@;
                        pieces.push((Position::new(row, col), piece));
                        proof {
                            let n = row as int * 8 + col as int;
                            assert(pieces@ + spec_pieces_from(self@, color, n + 1) =~= prev
                                + spec_pieces_from(self@, color, n));
                        }
                    }
                }
                col += 1;
            }
            row += 1;
        }
        proof {
            assert(pieces@ =~= spec_all_pieces(self@, color));
        }
        pieces
    }

    /// Replace the piece on `pos`; does nothing when `pos` is off the board.
    pub fn set_piece(&mut self, pos: Position, piece: Option<Piece>)
        ensures
            final(self)@ == old(self)@.with_sq_at(pos, piece),
    {
        if pos.is_valid() {
            self.squares[pos.row][pos.col] = piece;
        }
        proof {
            assert(self@.grid =~~= old(self)@.with_sq_at(pos, piece).grid);
        }
    }
}

impl Default for Board {
    /// A fresh game, as `Board::new` builds it.
    fn default() -> (b: Board)
        ensures
            spec_is_initial(b@),
    {
        Board::new()
    }
}

} // verus!
