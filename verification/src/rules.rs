//! Move generation and rules: pseudo-legal and legal moves, attack queries,
//! and terminal-state predicates, as pure functions over a board.

use vstd::prelude::*;

use crate::board::{spec_after_move, spec_find_king, Board, BoardView};
use crate::moves::{spec_move_capture, spec_move_new, Move, MoveType};
use crate::pieces::{Color, Piece, PieceType, Position};

verus! {

/// Whether square (r, c) holds a piece of `by` of kind `t`; false off board.
pub open spec fn spec_piece_at_is(b: BoardView, r: int, c: int, by: Color, t: PieceType) -> bool {
    b.sq(r, c) matches Some(p) && p.color == by && p.piece_type == t
}

/// Whether a pawn of `by` attacks `pos`: pawns of White attack the two
/// diagonal squares above them (toward row 0), Black the two below.
pub open spec fn spec_pawn_attack(b: BoardView, pos: Position, by: Color) -> bool {
    let ar = pos.row + (if by == Color::White {
        1int
    } else {
        -1int
    });
    spec_piece_at_is(b, ar, pos.col - 1, by, PieceType::Pawn) || spec_piece_at_is(
        b,
        ar,
        pos.col + 1,
        by,
        PieceType::Pawn,
    )
}

/// Whether a knight of `by` stands a knight's jump away from `pos`.
pub open spec fn spec_knight_attack(b: BoardView, pos: Position, by: Color) -> bool {
    let r = pos.row as int;
    let c = pos.col as int;
    ||| spec_piece_at_is(b, r - 2, c - 1, by, PieceType::Knight)
    ||| spec_piece_at_is(b, r - 2, c + 1, by, PieceType::Knight)
    ||| spec_piece_at_is(b, r - 1, c - 2, by, PieceType::Knight)
    ||| spec_piece_at_is(b, r - 1, c + 2, by, PieceType::Knight)
    ||| spec_piece_at_is(b, r + 1, c - 2, by, PieceType::Knight)
    ||| spec_piece_at_is(b, r + 1, c + 2, by, PieceType::Knight)
    ||| spec_piece_at_is(b, r + 2, c - 1, by, PieceType::Knight)
    ||| spec_piece_at_is(b, r + 2, c + 1, by, PieceType::Knight)
}

/// Whether the ray that starts on square (r, c) and steps by (dr, dc) meets,
/// on its first occupied square, a piece of `by` that slides along it: a
/// queen always, a bishop on diagonal rays, a rook on orthogonal ones.
pub open spec fn spec_ray_attack(
    b: BoardView,
    r: int,
    c: int,
    dr: int,
    dc: int,
    by: Color,
    diagonal: bool,
) -> bool
    decreases (if dr > 0 {
        8 - r
    } else if dr < 0 {
        r + 1
    } else if dc > 0 {
        8 - c
    } else {
        c + 1
    }),
{
    if !(-1 <= dr <= 1 && -1 <= dc <= 1) || (dr == 0 && dc == 0) || !(0 <= r < 8 && 0 <= c < 8) {
        false
    } else {
        match b.sq(r, c) {
            Some(p) => p.color == by && (p.piece_type == PieceType::Queen || (diagonal
                && p.piece_type == PieceType::Bishop) || (!diagonal && p.piece_type
                == PieceType::Rook)),
            None => spec_ray_attack(b, r + dr, c + dc, dr, dc, by, diagonal),
        }
    }
}

/// Whether the king of `by` stands on a square adjacent to `pos`.
pub open spec fn spec_king_adjacent_attack(b: BoardView, pos: Position, by: Color) -> bool {
    let r = pos.row as int;
    let c = pos.col as int;
    ||| spec_piece_at_is(b, r - 1, c - 1, by, PieceType::King)
    ||| spec_piece_at_is(b, r - 1, c, by, PieceType::King)
    ||| spec_piece_at_is(b, r - 1, c + 1, by, PieceType::King)
    ||| spec_piece_at_is(b, r, c - 1, by, PieceType::King)
    ||| spec_piece_at_is(b, r, c + 1, by, PieceType::King)
    ||| spec_piece_at_is(b, r + 1, c - 1, by, PieceType::King)
    ||| spec_piece_at_is(b, r + 1, c, by, PieceType::King)
    ||| spec_piece_at_is(b, r + 1, c + 1, by, PieceType::King)
}

/// Whether any piece of `by` attacks `pos`: a pawn diagonally, a knight by
/// its jumps, a slider along the first-occupant ray toward `pos`, or the
/// adjacent king.
pub open spec fn spec_attacked(b: BoardView, pos: Position, by: Color) -> bool {
    let r = pos.row as int;
    let c = pos.col as int;
    ||| spec_pawn_attack(b, pos, by)
    ||| spec_knight_attack(b, pos, by)
    ||| spec_ray_attack(b, r - 1, c - 1, -1, -1, by, true)
    ||| spec_ray_attack(b, r - 1, c, -1, 0, by, false)
    ||| spec_ray_attack(b, r - 1, c + 1, -1, 1, by, true)
    ||| spec_ray_attack(b, r, c - 1, 0, -1, by, false)
    ||| spec_ray_attack(b, r, c + 1, 0, 1, by, false)
    ||| spec_ray_attack(b, r + 1, c - 1, 1, -1, by, true)
    ||| spec_ray_attack(b, r + 1, c, 1, 0, by, false)
    ||| spec_ray_attack(b, r + 1, c + 1, 1, 1, by, true)
    ||| spec_king_adjacent_attack(b, pos, by)
}

/// Whether the king of `color` is attacked by the other side; false when no
/// king of `color` is on the board.
pub open spec fn spec_in_check(b: BoardView, color: Color) -> bool {
    match spec_find_king(b, color) {
        Some(kp) => spec_attacked(b, kp, color.spec_opposite()),
        None => false,
    }
}

/// Whether applying `mv` leaves the mover's own king attacked (a missing
/// king counts as attacked: such a state is never treated as safe).
pub open spec fn spec_move_leaves_check(b: BoardView, mv: Move) -> bool {
    let after = spec_after_move(b, mv);
    match spec_find_king(after, mv.piece.color) {
        Some(kp) => spec_attacked(after, kp, mv.piece.color.spec_opposite()),
        None => true,
    }
}

/// The four promotion variants of `base`, in the order queen, rook, bishop,
/// knight.
pub open spec fn spec_promos(base: Move) -> Seq<Move> {
    seq![
        Move { move_type: MoveType::Promotion(PieceType::Queen), ..base },
        Move { move_type: MoveType::Promotion(PieceType::Rook), ..base },
        Move { move_type: MoveType::Promotion(PieceType::Bishop), ..base },
        Move { move_type: MoveType::Promotion(PieceType::Knight), ..base },
    ]
}

/// A pawn's push moves: one square forward onto an empty square (as the four
/// promotion variants when that is the back rank), and two squares from the
/// starting rank when both squares are empty.
pub open spec fn spec_pawn_forward(b: BoardView, pos: Position, piece: Piece) -> Seq<Move> {
    let dir: int = if piece.color == Color::White {
        -1
    } else {
        1
    };
    let start_row: int = if piece.color == Color::White {
        6
    } else {
        1
    };
    let promo_row: int = if piece.color == Color::White {
        0
    } else {
        7
    };
    let nr = pos.row + dir;
    if 0 <= nr < 8 && b.sq(nr, pos.col as int) is None {
        let fwd = Position { row: nr as usize, col: pos.col };
        let first = if nr == promo_row {
            spec_promos(spec_move_new(pos, fwd, piece))
        } else {
            seq![spec_move_new(pos, fwd, piece)]
        };
        let dbl_row = pos.row + 2 * dir;
        let dbl = if pos.row == start_row && b.sq(dbl_row, pos.col as int) is None {
            seq![spec_move_new(pos, Position { row: dbl_row as usize, col: pos.col }, piece)]
        } else {
            Seq::<Move>::empty()
        };
        first + dbl
    } else {
        Seq::empty()
    }
}

/// A pawn's captures toward column offset `dcol`: the diagonal capture of an
/// opposing piece (as promotion variants on the back rank), then the
/// en-passant capture when the diagonal square is the board's current target.
pub open spec fn spec_pawn_capture(b: BoardView, pos: Position, piece: Piece, dcol: int) -> Seq<
    Move,
> {
    let dir: int = if piece.color == Color::White {
        -1
    } else {
        1
    };
    let promo_row: int = if piece.color == Color::White {
        0
    } else {
        7
    };
    let nr = pos.row + dir;
    let nc = pos.col + dcol;
    if 0 <= nc < 8 && 0 <= nr < 8 {
        let cap_pos = Position { row: nr as usize, col: nc as usize };
        let normal = match b.sq(nr, nc) {
            Some(target) => if target.color != piece.color {
                if nr == promo_row {
                    spec_promos(spec_move_capture(pos, cap_pos, piece, target))
                } else {
                    seq![spec_move_capture(pos, cap_pos, piece, target)]
                }
            } else {
                Seq::<Move>::empty()
            },
            None => Seq::empty(),
        };
        let ep = if b.ep == Some(cap_pos) {
            seq![
                Move {
                    move_type: MoveType::EnPassant,
                    ..spec_move_capture(
                        pos,
                        cap_pos,
                        piece,
                        Piece { piece_type: PieceType::Pawn, color: piece.color.spec_opposite() },
                    )
                },
            ]
        } else {
            Seq::<Move>::empty()
        };
        normal + ep
    } else {
        Seq::empty()
    }
}

/// All pawn moves: pushes, then captures toward the lower column, then
/// captures toward the higher column.
pub open spec fn spec_pawn_moves(b: BoardView, pos: Position, piece: Piece) -> Seq<Move> {
    spec_pawn_forward(b, pos, piece) + spec_pawn_capture(b, pos, piece, -1) + spec_pawn_capture(
        b,
        pos,
        piece,
        1,
    )
}

/// The moves a piece reaches one fixed offset away: the empty square as a
/// quiet move, an opposing occupant as a capture, its own as nothing.
pub open spec fn spec_step_move(b: BoardView, pos: Position, piece: Piece, dr: int, dc: int) -> Seq<
    Move,
> {
    let r = pos.row + dr;
    let c = pos.col + dc;
    if 0 <= r < 8 && 0 <= c < 8 {
        let np = Position { row: r as usize, col: c as usize };
        match b.sq(r, c) {
            None => seq![spec_move_new(pos, np, piece)],
            Some(target) => if target.color != piece.color {
                seq![spec_move_capture(pos, np, piece, target)]
            } else {
                Seq::<Move>::empty()
            },
        }
    } else {
        Seq::empty()
    }
}

/// All knight moves, over its eight fixed offsets.
pub open spec fn spec_knight_moves(b: BoardView, pos: Position, piece: Piece) -> Seq<Move> {
    spec_step_move(b, pos, piece, -2, -1) + spec_step_move(b, pos, piece, -2, 1) + spec_step_move(
        b,
        pos,
        piece,
        -1,
        -2,
    ) + spec_step_move(b, pos, piece, -1, 2) + spec_step_move(b, pos, piece, 1, -2)
        + spec_step_move(b, pos, piece, 1, 2) + spec_step_move(b, pos, piece, 2, -1)
        + spec_step_move(b, pos, piece, 2, 1)
}

/// The moves along one ray from square (r, c) in direction (dr, dc): quiet
/// moves over empty squares, a capture of the first opposing occupant as the
/// final step, nothing past the first occupant.
pub open spec fn spec_ray_moves(
    b: BoardView,
    pos: Position,
    piece: Piece,
    dr: int,
    dc: int,
    r: int,
    c: int,
) -> Seq<Move>
    decreases (if dr > 0 {
        8 - r
    } else if dr < 0 {
        r + 1
    } else if dc > 0 {
        8 - c
    } else {
        c + 1
    }),
{
    if !(-1 <= dr <= 1 && -1 <= dc <= 1) || (dr == 0 && dc == 0) || !(0 <= r < 8 && 0 <= c < 8) {
        Seq::empty()
    } else {
        let np = Position { row: r as usize, col: c as usize };
        match b.sq(r, c) {
            None => seq![spec_move_new(pos, np, piece)] + spec_ray_moves(
                b,
                pos,
                piece,
                dr,
                dc,
                r + dr,
                c + dc,
            ),
            Some(target) => if target.color != piece.color {
                seq![spec_move_capture(pos, np, piece, target)]
            } else {
                Seq::<Move>::empty()
            },
        }
    }
}

/// The full ray of moves in direction (dr, dc), starting beside `pos`.
pub open spec fn spec_ray_from(b: BoardView, pos: Position, piece: Piece, dr: int, dc: int) -> Seq<
    Move,
> {
    spec_ray_moves(b, pos, piece, dr, dc, pos.row + dr, pos.col + dc)
}

/// All bishop moves: the four diagonal rays.
pub open spec fn spec_bishop_moves(b: BoardView, pos: Position, piece: Piece) -> Seq<Move> {
    spec_ray_from(b, pos, piece, -1, -1) + spec_ray_from(b, pos, piece, -1, 1) + spec_ray_from(
        b,
        pos,
        piece,
        1,
        -1,
    ) + spec_ray_from(b, pos, piece, 1, 1)
}

/// All rook moves: the four orthogonal rays.
pub open spec fn spec_rook_moves(b: BoardView, pos: Position, piece: Piece) -> Seq<Move> {
    spec_ray_from(b, pos, piece, -1, 0) + spec_ray_from(b, pos, piece, 1, 0) + spec_ray_from(
        b,
        pos,
        piece,
        0,
        -1,
    ) + spec_ray_from(b, pos, piece, 0, 1)
}

/// All queen moves: the eight rays.
pub open spec fn spec_queen_moves(b: BoardView, pos: Position, piece: Piece) -> Seq<Move> {
    spec_ray_from(b, pos, piece, -1, -1) + spec_ray_from(b, pos, piece, -1, 0) + spec_ray_from(
        b,
        pos,
        piece,
        -1,
        1,
    ) + spec_ray_from(b, pos, piece, 0, -1) + spec_ray_from(b, pos, piece, 0, 1) + spec_ray_from(
        b,
        pos,
        piece,
        1,
        -1,
    ) + spec_ray_from(b, pos, piece, 1, 0) + spec_ray_from(b, pos, piece, 1, 1)
}

/// The castling moves: each side needs its right still held, the squares
/// between king and rook empty, the king's square unattacked, and — only for
/// the kingside — the transit square unattacked as well (the queenside
/// transit square is checked for occupancy but not for attack).
pub open spec fn spec_castle_moves(b: BoardView, pos: Position, piece: Piece) -> Seq<Move> {
    let kingside = if piece.color == Color::White {
        b.rights.white_kingside
    } else {
        b.rights.black_kingside
    };
    let queenside = if piece.color == Color::White {
        b.rights.white_queenside
    } else {
        b.rights.black_queenside
    };
    let row: int = if piece.color == Color::White {
        7
    } else {
        0
    };
    let opp = piece.color.spec_opposite();
    if !spec_attacked(b, pos, opp) {
        let ks = if kingside && pos.col == 4 && b.sq(row, 5) is None && b.sq(row, 6) is None
            && !spec_attacked(b, Position { row: row as usize, col: 5 }, opp) {
            seq![
                Move {
                    move_type: MoveType::Castle,
                    ..spec_move_new(pos, Position { row: row as usize, col: 6 }, piece)
                },
            ]
        } else {
            Seq::<Move>::empty()
        };
        let qs = if queenside && pos.col == 4 && b.sq(row, 3) is None && b.sq(row, 2) is None
            && b.sq(row, 1) is None && !spec_attacked(
            b,
            Position { row: row as usize, col: 3 },
            opp,
        ) {
            seq![
                Move {
                    move_type: MoveType::Castle,
                    ..spec_move_new(pos, Position { row: row as usize, col: 2 }, piece)
                },
            ]
        } else {
            Seq::<Move>::empty()
        };
        ks + qs
    } else {
        Seq::empty()
    }
}

/// All king moves: the eight adjacent steps, then castling.
pub open spec fn spec_king_moves(b: BoardView, pos: Position, piece: Piece) -> Seq<Move> {
    spec_step_move(b, pos, piece, -1, -1) + spec_step_move(b, pos, piece, -1, 0) + spec_step_move(
        b,
        pos,
        piece,
        -1,
        1,
    ) + spec_step_move(b, pos, piece, 0, -1) + spec_step_move(b, pos, piece, 0, 1)
        + spec_step_move(b, pos, piece, 1, -1) + spec_step_move(b, pos, piece, 1, 0)
        + spec_step_move(b, pos, piece, 1, 1) + spec_castle_moves(b, pos, piece)
}

/// The pseudo-legal moves of `piece` standing on `pos`: per-kind movement
/// rules, ignoring the safety of the mover's own king.
pub open spec fn spec_pseudo_moves(b: BoardView, pos: Position, piece: Piece) -> Seq<Move> {
    match piece.piece_type {
        PieceType::Pawn => spec_pawn_moves(b, pos, piece),
        PieceType::Knight => spec_knight_moves(b, pos, piece),
        PieceType::Bishop => spec_bishop_moves(b, pos, piece),
        PieceType::Rook => spec_rook_moves(b, pos, piece),
        PieceType::Queen => spec_queen_moves(b, pos, piece),
        PieceType::King => spec_king_moves(b, pos, piece),
    }
}

/// `ms` without the moves that would leave the mover's own king attacked;
/// the order of the survivors is kept.
pub open spec fn spec_keep_legal(b: BoardView, ms: Seq<Move>) -> Seq<Move>
    decreases ms.len(),
{
    if ms.len() == 0 {
        Seq::empty()
    } else {
        let head = if spec_move_leaves_check(b, ms[0]) {
            Seq::<Move>::empty()
        } else {
            seq![ms[0]]
        };
        head + spec_keep_legal(b, ms.drop_first())
    }
}

/// The legal moves from `pos`: empty unless `pos` holds a piece of the side
/// to move; otherwise its pseudo-legal moves with every move that leaves the
/// mover's own king attacked filtered out.
pub open spec fn spec_legal_moves(b: BoardView, pos: Position) -> Seq<Move> {
    match b.sq_at(pos) {
        Some(p) => if p.color == b.turn {
            spec_keep_legal(b, spec_pseudo_moves(b, pos, p))
        } else {
            Seq::empty()
        },
        None => Seq::empty(),
    }
}

/// The legality filter never lengthens a move list.
pub proof fn lemma_keep_legal_len(b: BoardView, ms: Seq<Move>)
    ensures
        spec_keep_legal(b, ms).len() <= ms.len(),
    decreases ms.len(),
{
    if ms.len() > 0 {
        lemma_keep_legal_len(b, ms.drop_first());
    }
}

/// A ray holds at most as many moves as it has squares left to walk.
proof fn lemma_ray_len(b: BoardView, pos: Position, piece: Piece, dr: int, dc: int, r: int, c: int)
    requires
        -1 <= dr <= 1,
        -1 <= dc <= 1,
        -1 <= r <= 8,
        -1 <= c <= 8,
    ensures
        spec_ray_moves(b, pos, piece, dr, dc, r, c).len() <= (if dr > 0 {
            8 - r
        } else if dr < 0 {
            r + 1
        } else if dc > 0 {
            8 - c
        } else {
            c + 1
        }),
    decreases (if dr > 0 {
        8 - r
    } else if dr < 0 {
        r + 1
    } else if dc > 0 {
        8 - c
    } else {
        c + 1
    }),
{
    if -1 <= dr <= 1 && -1 <= dc <= 1 && !(dr == 0 && dc == 0) && 0 <= r < 8 && 0 <= c < 8 {
        if b.sq(r, c) is None {
            lemma_ray_len(b, pos, piece, dr, dc, r + dr, c + dc);
        }
    }
}

/// One fixed offset yields at most one move.
proof fn lemma_step_len(b: BoardView, pos: Position, piece: Piece, dr: int, dc: int)
    ensures
        spec_step_move(b, pos, piece, dr, dc).len() <= 1,
{
}

/// Castling yields at most two moves.
proof fn lemma_castle_len(b: BoardView, pos: Position, piece: Piece)
    ensures
        spec_castle_moves(b, pos, piece).len() <= 2,
{
}

/// A pawn yields at most 15 moves (promotion variants included).
proof fn lemma_pawn_len(b: BoardView, pos: Position, piece: Piece)
    ensures
        spec_pawn_moves(b, pos, piece).len() <= 15,
{
    assert(spec_pawn_forward(b, pos, piece).len() <= 5);
    assert(spec_pawn_capture(b, pos, piece, -1).len() <= 5);
    assert(spec_pawn_capture(b, pos, piece, 1).len() <= 5);
}

/// No piece has more than 72 pseudo-legal moves from one square.
#[verifier::rlimit(50)]
pub proof fn lemma_pseudo_len(b: BoardView, pos: Position, piece: Piece)
    requires
        pos.spec_valid(),
    ensures
        spec_pseudo_moves(b, pos, piece).len() <= 72,
{
    let r = pos.row as int;
    let c = pos.col as int;
    match piece.piece_type {
        PieceType::Pawn => {
            lemma_pawn_len(b, pos, piece);
        },
        PieceType::Knight => {
            lemma_step_len(b, pos, piece, -2, -1);
            lemma_step_len(b, pos, piece, -2, 1);
            lemma_step_len(b, pos, piece, -1, -2);
            lemma_step_len(b, pos, piece, -1, 2);
            lemma_step_len(b, pos, piece, 1, -2);
            lemma_step_len(b, pos, piece, 1, 2);
            lemma_step_len(b, pos, piece, 2, -1);
            lemma_step_len(b, pos, piece, 2, 1);
        },
        PieceType::Bishop => {
            lemma_ray_len(b, pos, piece, -1, -1, r - 1, c - 1);
            lemma_ray_len(b, pos, piece, -1, 1, r - 1, c + 1);
            lemma_ray_len(b, pos, piece, 1, -1, r + 1, c - 1);
            lemma_ray_len(b, pos, piece, 1, 1, r + 1, c + 1);
        },
        PieceType::Rook => {
            lemma_ray_len(b, pos, piece, -1, 0, r - 1, c);
            lemma_ray_len(b, pos, piece, 1, 0, r + 1, c);
            lemma_ray_len(b, pos, piece, 0, -1, r, c - 1);
            lemma_ray_len(b, pos, piece, 0, 1, r, c + 1);
        },
        PieceType::Queen => {
            lemma_ray_len(b, pos, piece, -1, -1, r - 1, c - 1);
            lemma_ray_len(b, pos, piece, -1, 0, r - 1, c);
            lemma_ray_len(b, pos, piece, -1, 1, r - 1, c + 1);
            lemma_ray_len(b, pos, piece, 0, -1, r, c - 1);
            lemma_ray_len(b, pos, piece, 0, 1, r, c + 1);
            lemma_ray_len(b, pos, piece, 1, -1, r + 1, c - 1);
            lemma_ray_len(b, pos, piece, 1, 0, r + 1, c);
            lemma_ray_len(b, pos, piece, 1, 1, r + 1, c + 1);
        },
        PieceType::King => {
            lemma_step_len(b, pos, piece, -1, -1);
            lemma_step_len(b, pos, piece, -1, 0);
            lemma_step_len(b, pos, piece, -1, 1);
            lemma_step_len(b, pos, piece, 0, -1);
            lemma_step_len(b, pos, piece, 0, 1);
            lemma_step_len(b, pos, piece, 1, -1);
            lemma_step_len(b, pos, piece, 1, 0);
            lemma_step_len(b, pos, piece, 1, 1);
            lemma_castle_len(b, pos, piece);
        },
    }
}

/// No square offers more than 72 legal moves.
pub proof fn lemma_legal_len(b: BoardView, pos: Position)
    ensures
        spec_legal_moves(b, pos).len() <= 72,
{
    match b.sq_at(pos) {
        Some(p) => {
            if p.color == b.turn {
                lemma_pseudo_len(b, pos, p);
                lemma_keep_legal_len(b, spec_pseudo_moves(b, pos, p));
            }
        },
        None => {},
    }
}

/// Whether the piece (if any) of `color` on square (r, c) has no legal move.
pub open spec fn spec_square_ok(b: BoardView, color: Color, r: int, c: int) -> bool {
    match b.sq(r, c) {
        Some(p) => p.color == color ==> spec_legal_moves(
            b,
            Position { row: r as usize, col: c as usize },
        ).len() == 0,
        None => true,
    }
}

/// Whether every piece of `color` has zero legal moves. Note that legality
/// is judged against the side to move: for the side not to move this holds
/// vacuously, since `spec_legal_moves` is empty for its pieces.
pub open spec fn spec_has_no_legal_moves(b: BoardView, color: Color) -> bool {
    forall|r: int, c: int| 0 <= r < 8 && 0 <= c < 8 ==> #[trigger] spec_square_ok(b, color, r, c)
}

/// Checkmate: in check, and no piece of `color` has a legal move.
pub open spec fn spec_is_checkmate(b: BoardView, color: Color) -> bool {
    spec_in_check(b, color) && spec_has_no_legal_moves(b, color)
}

/// Stalemate: not in check, yet no piece of `color` has a legal move.
pub open spec fn spec_is_stalemate(b: BoardView, color: Color) -> bool {
    !spec_in_check(b, color) && spec_has_no_legal_moves(b, color)
}

/// The kinds of the pieces of `color` from flat index n on, row-major.
pub open spec fn spec_types_from(b: BoardView, color: Color, n: int) -> Seq<PieceType>
    decreases 64 - n,
{
    if n < 0 || n >= 64 {
        Seq::empty()
    } else {
        let rest = spec_types_from(b, color, n + 1);
        match b.sq(n / 8, n % 8) {
            Some(p) => if p.color == color {
                seq![p.piece_type] + rest
            } else {
                rest
            },
            None => rest,
        }
    }
}

/// The kinds of all pieces of `color`, in row-major scan order.
pub open spec fn spec_color_types(b: BoardView, color: Color) -> Seq<PieceType> {
    spec_types_from(b, color, 0)
}

/// The draw-by-material cases that are recognized: bare king against bare
/// king, and bare king against king plus one bishop or knight. All other
/// material configurations are deliberately not detected.
pub open spec fn spec_insufficient_material(b: BoardView) -> bool {
    let w = spec_color_types(b, Color::White);
    let bl = spec_color_types(b, Color::Black);
    if w.len() == 1 && bl.len() == 1 {
        true
    } else if (w.len() == 1 && bl.len() == 2) || (w.len() == 2 && bl.len() == 1) {
        let ps = if w.len() == 2 {
            w
        } else {
            bl
        };
        ps.contains(PieceType::Bishop) || ps.contains(PieceType::Knight)
    } else {
        false
    }
}

/// Move generation and attack queries over a board.
pub struct MoveGenerator;

impl MoveGenerator {
    /// Whether square (r, c) holds a piece of `by` of kind `t`.
    fn piece_at_is(board: &Board, r: i32, c: i32, by: Color, t: PieceType) -> (res: bool)
        requires
            -3 <= r <= 10,
            -3 <= c <= 10,
        ensures
            res == spec_piece_at_is(board@, r as int, c as int, by, t),
    {
        if 0 <= r && r < 8 && 0 <= c && c < 8 {
            match board.squares[r as usize][c as usize] {
                Some(p) => p.color == by && p.piece_type == t,
                None => false,
            }
        } else {
            false
        }
    }

    /// Walk from (r, c) in direction (dr, dc) to the first occupied square
    /// and report whether a matching slider of `by` stands there.
    fn ray_attacked(
        board: &Board,
        start_r: i32,
        start_c: i32,
        dr: i32,
        dc: i32,
        by: Color,
        diagonal: bool,
    ) -> (res: bool)
        requires
            -1 <= dr <= 1,
            -1 <= dc <= 1,
            !(dr == 0 && dc == 0),
            -1 <= start_r <= 8,
            -1 <= start_c <= 8,
        ensures
            res == spec_ray_attack(
                board@,
                start_r as int,
                start_c as int,
                dr as int,
                dc as int,
                by,
                diagonal,
            ),
    {
        let mut r = start_r;
        let mut c = start_c;
        while 0 <= r && r < 8 && 0 <= c && c < 8
            invariant
                -1 <= r <= 8,
                -1 <= c <= 8,
                -1 <= dr <= 1,
                -1 <= dc <= 1,
                !(dr == 0 && dc == 0),
                spec_ray_attack(board@, r as int, c as int, dr as int, dc as int, by, diagonal)
                    == spec_ray_attack(
                    board@,
                    start_r as int,
                    start_c as int,
                    dr as int,
                    dc as int,
                    by,
                    diagonal,
                ),
            decreases (if dr > 0 {
                8 - r
            } else if dr < 0 {
                r + 1
            } else if dc > 0 {
                8 - c
            } else {
                c + 1
            }),
        {
            match board.squares[r as usize][c as usize] {
                Some(p) => {
                    return p.color == by && (p.piece_type == PieceType::Queen || (diagonal
                        && p.piece_type == PieceType::Bishop) || (!diagonal && p.piece_type
                        == PieceType::Rook));
                },
                None => {
                    r = r + dr;
                    c = c + dc;
                },
            }
        }
        false
    }

    /// Whether any piece of `by_color` attacks `pos`: used for check
    /// detection, castling safety, and the legality filter.
    pub fn is_square_attacked(board: &Board, pos: Position, by_color: Color) -> (res: bool)
        requires
            pos.spec_valid(),
        ensures
            res == spec_attacked(board@, pos, by_color),
    {
        let r = pos.row as i32;
        let c = pos.col as i32;

        let pawn_row: i32 = if by_color == Color::White {
            r + 1
        } else {
            r - 1
        };
        if Self::piece_at_is(board, pawn_row, c - 1, by_color, PieceType::Pawn) {
            return true;
        }
        if Self::piece_at_is(board, pawn_row, c + 1, by_color, PieceType::Pawn) {
            return true;
        }

        if Self::piece_at_is(board, r - 2, c - 1, by_color, PieceType::Knight) {
            return true;
        }
        if Self::piece_at_is(board, r - 2, c + 1, by_color, PieceType::Knight) {
            return true;
        }
        if Self::piece_at_is(board, r - 1, c - 2, by_color, PieceType::Knight) {
            return true;
        }
        if Self::piece_at_is(board, r - 1, c + 2, by_color, PieceType::Knight) {
            return true;
        }
        if Self::piece_at_is(board, r + 1, c - 2, by_color, PieceType::Knight) {
            return true;
        }
        if Self::piece_at_is(board, r + 1, c + 2, by_color, PieceType::Knight) {
            return true;
        }
        if Self::piece_at_is(board, r + 2, c - 1, by_color, PieceType::Knight) {
            return true;
        }
        if Self::piece_at_is(board, r + 2, c + 1, by_color, PieceType::Knight) {
            return true;
        }

        if Self::ray_attacked(board, r - 1, c - 1, -1, -1, by_color, true) {
            return true;
        }
        if Self::ray_attacked(board, r - 1, c, -1, 0, by_color, false) {
            return true;
        }
        if Self::ray_attacked(board, r - 1, c + 1, -1, 1, by_color, true) {
            return true;
        }
        if Self::ray_attacked(board, r, c - 1, 0, -1, by_color, false) {
            return true;
        }
        if Self::ray_attacked(board, r, c + 1, 0, 1, by_color, false) {
            return true;
        }
        if Self::ray_attacked(board, r + 1, c - 1, 1, -1, by_color, true) {
            return true;
        }
        if Self::ray_attacked(board, r + 1, c, 1, 0, by_color, false) {
            return true;
        }
        if Self::ray_attacked(board, r + 1, c + 1, 1, 1, by_color, true) {
            return true;
        }

        if Self::piece_at_is(board, r - 1, c - 1, by_color, PieceType::King) {
            return true;
        }
        if Self::piece_at_is(board, r - 1, c, by_color, PieceType::King) {
            return true;
        }
        if Self::piece_at_is(board, r - 1, c + 1, by_color, PieceType::King) {
            return true;
        }
        if Self::piece_at_is(board, r, c - 1, by_color, PieceType::King) {
            return true;
        }
        if Self::piece_at_is(board, r, c + 1, by_color, PieceType::King) {
            return true;
        }
        if Self::piece_at_is(board, r + 1, c - 1, by_color, PieceType::King) {
            return true;
        }
        if Self::piece_at_is(board, r + 1, c, by_color, PieceType::King) {
            return true;
        }
        if Self::piece_at_is(board, r + 1, c + 1, by_color, PieceType::King) {
            return true;
        }

        false
    }

    /// Append the moves of `piece` one fixed offset away from `pos`.
    fn push_step_move(
        board: &Board,
        pos: Position,
        piece: Piece,
        dr: i32,
        dc: i32,
        moves: &mut Vec<Move>,
    )
        requires
            pos.spec_valid(),
            -2 <= dr <= 2,
            -2 <= dc <= 2,
        ensures
            final(moves)@ == old(moves)@ + spec_step_move(board@, pos, piece, dr as int, dc as int),
    {
        let r = pos.row as i32 + dr;
        let c = pos.col as i32 + dc;
        if 0 <= r && r < 8 && 0 <= c && c < 8 {
            let np = Position::new(r as usize, c as usize);
            match board.squares[r as usize][c as usize] {
                None => {
                    moves.push(Move::new(pos, np, piece));
                },
                Some(target) => {
                    if target.color != piece.color {
                        moves.push(Move::with_capture(pos, np, piece, target));
                    }
                },
            }
        }
        proof {
            assert(moves@ =~= old(moves)@ + spec_step_move(
                board@,
                pos,
                piece,
                dr as int,
                dc as int,
            ));
        }
    }

    /// Append the ray of sliding moves from `pos` in direction (dr, dc).
    fn push_ray_moves(
        board: &Board,
        pos: Position,
        piece: Piece,
        dr: i32,
        dc: i32,
        moves: &mut Vec<Move>,
    )
        requires
            pos.spec_valid(),
            -1 <= dr <= 1,
            -1 <= dc <= 1,
            !(dr == 0 && dc == 0),
        ensures
            final(moves)@ == old(moves)@ + spec_ray_from(board@, pos, piece, dr as int, dc as int),
    {
        let mut r = pos.row as i32 + dr;
        let mut c = pos.col as i32 + dc;
        while 0 <= r && r < 8 && 0 <= c && c < 8
            invariant
                -1 <= r <= 8,
                -1 <= c <= 8,
                -1 <= dr <= 1,
                -1 <= dc <= 1,
                !(dr == 0 && dc == 0),
                moves@ + spec_ray_moves(board@, pos, piece, dr as int, dc as int, r as int, c as int)
                    == old(moves)@ + spec_ray_from(board@, pos, piece, dr as int, dc as int),
            decreases (if dr > 0 {
                8 - r
            } else if dr < 0 {
                r + 1
            } else if dc > 0 {
                8 - c
            } else {
                c + 1
            }),
        {
            let ghost prev = moves@;
            let ghost rr = r as int;
            let ghost cc = c as int;
            let np = Position::new(r as usize, c as usize);
            match board.squares[r as usize][c as usize] {
                None => {
                    moves.push(Move::new(pos, np, piece));
                    proof {
                        assert(moves@ + spec_ray_moves(
                            board@,
                            pos,
                            piece,
                            dr as int,
                            dc as int,
                            rr + dr,
                            cc + dc,
                        ) =~= prev + spec_ray_moves(board@, pos, piece, dr as int, dc as int, rr, cc));
                    }
                    r = r + dr;
                    c = c + dc;
                },
                Some(target) => {
                    if target.color != piece.color {
                        moves.push(Move::with_capture(pos, np, piece, target));
                    }
                    proof {
                        assert(moves@ =~= prev + spec_ray_moves(
                            board@,
                            pos,
                            piece,
                            dr as int,
                            dc as int,
                            rr,
                            cc,
                        ));
                    }
                    return;
                },
            }
        }
        proof {
            assert(moves@ =~= old(moves)@ + spec_ray_from(board@, pos, piece, dr as int, dc as int));
        }
    }

    /// A pawn's pushes, diagonal captures, promotions and en-passant capture.
    fn generate_pawn_moves(board: &Board, pos: Position, piece: Piece) -> (res: Vec<Move>)
        requires
            pos.spec_valid(),
        ensures
            res@ == spec_pawn_moves(board@, pos, piece),
    {
        let mut moves: Vec<Move> = Vec::new();
        let dir: i32 = if piece.color == Color::White {
            -1
        } else {
            1
        };
        let start_row: usize = if piece.color == Color::White {
            6
        } else {
            1
        };
        let promo_row: i32 = if piece.color == Color::White {
            0
        } else {
            7
        };

        let nr = pos.row as i32 + dir;
        if 0 <= nr && nr < 8 {
            let forward_pos = Position::new(nr as usize, pos.col);
            if board.get_piece(forward_pos).is_none() {
                if nr == promo_row {
                    moves.push(
                        Move::new(pos, forward_pos, piece).with_type(
                            MoveType::Promotion(PieceType::Queen),
                        ),
                    );
                    moves.push(
                        Move::new(pos, forward_pos, piece).with_type(
                            MoveType::Promotion(PieceType::Rook),
                        ),
                    );
                    moves.push(
                        Move::new(pos, forward_pos, piece).with_type(
                            MoveType::Promotion(PieceType::Bishop),
                        ),
                    );
                    moves.push(
                        Move::new(pos, forward_pos, piece).with_type(
                            MoveType::Promotion(PieceType::Knight),
                        ),
                    );
                } else {
                    moves.push(Move::new(pos, forward_pos, piece));
                }

                if pos.row == start_row {
                    let dbl_r = pos.row as i32 + 2 * dir;
                    let double_pos = Position::new(dbl_r as usize, pos.col);
                    if board.get_piece(double_pos).is_none() {
                        moves.push(Move::new(pos, double_pos, piece));
                    }
                }
            }
        }
        proof {
            assert(moves@ =~= spec_pawn_forward(board@, pos, piece));
        }

        Self::push_pawn_captures(board, pos, piece, -1, &mut moves);
        Self::push_pawn_captures(board, pos, piece, 1, &mut moves);
        proof {
            assert(moves@ =~= spec_pawn_moves(board@, pos, piece));
        }
        moves
    }

    /// Append a pawn's captures toward column offset `dcol`.
    fn push_pawn_captures(
        board: &Board,
        pos: Position,
        piece: Piece,
        dcol: i32,
        moves: &mut Vec<Move>,
    )
        requires
            pos.spec_valid(),
            dcol == -1 || dcol == 1,
        ensures
            final(moves)@ == old(moves)@ + spec_pawn_capture(board@, pos, piece, dcol as int),
    {
        let dir: i32 = if piece.color == Color::White {
            -1
        } else {
            1
        };
        let promo_row: i32 = if piece.color == Color::White {
            0
        } else {
            7
        };
        let nr = pos.row as i32 + dir;
        let nc = pos.col as i32 + dcol;
        if 0 <= nc && nc < 8 && 0 <= nr && nr < 8 {
            let capture_pos = Position::new(nr as usize, nc as usize);

            if let Some(target) = board.get_piece(capture_pos) {
                if target.color != piece.color {
                    if nr == promo_row {
                        moves.push(
                            Move::with_capture(pos, capture_pos, piece, target).with_type(
                                MoveType::Promotion(PieceType::Queen),
                            ),
                        );
                        moves.push(
                            Move::with_capture(pos, capture_pos, piece, target).with_type(
                                MoveType::Promotion(PieceType::Rook),
                            ),
                        );
                        moves.push(
                            Move::with_capture(pos, capture_pos, piece, target).with_type(
                                MoveType::Promotion(PieceType::Bishop),
                            ),
                        );
                        moves.push(
                            Move::with_capture(pos, capture_pos, piece, target).with_type(
                                MoveType::Promotion(PieceType::Knight),
                            ),
                        );
                    } else {
                        moves.push(Move::with_capture(pos, capture_pos, piece, target));
                    }
                }
            }

            let is_ep = match board.en_passant_target {
                Some(t) => t == capture_pos,
                None => false,
            };
            if is_ep {
                let captured_pawn = Piece::new(PieceType::Pawn, piece.color.opposite());
                moves.push(
                    Move::with_capture(pos, capture_pos, piece, captured_pawn).with_type(
                        MoveType::EnPassant,
                    ),
                );
            }
        }
        proof {
            assert(moves@ =~= old(moves)@ + spec_pawn_capture(board@, pos, piece, dcol as int));
        }
    }

    /// A knight's moves over its eight offsets.
    fn generate_knight_moves(board: &Board, pos: Position, piece: Piece) -> (res: Vec<Move>)
        requires
            pos.spec_valid(),
        ensures
            res@ == spec_knight_moves(board@, pos, piece),
    {
        let mut moves: Vec<Move> = Vec::new();
        Self::push_step_move(board, pos, piece, -2, -1, &mut moves);
        Self::push_step_move(board, pos, piece, -2, 1, &mut moves);
        Self::push_step_move(board, pos, piece, -1, -2, &mut moves);
        Self::push_step_move(board, pos, piece, -1, 2, &mut moves);
        Self::push_step_move(board, pos, piece, 1, -2, &mut moves);
        Self::push_step_move(board, pos, piece, 1, 2, &mut moves);
        Self::push_step_move(board, pos, piece, 2, -1, &mut moves);
        Self::push_step_move(board, pos, piece, 2, 1, &mut moves);
        proof {
            assert(moves@ =~= spec_knight_moves(board@, pos, piece));
        }
        moves
    }

    /// A bishop's moves: the four diagonal rays.
    fn generate_bishop_moves(board: &Board, pos: Position, piece: Piece) -> (res: Vec<Move>)
        requires
            pos.spec_valid(),
        ensures
            res@ == spec_bishop_moves(board@, pos, piece),
    {
        let mut moves: Vec<Move> = Vec::new();
        Self::push_ray_moves(board, pos, piece, -1, -1, &mut moves);
        Self::push_ray_moves(board, pos, piece, -1, 1, &mut moves);
        Self::push_ray_moves(board, pos, piece, 1, -1, &mut moves);
        Self::push_ray_moves(board, pos, piece, 1, 1, &mut moves);
        proof {
            assert(moves@ =~= spec_bishop_moves(board@, pos, piece));
        }
        moves
    }

    /// A rook's moves: the four orthogonal rays.
    fn generate_rook_moves(board: &Board, pos: Position, piece: Piece) -> (res: Vec<Move>)
        requires
            pos.spec_valid(),
        ensures
            res@ == spec_rook_moves(board@, pos, piece),
    {
        let mut moves: Vec<Move> = Vec::new();
        Self::push_ray_moves(board, pos, piece, -1, 0, &mut moves);
        Self::push_ray_moves(board, pos, piece, 1, 0, &mut moves);
        Self::push_ray_moves(board, pos, piece, 0, -1, &mut moves);
        Self::push_ray_moves(board, pos, piece, 0, 1, &mut moves);
        proof {
            assert(moves@ =~= spec_rook_moves(board@, pos, piece));
        }
        moves
    }

    /// A queen's moves: all eight rays.
    fn generate_queen_moves(board: &Board, pos: Position, piece: Piece) -> (res: Vec<Move>)
        requires
            pos.spec_valid(),
        ensures
            res@ == spec_queen_moves(board@, pos, piece),
    {
        let mut moves: Vec<Move> = Vec::new();
        Self::push_ray_moves(board, pos, piece, -1, -1, &mut moves);
        Self::push_ray_moves(board, pos, piece, -1, 0, &mut moves);
        Self::push_ray_moves(board, pos, piece, -1, 1, &mut moves);
        Self::push_ray_moves(board, pos, piece, 0, -1, &mut moves);
        Self::push_ray_moves(board, pos, piece, 0, 1, &mut moves);
        Self::push_ray_moves(board, pos, piece, 1, -1, &mut moves);
        Self::push_ray_moves(board, pos, piece, 1, 0, &mut moves);
        Self::push_ray_moves(board, pos, piece, 1, 1, &mut moves);
        proof {
            assert(moves@ =~= spec_queen_moves(board@, pos, piece));
        }
        moves
    }

    /// A king's adjacent steps plus castling.
    #[verifier::rlimit(50)]
    fn generate_king_moves(board: &Board, pos: Position, piece: Piece) -> (res: Vec<Move>)
        requires
            pos.spec_valid(),
        ensures
            res@ == spec_king_moves(board@, pos, piece),
    {
        let mut moves: Vec<Move> = Vec::new();
        Self::push_step_move(board, pos, piece, -1, -1, &mut moves);
        Self::push_step_move(board, pos, piece, -1, 0, &mut moves);
        Self::push_step_move(board, pos, piece, -1, 1, &mut moves);
        Self::push_step_move(board, pos, piece, 0, -1, &mut moves);
        Self::push_step_move(board, pos, piece, 0, 1, &mut moves);
        Self::push_step_move(board, pos, piece, 1, -1, &mut moves);
        Self::push_step_move(board, pos, piece, 1, 0, &mut moves);
        Self::push_step_move(board, pos, piece, 1, 1, &mut moves);

        let (kingside, queenside, row): (bool, bool, usize) = match piece.color {
            Color::White => (
                board.castling_rights.white_kingside,
                board.castling_rights.white_queenside,
                7,
            ),
            Color::Black => (
                board.castling_rights.black_kingside,
                board.castling_rights.black_queenside,
                0,
            ),
        };

        if !Self::is_square_attacked(board, pos, piece.color.opposite()) {
            if kingside && pos.col == 4 {
                let f1 = Position::new(row, 5);
                let g1 = Position::new(row, 6);
                if board.get_piece(f1).is_none() && board.get_piece(g1).is_none()
                    && !Self::is_square_attacked(board, f1, piece.color.opposite()) {
                    moves.push(Move::new(pos, g1, piece).with_type(MoveType::Castle));
                }
            }

            if queenside && pos.col == 4 {
                let d1 = Position::new(row, 3);
                let c1 = Position::new(row, 2);
                let b1 = Position::new(row, 1);
                if board.get_piece(d1).is_none() && board.get_piece(c1).is_none()
                    && board.get_piece(b1).is_none() && !Self::is_square_attacked(
                    board,
                    d1,
                    piece.color.opposite(),
                ) {
                    moves.push(Move::new(pos, c1, piece).with_type(MoveType::Castle));
                }
            }
        }
        proof {
            assert(moves@ =~= spec_king_moves(board@, pos, piece));
        }
        moves
    }

    /// The pseudo-legal moves of `piece` on `pos`, by its kind.
    fn generate_pseudo_legal_moves(board: &Board, pos: Position, piece: Piece) -> (res: Vec<Move>)
        requires
            pos.spec_valid(),
        ensures
            res@ == spec_pseudo_moves(board@, pos, piece),
    {
        match piece.piece_type {
            PieceType::Pawn => Self::generate_pawn_moves(board, pos, piece),
            PieceType::Knight => Self::generate_knight_moves(board, pos, piece),
            PieceType::Bishop => Self::generate_bishop_moves(board, pos, piece),
            PieceType::Rook => Self::generate_rook_moves(board, pos, piece),
            PieceType::Queen => Self::generate_queen_moves(board, pos, piece),
            PieceType::King => Self::generate_king_moves(board, pos, piece),
        }
    }

    /// The legal moves from `pos`: empty unless `pos` holds a piece of the
    /// side to move; otherwise the pseudo-legal moves with every move that
    /// would leave the mover's own king attacked filtered out.
    pub fn generate_legal_moves(board: &Board, pos: Position) -> (res: Vec<Move>)
        requires
            board.halfmove_clock < u32::MAX,
            board.fullmove_number < u32::MAX,
        ensures
            res@ == spec_legal_moves(board@, pos),
    {
        let piece = match board.get_piece(pos) {
            Some(p) => {
                if p.color != board.current_player {
                    return Vec::new();
                }
                p
            },
            None => {
                return Vec::new();
            },
        };

        let pseudo = Self::generate_pseudo_legal_moves(board, pos, piece);
        let ghost all = pseudo@;

        let mut moves: Vec<Move> = Vec::new();
        let mut i: usize = 0;
        proof {
            assert(all.skip(0) =~= all);
            assert(Seq::<Move>::empty() + spec_keep_legal(board@, all) =~= spec_keep_legal(
                board@,
                all,
            ));
        }
        while i < pseudo.len()
            invariant
                i <= pseudo.len(),
                pseudo@ == all,
                board.halfmove_clock < u32::MAX,
                board.fullmove_number < u32::MAX,
                moves@ + spec_keep_legal(board@, all.skip(i as int)) == spec_keep_legal(
                    board@,
                    all,
                ),
            decreases pseudo.len() - i,
        {
            let ghost prev = moves@;
            let mv = pseudo[i];
            if !Self::would_be_in_check(board, &mv) {
                moves.push(mv);
            }
            proof {
                assert(all.skip(i as int).drop_first() =~= all.skip(i as int + 1));
                assert(all.skip(i as int)[0] == all[i as int]);
                assert(moves@ + spec_keep_legal(board@, all.skip(i as int + 1)) =~= prev
                    + spec_keep_legal(board@, all.skip(i as int)));
            }
            i += 1;
        }
        proof {
            assert(all.skip(pseudo@.len() as int) =~= Seq::<Move>::empty());
            assert(moves@ =~= spec_keep_legal(board@, all));
        }
        moves
    }

    /// Whether the king of `color` currently stands attacked by the other
    /// side; false when no king of `color` is found.
    pub fn is_in_check(board: &Board, color: Color) -> (res: bool)
        ensures
            res == spec_in_check(board@, color),
    {
        if let Some(king_pos) = board.find_king(color) {
            proof {
                crate::board::lemma_find_king_valid(board@, color, 0);
            }
            Self::is_square_attacked(board, king_pos, color.opposite())
        } else {
            false
        }
    }

    /// Checkmate for `color`: in check with no legal move anywhere.
    pub fn is_checkmate(board: &Board, color: Color) -> (res: bool)
        requires
            board.halfmove_clock < u32::MAX,
            board.fullmove_number < u32::MAX,
        ensures
            res == spec_is_checkmate(board@, color),
    {
        if !Self::is_in_check(board, color) {
            return false;
        }
        Self::has_no_legal_moves(board, color)
    }

    /// Stalemate for `color`: not in check, yet no legal move anywhere.
    pub fn is_stalemate(board: &Board, color: Color) -> (res: bool)
        requires
            board.halfmove_clock < u32::MAX,
            board.fullmove_number < u32::MAX,
        ensures
            res == spec_is_stalemate(board@, color),
    {
        if Self::is_in_check(board, color) {
            return false;
        }
        Self::has_no_legal_moves(board, color)
    }

    /// Whether no piece of `color` has any legal move, scanning every square.
    fn has_no_legal_moves(board: &Board, color: Color) -> (res: bool)
        requires
            board.halfmove_clock < u32::MAX,
            board.fullmove_number < u32::MAX,
        ensures
            res == spec_has_no_legal_moves(board@, color),
    {
        let mut row: usize = 0;
        while row < 8
            invariant
                row <= 8,
                board.halfmove_clock < u32::MAX,
                board.fullmove_number < u32::MAX,
                forall|r: int, c: int|
                    0 <= r < row && 0 <= c < 8 ==> #[trigger] spec_square_ok(board@, color, r, c),
            decreases 8 - row,
        {
            let mut col: usize = 0;
            while col < 8
                invariant
                    row < 8,
                    col <= 8,
                    board.halfmove_clock < u32::MAX,
                    board.fullmove_number < u32::MAX,
                    forall|r: int, c: int|
                        0 <= r < row && 0 <= c < 8 ==> #[trigger] spec_square_ok(
                            board@,
                            color,
                            r,
                            c,
                        ),
                    forall|c: int|
                        0 <= c < col ==> #[trigger] spec_square_ok(board@, color, row as int, c),
                decreases 8 - col,
            {
                let pos = Position::new(row, col);
                if let Some(piece) = board.get_piece(pos) {
                    if piece.color == color {
                        let moves = Self::generate_legal_moves(board, pos);
                        if moves.len() > 0 {
                            proof {
                                assert(!spec_square_ok(board@, color, row as int, col as int));
                            }
                            return false;
                        }
                    }
                }
                col += 1;
            }
            row += 1;
        }
        true
    }

    /// The recognized draw-by-material cases: king against king, and king
    /// against king plus one bishop or knight.
    pub fn is_insufficient_material(board: &Board) -> (res: bool)
        ensures
            res == spec_insufficient_material(board@),
    {
        let mut white_pieces: Vec<PieceType> = Vec::new();
        let mut black_pieces: Vec<PieceType> = Vec::new();

        let mut row: usize = 0;
        while row < 8
            invariant
                row <= 8,
                white_pieces@ + spec_types_from(board@, Color::White, row as int * 8)
                    == spec_color_types(board@, Color::White),
                black_pieces@ + spec_types_from(board@, Color::Black, row as int * 8)
                    == spec_color_types(board@, Color::Black),
            decreases 8 - row,
        {
            let mut col: usize = 0;
            while col < 8
                invariant
                    row < 8,
                    col <= 8,
                    white_pieces@ + spec_types_from(board@, Color::White, row as int * 8 + col)
                        == spec_color_types(board@, Color::White),
                    black_pieces@ + spec_types_from(board@, Color::Black, row as int * 8 + col)
                        == spec_color_types(board@, Color::Black),
                decreases 8 - col,
            {
                proof {
                    let n = row as int * 8 + col as int;
                    assert(n / 8 == row as int && n % 8 == col as int);
                }
                if let Some(piece) = board.squares[row][col] {
                    let ghost wprev = white_pieces@;
                    let ghost bprev = black_pieces@;
                    match piece.color {
                        Color::White => white_pieces.push(piece.piece_type),
                        Color::Black => black_pieces.push(piece.piece_type),
                    }
                    proof {
                        let n = row as int * 8 + col as int;
                        assert(white_pieces@ + spec_types_from(board@, Color::White, n + 1) =~=
                            wprev + spec_types_from(board@, Color::White, n));
                        assert(black_pieces@ + spec_types_from(board@, Color::Black, n + 1) =~=
                            bprev + spec_types_from(board@, Color::Black, n));
                    }
                }
                col += 1;
            }
            row += 1;
        }
        proof {
            assert(white_pieces@ =~= spec_color_types(board@, Color::White));
            assert(black_pieces@ =~= spec_color_types(board@, Color::Black));
        }

        if white_pieces.len() == 1 && black_pieces.len() == 1 {
            return true;
        }

        if (white_pieces.len() == 1 && black_pieces.len() == 2) || (white_pieces.len() == 2
            && black_pieces.len() == 1) {
            let pieces = if white_pieces.len() == 2 {
                &white_pieces
            } else {
                &black_pieces
            };
            return Self::contains_type(pieces, PieceType::Bishop) || Self::contains_type(
                pieces,
                PieceType::Knight,
            );
        }

        false
    }

    /// Whether `v` holds an element equal to `t`.
    fn contains_type(v: &Vec<PieceType>, t: PieceType) -> (res: bool)
        ensures
            res == v@.contains(t),
    {
        let mut i: usize = 0;
        while i < v.len()
            invariant
                i <= v.len(),
                forall|j: int| 0 <= j < i ==> v@[j] != t,
            decreases v.len() - i,
        {
            if v[i] == t {
                return true;
            }
            i += 1;
        }
        false
    }

    /// Whether applying `mv` to a copy of the board leaves the mover's own
    /// king attacked.
    fn would_be_in_check(board: &Board, mv: &Move) -> (res: bool)
        requires
            board.halfmove_clock < u32::MAX,
            board.fullmove_number < u32::MAX,
        ensures
            res == spec_move_leaves_check(board@, *mv),
    {
        let mut test_board = board.clone();
        test_board.make_move(mv);

        let king_color = mv.piece.color;
        if let Some(king_pos) = test_board.find_king(king_color) {
            proof {
                crate::board::lemma_find_king_valid(test_board@, king_color, 0);
            }
            Self::is_square_attacked(&test_board, king_pos, king_color.opposite())
        } else {
            true
        }
    }
}

} // verus!
