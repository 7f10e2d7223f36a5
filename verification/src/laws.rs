//! Laws of the engine: properties that relate move generation, move
//! application and the terminal predicates, stated over the board model and
//! proved once and for all.

use vstd::prelude::*;

use crate::board::{
    spec_after_move, spec_can_apply, spec_find_king, BoardView,
};
use crate::moves::{Move, MoveType};
use crate::pieces::{Piece, PieceType, Position};
use crate::rules::{
    spec_attacked, spec_in_check, spec_is_checkmate, spec_is_stalemate, spec_keep_legal,
    spec_king_moves, spec_knight_moves, spec_legal_moves, spec_move_leaves_check,
    spec_pawn_capture, spec_pawn_forward, spec_pawn_moves, spec_piece_at_is, spec_pseudo_moves,
    spec_ray_attack, spec_ray_from, spec_ray_moves, spec_square_ok, spec_step_move,
};

verus! {

/// Every move that survives the legality filter really passes it.
proof fn lemma_keep_legal_safe(b: BoardView, ms: Seq<Move>, i: int)
    requires
        0 <= i < spec_keep_legal(b, ms).len(),
    ensures
        !spec_move_leaves_check(b, spec_keep_legal(b, ms)[i]),
    decreases ms.len(),
{
    if ms.len() > 0 {
        if !spec_move_leaves_check(b, ms[0]) {
            if i > 0 {
                lemma_keep_legal_safe(b, ms.drop_first(), i - 1);
            }
        } else {
            lemma_keep_legal_safe(b, ms.drop_first(), i);
        }
    }
}

/// Law: a generated legal move never leaves the mover's own king attacked.
/// After applying any move that `spec_legal_moves` returns, the moving
/// side's king is still on the board and stands unattacked.
pub proof fn lemma_legal_move_king_safe(b: BoardView, pos: Position, i: int)
    requires
        0 <= i < spec_legal_moves(b, pos).len(),
    ensures
        ({
            let mv = spec_legal_moves(b, pos)[i];
            let after = spec_after_move(b, mv);
            &&& spec_find_king(after, mv.piece.color) is Some
            &&& !spec_attacked(
                after,
                spec_find_king(after, mv.piece.color)->0,
                mv.piece.color.spec_opposite(),
            )
        }),
{
    match b.sq_at(pos) {
        Some(p) => {
            if p.color == b.turn {
                lemma_keep_legal_safe(b, spec_pseudo_moves(b, pos, p), i);
            }
        },
        None => {},
    }
}

/// The squares strictly between `pos` and (r, c), walking from `pos` in
/// direction (dr, dc), are all empty — so (r, c) is the first square of the
/// ray from `pos` that could hold a piece.
pub open spec fn spec_open_behind(
    b: BoardView,
    pos: Position,
    r: int,
    c: int,
    dr: int,
    dc: int,
) -> bool
    decreases (if dr > 0 {
        r + 1
    } else if dr < 0 {
        8 - r
    } else if dc > 0 {
        c + 1
    } else {
        8 - c
    }),
{
    if !(-1 <= dr <= 1 && -1 <= dc <= 1) || (dr == 0 && dc == 0) || !(0 <= r < 8 && 0 <= c < 8) {
        false
    } else if r == pos.row + dr && c == pos.col + dc {
        true
    } else {
        b.sq(r - dr, c - dc) is None && spec_open_behind(b, pos, r - dr, c - dc, dr, dc)
    }
}

/// Walking back from a square with an open path to `pos`, the reverse ray
/// finds the slider standing on `pos`.
proof fn lemma_open_behind_attack(
    b: BoardView,
    pos: Position,
    piece: Piece,
    r: int,
    c: int,
    dr: int,
    dc: int,
    diagonal: bool,
)
    requires
        spec_open_behind(b, pos, r, c, dr, dc),
        b.sq_at(pos) == Some(piece),
        piece.piece_type == PieceType::Queen || (diagonal && piece.piece_type == PieceType::Bishop)
            || (!diagonal && piece.piece_type == PieceType::Rook),
    ensures
        spec_ray_attack(b, r - dr, c - dc, -dr, -dc, piece.color, diagonal),
    decreases (if dr > 0 {
        r + 1
    } else if dr < 0 {
        8 - r
    } else if dc > 0 {
        c + 1
    } else {
        8 - c
    }),
{
    if r == pos.row + dr && c == pos.col + dc {
    } else {
        lemma_open_behind_attack(b, pos, piece, r - dr, c - dc, dr, dc, diagonal);
    }
}

/// A capture found along a ray stands on an attacked square: the victim is
/// really on the move's destination, and the slider that generated the move
/// attacks that destination.
proof fn lemma_ray_capture_attacks(
    b: BoardView,
    pos: Position,
    piece: Piece,
    dr: int,
    dc: int,
    r: int,
    c: int,
    i: int,
    diagonal: bool,
)
    requires
        0 <= i < spec_ray_moves(b, pos, piece, dr, dc, r, c).len(),
        spec_open_behind(b, pos, r, c, dr, dc),
        b.sq_at(pos) == Some(piece),
        piece.piece_type == PieceType::Queen || (diagonal && piece.piece_type == PieceType::Bishop)
            || (!diagonal && piece.piece_type == PieceType::Rook),
        diagonal == (dr != 0 && dc != 0),
    ensures
        ({
            let m = spec_ray_moves(b, pos, piece, dr, dc, r, c)[i];
            m.captured matches Some(t) ==> b.sq_at(m.to) == Some(t) && t.color != piece.color
                && spec_attacked(b, m.to, piece.color)
        }),
    decreases (if dr > 0 {
        8 - r
    } else if dr < 0 {
        r + 1
    } else if dc > 0 {
        8 - c
    } else {
        c + 1
    }),
{
    match b.sq(r, c) {
        None => {
            if i > 0 {
                assert(spec_ray_moves(b, pos, piece, dr, dc, r + dr, c + dc).len() > 0);
                assert(0 <= r + dr < 8 && 0 <= c + dc < 8);
                assert(spec_open_behind(b, pos, r + dr, c + dc, dr, dc));
                lemma_ray_capture_attacks(b, pos, piece, dr, dc, r + dr, c + dc, i - 1, diagonal);
            }
        },
        Some(target) => {
            if target.color != piece.color {
                lemma_open_behind_attack(b, pos, piece, r, c, dr, dc, diagonal);
            }
        },
    }
}

/// A whole ray of sliding moves, taken from the square beside `pos`: its
/// capture, if any, stands on a square the slider attacks.
proof fn lemma_ray_from_capture(b: BoardView, pos: Position, piece: Piece, dr: int, dc: int, j: int)
    requires
        0 <= j < spec_ray_from(b, pos, piece, dr, dc).len(),
        b.sq_at(pos) == Some(piece),
        -1 <= dr <= 1,
        -1 <= dc <= 1,
        !(dr == 0 && dc == 0),
        piece.piece_type == PieceType::Queen || ((dr != 0 && dc != 0) && piece.piece_type
            == PieceType::Bishop) || (!(dr != 0 && dc != 0) && piece.piece_type
            == PieceType::Rook),
    ensures
        ({
            let m = spec_ray_from(b, pos, piece, dr, dc)[j];
            m.captured matches Some(t) ==> b.sq_at(m.to) == Some(t) && t.color != piece.color
                && spec_attacked(b, m.to, piece.color)
        }),
{
    let diagonal = dr != 0 && dc != 0;
    assert(spec_ray_moves(b, pos, piece, dr, dc, pos.row + dr, pos.col + dc).len() > 0);
    assert(0 <= pos.row + dr < 8 && 0 <= pos.col + dc < 8);
    assert(spec_open_behind(b, pos, pos.row + dr, pos.col + dc, dr, dc));
    lemma_ray_capture_attacks(b, pos, piece, dr, dc, pos.row + dr, pos.col + dc, j, diagonal);
}

/// One fixed-offset move: its capture, if any, is the occupant of the
/// square one offset away.
proof fn lemma_step_capture(b: BoardView, pos: Position, piece: Piece, dr: int, dc: int, j: int)
    requires
        0 <= j < spec_step_move(b, pos, piece, dr, dc).len(),
    ensures
        ({
            let m = spec_step_move(b, pos, piece, dr, dc)[j];
            m.captured matches Some(t) ==> b.sq_at(m.to) == Some(t) && t.color != piece.color
                && m.to.row == pos.row + dr && m.to.col == pos.col + dc
        }),
{
}

/// A knight's capture stands on a square the knight attacks.
proof fn lemma_knight_capture_attacks(b: BoardView, pos: Position, piece: Piece, i: int)
    requires
        0 <= i < spec_knight_moves(b, pos, piece).len(),
        b.sq_at(pos) == Some(piece),
        piece.piece_type == PieceType::Knight,
    ensures
        ({
            let m = spec_knight_moves(b, pos, piece)[i];
            m.captured matches Some(t) ==> b.sq_at(m.to) == Some(t) && t.color != piece.color
                && spec_attacked(b, m.to, piece.color)
        }),
{
    let s0 = spec_step_move(b, pos, piece, -2, -1);
    let s1 = spec_step_move(b, pos, piece, -2, 1);
    let s2 = spec_step_move(b, pos, piece, -1, -2);
    let s3 = spec_step_move(b, pos, piece, -1, 2);
    let s4 = spec_step_move(b, pos, piece, 1, -2);
    let s5 = spec_step_move(b, pos, piece, 1, 2);
    let s6 = spec_step_move(b, pos, piece, 2, -1);
    let s7 = spec_step_move(b, pos, piece, 2, 1);
    let l0 = s0.len() as int;
    let l1 = l0 + s1.len();
    let l2 = l1 + s2.len();
    let l3 = l2 + s3.len();
    let l4 = l3 + s4.len();
    let l5 = l4 + s5.len();
    let l6 = l5 + s6.len();
    if i < l0 {
        lemma_step_capture(b, pos, piece, -2, -1, i);
    } else if i < l1 {
        lemma_step_capture(b, pos, piece, -2, 1, i - l0);
    } else if i < l2 {
        lemma_step_capture(b, pos, piece, -1, -2, i - l1);
    } else if i < l3 {
        lemma_step_capture(b, pos, piece, -1, 2, i - l2);
    } else if i < l4 {
        lemma_step_capture(b, pos, piece, 1, -2, i - l3);
    } else if i < l5 {
        lemma_step_capture(b, pos, piece, 1, 2, i - l4);
    } else if i < l6 {
        lemma_step_capture(b, pos, piece, 2, -1, i - l5);
    } else {
        lemma_step_capture(b, pos, piece, 2, 1, i - l6);
    }
}

/// A king's single-step capture stands on an adjacent, king-attacked
/// square; castling captures nothing.
proof fn lemma_king_capture_attacks(b: BoardView, pos: Position, piece: Piece, i: int)
    requires
        0 <= i < spec_king_moves(b, pos, piece).len(),
        b.sq_at(pos) == Some(piece),
        piece.piece_type == PieceType::King,
    ensures
        ({
            let m = spec_king_moves(b, pos, piece)[i];
            m.captured matches Some(t) ==> b.sq_at(m.to) == Some(t) && t.color != piece.color
                && spec_attacked(b, m.to, piece.color)
        }),
{
    let s0 = spec_step_move(b, pos, piece, -1, -1);
    let s1 = spec_step_move(b, pos, piece, -1, 0);
    let s2 = spec_step_move(b, pos, piece, -1, 1);
    let s3 = spec_step_move(b, pos, piece, 0, -1);
    let s4 = spec_step_move(b, pos, piece, 0, 1);
    let s5 = spec_step_move(b, pos, piece, 1, -1);
    let s6 = spec_step_move(b, pos, piece, 1, 0);
    let s7 = spec_step_move(b, pos, piece, 1, 1);
    let l0 = s0.len() as int;
    let l1 = l0 + s1.len();
    let l2 = l1 + s2.len();
    let l3 = l2 + s3.len();
    let l4 = l3 + s4.len();
    let l5 = l4 + s5.len();
    let l6 = l5 + s6.len();
    let l7 = l6 + s7.len();
    if i < l0 {
        lemma_step_capture(b, pos, piece, -1, -1, i);
    } else if i < l1 {
        lemma_step_capture(b, pos, piece, -1, 0, i - l0);
    } else if i < l2 {
        lemma_step_capture(b, pos, piece, -1, 1, i - l1);
    } else if i < l3 {
        lemma_step_capture(b, pos, piece, 0, -1, i - l2);
    } else if i < l4 {
        lemma_step_capture(b, pos, piece, 0, 1, i - l3);
    } else if i < l5 {
        lemma_step_capture(b, pos, piece, 1, -1, i - l4);
    } else if i < l6 {
        lemma_step_capture(b, pos, piece, 1, 0, i - l5);
    } else if i < l7 {
        lemma_step_capture(b, pos, piece, 1, 1, i - l6);
    } else {
        // A castling move: both variants are built from a quiet move and
        // record no capture.
        assert(spec_king_moves(b, pos, piece)[i].captured is None);
    }
}

/// A pawn's diagonal capture stands on a pawn-attacked square; the
/// en-passant capture records a pawn.
proof fn lemma_pawn_capture_side(b: BoardView, pos: Position, piece: Piece, dcol: int, j: int)
    requires
        0 <= j < spec_pawn_capture(b, pos, piece, dcol).len(),
        b.sq_at(pos) == Some(piece),
        piece.piece_type == PieceType::Pawn,
        dcol == -1 || dcol == 1,
    ensures
        ({
            let m = spec_pawn_capture(b, pos, piece, dcol)[j];
            m.captured matches Some(t) ==> (t.piece_type == PieceType::King ==> b.sq_at(m.to)
                == Some(t) && t.color != piece.color && spec_attacked(b, m.to, piece.color))
        }),
{
}

/// A pawn's capture, when it records a king, stands on a pawn-attacked
/// square (pushes record no capture, en passant records a pawn).
proof fn lemma_pawn_capture_attacks(b: BoardView, pos: Position, piece: Piece, i: int)
    requires
        0 <= i < spec_pawn_moves(b, pos, piece).len(),
        b.sq_at(pos) == Some(piece),
        piece.piece_type == PieceType::Pawn,
    ensures
        ({
            let m = spec_pawn_moves(b, pos, piece)[i];
            m.captured matches Some(t) ==> (t.piece_type == PieceType::King ==> b.sq_at(m.to)
                == Some(t) && t.color != piece.color && spec_attacked(b, m.to, piece.color))
        }),
{
    let fwd = spec_pawn_forward(b, pos, piece);
    let c1 = spec_pawn_capture(b, pos, piece, -1);
    if i < fwd.len() {
        assert(fwd[i].captured is None);
    } else if i < fwd.len() + c1.len() {
        lemma_pawn_capture_side(b, pos, piece, -1, i - fwd.len());
    } else {
        lemma_pawn_capture_side(b, pos, piece, 1, i - fwd.len() - c1.len());
    }
}

/// Every pseudo-legal capture of a king would stand on a square the mover's
/// side attacks.
proof fn lemma_pseudo_king_capture_attacks(b: BoardView, pos: Position, piece: Piece, i: int)
    requires
        0 <= i < spec_pseudo_moves(b, pos, piece).len(),
        b.sq_at(pos) == Some(piece),
    ensures
        ({
            let m = spec_pseudo_moves(b, pos, piece)[i];
            m.captured matches Some(t) ==> (t.piece_type == PieceType::King ==> b.sq_at(m.to)
                == Some(t) && t.color != piece.color && spec_attacked(b, m.to, piece.color))
        }),
{
    match piece.piece_type {
        PieceType::Pawn => {
            lemma_pawn_capture_attacks(b, pos, piece, i);
        },
        PieceType::Knight => {
            lemma_knight_capture_attacks(b, pos, piece, i);
        },
        PieceType::Bishop => {
            let s0 = spec_ray_from(b, pos, piece, -1, -1);
            let s1 = spec_ray_from(b, pos, piece, -1, 1);
            let s2 = spec_ray_from(b, pos, piece, 1, -1);
            let l0 = s0.len() as int;
            let l1 = l0 + s1.len();
            let l2 = l1 + s2.len();
            if i < l0 {
                lemma_ray_from_capture(b, pos, piece, -1, -1, i);
            } else if i < l1 {
                lemma_ray_from_capture(b, pos, piece, -1, 1, i - l0);
            } else if i < l2 {
                lemma_ray_from_capture(b, pos, piece, 1, -1, i - l1);
            } else {
                lemma_ray_from_capture(b, pos, piece, 1, 1, i - l2);
            }
        },
        PieceType::Rook => {
            let s0 = spec_ray_from(b, pos, piece, -1, 0);
            let s1 = spec_ray_from(b, pos, piece, 1, 0);
            let s2 = spec_ray_from(b, pos, piece, 0, -1);
            let l0 = s0.len() as int;
            let l1 = l0 + s1.len();
            let l2 = l1 + s2.len();
            if i < l0 {
                lemma_ray_from_capture(b, pos, piece, -1, 0, i);
            } else if i < l1 {
                lemma_ray_from_capture(b, pos, piece, 1, 0, i - l0);
            } else if i < l2 {
                lemma_ray_from_capture(b, pos, piece, 0, -1, i - l1);
            } else {
                lemma_ray_from_capture(b, pos, piece, 0, 1, i - l2);
            }
        },
        PieceType::Queen => {
            let s0 = spec_ray_from(b, pos, piece, -1, -1);
            let s1 = spec_ray_from(b, pos, piece, -1, 0);
            let s2 = spec_ray_from(b, pos, piece, -1, 1);
            let s3 = spec_ray_from(b, pos, piece, 0, -1);
            let s4 = spec_ray_from(b, pos, piece, 0, 1);
            let s5 = spec_ray_from(b, pos, piece, 1, -1);
            let s6 = spec_ray_from(b, pos, piece, 1, 0);
            let l0 = s0.len() as int;
            let l1 = l0 + s1.len();
            let l2 = l1 + s2.len();
            let l3 = l2 + s3.len();
            let l4 = l3 + s4.len();
            let l5 = l4 + s5.len();
            let l6 = l5 + s6.len();
            if i < l0 {
                lemma_ray_from_capture(b, pos, piece, -1, -1, i);
            } else if i < l1 {
                lemma_ray_from_capture(b, pos, piece, -1, 0, i - l0);
            } else if i < l2 {
                lemma_ray_from_capture(b, pos, piece, -1, 1, i - l1);
            } else if i < l3 {
                lemma_ray_from_capture(b, pos, piece, 0, -1, i - l2);
            } else if i < l4 {
                lemma_ray_from_capture(b, pos, piece, 0, 1, i - l3);
            } else if i < l5 {
                lemma_ray_from_capture(b, pos, piece, 1, -1, i - l4);
            } else if i < l6 {
                lemma_ray_from_capture(b, pos, piece, 1, 0, i - l5);
            } else {
                lemma_ray_from_capture(b, pos, piece, 1, 1, i - l6);
            }
        },
        PieceType::King => {
            lemma_king_capture_attacks(b, pos, piece, i);
        },
    }
}

/// A move that survives the legality filter appears among the unfiltered
/// moves.
proof fn lemma_keep_legal_member(b: BoardView, ms: Seq<Move>, i: int)
    requires
        0 <= i < spec_keep_legal(b, ms).len(),
    ensures
        exists|j: int| 0 <= j < ms.len() && spec_keep_legal(b, ms)[i] == ms[j],
    decreases ms.len(),
{
    if ms.len() > 0 {
        if !spec_move_leaves_check(b, ms[0]) && i == 0 {
            assert(spec_keep_legal(b, ms)[0] == ms[0]);
        } else {
            let k = if !spec_move_leaves_check(b, ms[0]) {
                i - 1
            } else {
                i
            };
            lemma_keep_legal_member(b, ms.drop_first(), k);
            let j = choose|j: int|
                0 <= j < ms.drop_first().len() && spec_keep_legal(b, ms.drop_first())[k]
                    == ms.drop_first()[j];
            assert(ms.drop_first()[j] == ms[j + 1]);
        }
    }
}

/// Law: no generated legal move captures a king, provided no opposing king
/// already stands attacked by the side to move — which holds of every
/// position the engine itself produces, since a side may never leave its
/// own king attacked at the end of its move.
#[verifier::rlimit(50)]
pub proof fn lemma_no_king_capture(b: BoardView, pos: Position, i: int)
    requires
        0 <= i < spec_legal_moves(b, pos).len(),
        forall|r: int, c: int|
            0 <= r < 8 && 0 <= c < 8 && #[trigger] spec_piece_at_is(
                b,
                r,
                c,
                b.turn.spec_opposite(),
                PieceType::King,
            ) ==> !spec_attacked(b, Position { row: r as usize, col: c as usize }, b.turn),
    ensures
        ({
            let m = spec_legal_moves(b, pos)[i];
            m.captured matches Some(t) ==> t.piece_type != PieceType::King
        }),
{
    match b.sq_at(pos) {
        Some(p) => {
            if p.color == b.turn {
                let pseudo = spec_pseudo_moves(b, pos, p);
                lemma_keep_legal_member(b, pseudo, i);
                let j = choose|j: int|
                    0 <= j < pseudo.len() && spec_legal_moves(b, pos)[i] == pseudo[j];
                lemma_pseudo_king_capture_attacks(b, pos, p, j);
                let m = spec_legal_moves(b, pos)[i];
                match m.captured {
                    Some(t) => {
                        if t.piece_type == PieceType::King {
                            // The victim would be an opposing king on an
                            // attacked square — excluded by hypothesis.
                            assert(t.color == b.turn.spec_opposite());
                            assert(spec_piece_at_is(
                                b,
                                m.to.row as int,
                                m.to.col as int,
                                b.turn.spec_opposite(),
                                PieceType::King,
                            ));
                            assert(false);
                        }
                    },
                    None => {},
                }
            }
        },
        None => {},
    }
}

/// Law: checkmate means in check with no legal move anywhere — every piece
/// of the checkmated color has zero legal moves.
pub proof fn lemma_checkmate_definition(b: BoardView, color: crate::pieces::Color)
    requires
        spec_is_checkmate(b, color),
    ensures
        spec_in_check(b, color),
        forall|r: int, c: int|
            0 <= r < 8 && 0 <= c < 8 ==> ((#[trigger] b.sq(r, c)) matches Some(p) && p.color
                == color ==> spec_legal_moves(
                b,
                Position { row: r as usize, col: c as usize },
            ).len() == 0),
{
    assert forall|r: int, c: int| 0 <= r < 8 && 0 <= c < 8 implies ((#[trigger] b.sq(r, c))
        matches Some(p) && p.color == color ==> spec_legal_moves(
        b,
        Position { row: r as usize, col: c as usize },
    ).len() == 0) by {
        assert(spec_square_ok(b, color, r, c));
    }
}

/// Law: stalemate means not in check yet without any legal move — every
/// piece of the stalemated color has zero legal moves.
pub proof fn lemma_stalemate_definition(b: BoardView, color: crate::pieces::Color)
    requires
        spec_is_stalemate(b, color),
    ensures
        !spec_in_check(b, color),
        forall|r: int, c: int|
            0 <= r < 8 && 0 <= c < 8 ==> ((#[trigger] b.sq(r, c)) matches Some(p) && p.color
                == color ==> spec_legal_moves(
                b,
                Position { row: r as usize, col: c as usize },
            ).len() == 0),
{
    assert forall|r: int, c: int| 0 <= r < 8 && 0 <= c < 8 implies ((#[trigger] b.sq(r, c))
        matches Some(p) && p.color == color ==> spec_legal_moves(
        b,
        Position { row: r as usize, col: c as usize },
    ).len() == 0) by {
        assert(spec_square_ok(b, color, r, c));
    }
}

/// Law: after an applied move, the destination square holds the mover (or
/// the promoted piece), and the origin square is empty. Stated for moves of
/// the shapes the generator produces: origin and destination differ, the
/// destination is on the board, castling moves the king two columns along
/// its own row from its home column, and an en-passant capture changes rows.
pub proof fn lemma_move_places_mover(b: BoardView, mv: Move)
    requires
        b.wf(),
        spec_can_apply(b, mv),
        mv.to.spec_valid(),
        mv.from != mv.to,
        mv.move_type is Castle ==> mv.from.col == 4 && mv.from.row == mv.to.row && (mv.to.col == 6
            || mv.to.col == 2),
        mv.move_type is EnPassant ==> mv.from.row != mv.to.row,
    ensures
        spec_after_move(b, mv).sq_at(mv.to) == (match mv.move_type {
            MoveType::Promotion(t) => Some(Piece { piece_type: t, color: mv.piece.color }),
            _ => Some(mv.piece),
        }),
        spec_after_move(b, mv).sq_at(mv.from) is None,
{
}

/// Law: the halfmove clock resets to zero on any capture or pawn move and
/// otherwise increments by one.
pub proof fn lemma_halfmove_clock(b: BoardView, mv: Move)
    requires
        spec_can_apply(b, mv),
    ensures
        (mv.captured is Some || mv.piece.piece_type == PieceType::Pawn) ==> spec_after_move(
            b,
            mv,
        ).halfmove == 0,
        (mv.captured is None && mv.piece.piece_type != PieceType::Pawn) ==> spec_after_move(
            b,
            mv,
        ).halfmove == b.halfmove + 1,
{
}

/// Law: a halfmove clock at 50 or beyond makes the search score the position
/// as a draw (checkmate takes precedence: mate is scored even then).
pub proof fn lemma_fifty_move_rule_draw(b: BoardView, depth: int, alpha: int, beta: int)
    requires
        depth >= 1,
        b.halfmove >= 50,
        !spec_is_checkmate(b, b.turn),
    ensures
        crate::engine::spec_minimax(b, depth, alpha, beta) == 0,
{
}

} // verus!
