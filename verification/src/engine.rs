//! The computer opponent: fixed-depth negamax search with alpha-beta
//! pruning over a static material-and-position evaluator.

use vstd::prelude::*;

use crate::board::{spec_after_move, spec_all_pieces, Board, BoardView};
use crate::moves::Move;
use crate::pieces::{spec_piece_value, Color, Piece, PieceType, Position};
use crate::rules::{
    lemma_legal_len, spec_in_check, spec_is_checkmate, spec_is_stalemate, spec_insufficient_material,
    spec_legal_moves, MoveGenerator,
};

verus! {

/// Positional bonus table for pawns, indexed row-major from White's
/// perspective (row 0 = Black's back rank).
pub open spec fn spec_pawn_table() -> Seq<int> {
    seq![
        0, 0, 0, 0, 0, 0, 0, 0,
        50, 50, 50, 50, 50, 50, 50, 50,
        10, 10, 20, 30, 30, 20, 10, 10,
        5, 5, 10, 25, 25, 10, 5, 5,
        0, 0, 0, 20, 20, 0, 0, 0,
        5, -5, -10, 0, 0, -10, -5, 5,
        5, 10, 10, -20, -20, 10, 10, 5,
        0, 0, 0, 0, 0, 0, 0, 0,
    ]
}

/// Positional bonus table for knights.
pub open spec fn spec_knight_table() -> Seq<int> {
    seq![
        -50, -40, -30, -30, -30, -30, -40, -50,
        -40, -20, 0, 0, 0, 0, -20, -40,
        -30, 0, 10, 15, 15, 10, 0, -30,
        -30, 5, 15, 20, 20, 15, 5, -30,
        -30, 0, 15, 20, 20, 15, 0, -30,
        -30, 5, 10, 15, 15, 10, 5, -30,
        -40, -20, 0, 5, 5, 0, -20, -40,
        -50, -40, -30, -30, -30, -30, -40, -50,
    ]
}

/// Positional bonus table for bishops.
pub open spec fn spec_bishop_table() -> Seq<int> {
    seq![
        -20, -10, -10, -10, -10, -10, -10, -20,
        -10, 0, 0, 0, 0, 0, 0, -10,
        -10, 0, 5, 10, 10, 5, 0, -10,
        -10, 5, 5, 10, 10, 5, 5, -10,
        -10, 0, 10, 10, 10, 10, 0, -10,
        -10, 10, 10, 10, 10, 10, 10, -10,
        -10, 5, 0, 0, 0, 0, 5, -10,
        -20, -10, -10, -10, -10, -10, -10, -20,
    ]
}

/// Positional bonus table for rooks.
pub open spec fn spec_rook_table() -> Seq<int> {
    seq![
        0, 0, 0, 0, 0, 0, 0, 0,
        5, 10, 10, 10, 10, 10, 10, 5,
        -5, 0, 0, 0, 0, 0, 0, -5,
        -5, 0, 0, 0, 0, 0, 0, -5,
        -5, 0, 0, 0, 0, 0, 0, -5,
        -5, 0, 0, 0, 0, 0, 0, -5,
        -5, 0, 0, 0, 0, 0, 0, -5,
        0, 0, 0, 5, 5, 0, 0, 0,
    ]
}

/// Positional bonus table for queens.
pub open spec fn spec_queen_table() -> Seq<int> {
    seq![
        -20, -10, -10, -5, -5, -10, -10, -20,
        -10, 0, 0, 0, 0, 0, 0, -10,
        -10, 0, 5, 5, 5, 5, 0, -10,
        -5, 0, 5, 5, 5, 5, 0, -5,
        0, 0, 5, 5, 5, 5, 0, -5,
        -10, 5, 5, 5, 5, 5, 0, -10,
        -10, 0, 5, 0, 0, 0, 0, -10,
        -20, -10, -10, -5, -5, -10, -10, -20,
    ]
}

/// Positional bonus table for kings.
pub open spec fn spec_king_table() -> Seq<int> {
    seq![
        -30, -40, -40, -50, -50, -40, -40, -30,
        -30, -40, -40, -50, -50, -40, -40, -30,
        -30, -40, -40, -50, -50, -40, -40, -30,
        -30, -40, -40, -50, -50, -40, -40, -30,
        -20, -30, -30, -40, -40, -30, -30, -20,
        -10, -20, -20, -20, -20, -20, -20, -10,
        20, 20, 0, 0, 0, 0, 20, 20,
        20, 30, 10, 0, 0, 10, 30, 20,
    ]
}

/// The positional bonus of a piece of kind `t` and `color` standing on
/// (r, c): its table entry, with the row mirrored for White so that both
/// colors read the table from their own side.
pub open spec fn spec_position_value(t: PieceType, r: int, c: int, color: Color) -> int {
    let rr = if color == Color::White {
        7 - r
    } else {
        r
    };
    let i = rr * 8 + c;
    match t {
        PieceType::Pawn => spec_pawn_table()[i],
        PieceType::Knight => spec_knight_table()[i],
        PieceType::Bishop => spec_bishop_table()[i],
        PieceType::Rook => spec_rook_table()[i],
        PieceType::Queen => spec_queen_table()[i],
        PieceType::King => spec_king_table()[i],
    }
}

/// Material-and-position sum over the squares from flat index n on: each
/// occupant contributes its base value plus positional bonus, added for the
/// side to move and subtracted for the opponent.
pub open spec fn spec_material_from(b: BoardView, n: int) -> int
    decreases 64 - n,
{
    if n < 0 || n >= 64 {
        0
    } else {
        let here = match b.sq(n / 8, n % 8) {
            Some(p) => {
                let v = spec_piece_value(p.piece_type) + spec_position_value(
                    p.piece_type,
                    n / 8,
                    n % 8,
                    p.color,
                );
                if p.color == b.turn {
                    v
                } else {
                    -v
                }
            },
            None => 0,
        };
        here + spec_material_from(b, n + 1)
    }
}

/// The number of legal moves of the pieces listed from index i on.
pub open spec fn spec_mobility_from(b: BoardView, ps: Seq<(Position, Piece)>, i: int) -> int
    decreases ps.len() - i,
{
    if i < 0 || i >= ps.len() {
        0
    } else {
        spec_legal_moves(b, ps[i].0).len() + spec_mobility_from(b, ps, i + 1)
    }
}

/// The static evaluation, from the side to move's perspective: material and
/// position, plus twice the side to move's mobility, plus a flat bonus of 50
/// when the opponent stands in check. Centipawn-scale.
pub open spec fn spec_evaluate(b: BoardView) -> int {
    spec_material_from(b, 0) + 2 * spec_mobility_from(b, spec_all_pieces(b, b.turn), 0) + (
    if spec_in_check(b, b.turn.spec_opposite()) {
        50int
    } else {
        0int
    })
}

/// The legal moves of the pieces listed from index i on, concatenated in
/// list order.
pub open spec fn spec_all_legal_from(b: BoardView, ps: Seq<(Position, Piece)>, i: int) -> Seq<Move>
    decreases ps.len() - i,
{
    if i < 0 || i >= ps.len() {
        Seq::empty()
    } else {
        spec_legal_moves(b, ps[i].0) + spec_all_legal_from(b, ps, i + 1)
    }
}

/// Every legal move of the side to move, enumerated piece by piece in
/// row-major square order.
pub open spec fn spec_all_legal_moves(b: BoardView) -> Seq<Move> {
    spec_all_legal_from(b, spec_all_pieces(b, b.turn), 0)
}

/// The capturing moves of `ms`, in order.
pub open spec fn spec_captures_of(ms: Seq<Move>) -> Seq<Move>
    decreases ms.len(),
{
    if ms.len() == 0 {
        Seq::empty()
    } else {
        (if ms[0].captured is Some {
            seq![ms[0]]
        } else {
            Seq::<Move>::empty()
        }) + spec_captures_of(ms.drop_first())
    }
}

/// The non-capturing moves of `ms`, in order.
pub open spec fn spec_quiets_of(ms: Seq<Move>) -> Seq<Move>
    decreases ms.len(),
{
    if ms.len() == 0 {
        Seq::empty()
    } else {
        (if ms[0].captured is None {
            seq![ms[0]]
        } else {
            Seq::<Move>::empty()
        }) + spec_quiets_of(ms.drop_first())
    }
}

/// The moves of `ms` that capture a piece of kind `t`, in order.
pub open spec fn spec_group_of(ms: Seq<Move>, t: PieceType) -> Seq<Move>
    decreases ms.len(),
{
    if ms.len() == 0 {
        Seq::empty()
    } else {
        (if ms[0].captured matches Some(p) && p.piece_type == t {
            seq![ms[0]]
        } else {
            Seq::<Move>::empty()
        }) + spec_group_of(ms.drop_first(), t)
    }
}

/// The root's move ordering: captures first, otherwise stable on the
/// generation order.
pub open spec fn spec_root_order(ms: Seq<Move>) -> Seq<Move> {
    spec_captures_of(ms) + spec_quiets_of(ms)
}

/// The interior nodes' move ordering: captures ranked by the victim's value,
/// most valuable first, non-captures last, stable within each rank.
pub open spec fn spec_value_order(ms: Seq<Move>) -> Seq<Move> {
    spec_group_of(ms, PieceType::King) + spec_group_of(ms, PieceType::Queen) + spec_group_of(
        ms,
        PieceType::Rook,
    ) + spec_group_of(ms, PieceType::Bishop) + spec_group_of(ms, PieceType::Knight)
        + spec_group_of(ms, PieceType::Pawn) + spec_quiets_of(ms)
}

/// The negamax value of `b` searched to `depth` plies inside the window
/// (alpha, beta): the static evaluation at depth 0; a large negative score
/// biased by the remaining depth when the side to move is checkmated; 0 on
/// stalemate, insufficient material, the 50-move rule, or no moves at all;
/// otherwise the alpha-beta fold over the ordered move list.
pub open spec fn spec_minimax(b: BoardView, depth: int, alpha: int, beta: int) -> int
    decreases depth, 1int, 0int,
{
    if depth <= 0 {
        spec_evaluate(b)
    } else if spec_is_checkmate(b, b.turn) {
        -20000 - depth
    } else if spec_is_stalemate(b, b.turn) || spec_insufficient_material(b) || b.halfmove >= 50 {
        0
    } else {
        let ms = spec_all_legal_moves(b);
        if ms.len() == 0 {
            0
        } else {
            spec_search(b, depth, spec_value_order(ms), 0, alpha, -30000, beta)
        }
    }
}

/// The alpha-beta fold from move index i on: each move is scored as the
/// negation of the child's search with the window negated and swapped; the
/// running best and alpha rise with each score, and the fold stops early
/// once alpha reaches beta.
pub open spec fn spec_search(
    b: BoardView,
    depth: int,
    ms: Seq<Move>,
    i: int,
    alpha: int,
    best: int,
    beta: int,
) -> int
    decreases depth, 0int, ms.len() - i,
{
    if depth < 1 || i < 0 || i >= ms.len() {
        best
    } else {
        let score = -spec_minimax(spec_after_move(b, ms[i]), depth - 1, -beta, -alpha);
        let best2 = if score > best {
            score
        } else {
            best
        };
        let alpha2 = if score > alpha {
            score
        } else {
            alpha
        };
        if alpha2 >= beta {
            best2
        } else {
            spec_search(b, depth, ms, i + 1, alpha2, best2, beta)
        }
    }
}

/// The root's choice from move index i on: each move is scored through a
/// full-window child search, and the move with the strictly greatest score
/// wins, first-encountered order breaking ties.
pub open spec fn spec_best_from(
    b: BoardView,
    depth: int,
    ms: Seq<Move>,
    i: int,
    best: Option<Move>,
    best_score: int,
) -> Option<Move>
    decreases ms.len() - i,
{
    if i < 0 || i >= ms.len() {
        best
    } else {
        let score = -spec_minimax(spec_after_move(b, ms[i]), depth - 1, -30000, 30000);
        if score > best_score {
            spec_best_from(b, depth, ms, i + 1, Some(ms[i]), score)
        } else {
            spec_best_from(b, depth, ms, i + 1, best, best_score)
        }
    }
}

/// The move the engine plays on `b` at `depth` plies: the best-scoring move
/// of the root ordering, or `None` when no score beats the floor.
pub open spec fn spec_best_move(b: BoardView, depth: int) -> Option<Move> {
    spec_best_from(b, depth, spec_root_order(spec_all_legal_moves(b)), 0, None, -30000)
}

/// The computer opponent, parameterized by its search depth in plies.
#[derive(Debug, Clone, Copy)]
pub struct ChessAI {
    pub depth: u32,
}

impl ChessAI {
    pub fn new(depth: u32) -> (r: ChessAI)
        ensures
            r.depth == depth,
    {
        ChessAI { depth }
    }

    /// Pawn table lookup.
    fn pawn_bonus(idx: usize) -> (res: i32)
        requires
            idx < 64,
        ensures
            res == spec_pawn_table()[idx as int],
            -50 <= res <= 50,
    {
        let t: [i32; 64] = [
            0, 0, 0, 0, 0, 0, 0, 0,
            50, 50, 50, 50, 50, 50, 50, 50,
            10, 10, 20, 30, 30, 20, 10, 10,
            5, 5, 10, 25, 25, 10, 5, 5,
            0, 0, 0, 20, 20, 0, 0, 0,
            5, -5, -10, 0, 0, -10, -5, 5,
            5, 10, 10, -20, -20, 10, 10, 5,
            0, 0, 0, 0, 0, 0, 0, 0,
        ];
        t[idx]
    }

    /// Knight table lookup.
    fn knight_bonus(idx: usize) -> (res: i32)
        requires
            idx < 64,
        ensures
            res == spec_knight_table()[idx as int],
            -50 <= res <= 50,
    {
        let t: [i32; 64] = [
            -50, -40, -30, -30, -30, -30, -40, -50,
            -40, -20, 0, 0, 0, 0, -20, -40,
            -30, 0, 10, 15, 15, 10, 0, -30,
            -30, 5, 15, 20, 20, 15, 5, -30,
            -30, 0, 15, 20, 20, 15, 0, -30,
            -30, 5, 10, 15, 15, 10, 5, -30,
            -40, -20, 0, 5, 5, 0, -20, -40,
            -50, -40, -30, -30, -30, -30, -40, -50,
        ];
        t[idx]
    }

    /// Bishop table lookup.
    fn bishop_bonus(idx: usize) -> (res: i32)
        requires
            idx < 64,
        ensures
            res == spec_bishop_table()[idx as int],
            -50 <= res <= 50,
    {
        let t: [i32; 64] = [
            -20, -10, -10, -10, -10, -10, -10, -20,
            -10, 0, 0, 0, 0, 0, 0, -10,
            -10, 0, 5, 10, 10, 5, 0, -10,
            -10, 5, 5, 10, 10, 5, 5, -10,
            -10, 0, 10, 10, 10, 10, 0, -10,
            -10, 10, 10, 10, 10, 10, 10, -10,
            -10, 5, 0, 0, 0, 0, 5, -10,
            -20, -10, -10, -10, -10, -10, -10, -20,
        ];
        t[idx]
    }

    /// Rook table lookup.
    fn rook_bonus(idx: usize) -> (res: i32)
        requires
            idx < 64,
        ensures
            res == spec_rook_table()[idx as int],
            -50 <= res <= 50,
    {
        let t: [i32; 64] = [
            0, 0, 0, 0, 0, 0, 0, 0,
            5, 10, 10, 10, 10, 10, 10, 5,
            -5, 0, 0, 0, 0, 0, 0, -5,
            -5, 0, 0, 0, 0, 0, 0, -5,
            -5, 0, 0, 0, 0, 0, 0, -5,
            -5, 0, 0, 0, 0, 0, 0, -5,
            -5, 0, 0, 0, 0, 0, 0, -5,
            0, 0, 0, 5, 5, 0, 0, 0,
        ];
        t[idx]
    }

    /// Queen table lookup.
    fn queen_bonus(idx: usize) -> (res: i32)
        requires
            idx < 64,
        ensures
            res == spec_queen_table()[idx as int],
            -50 <= res <= 50,
    {
        let t: [i32; 64] = [
            -20, -10, -10, -5, -5, -10, -10, -20,
            -10, 0, 0, 0, 0, 0, 0, -10,
            -10, 0, 5, 5, 5, 5, 0, -10,
            -5, 0, 5, 5, 5, 5, 0, -5,
            0, 0, 5, 5, 5, 5, 0, -5,
            -10, 5, 5, 5, 5, 5, 0, -10,
            -10, 0, 5, 0, 0, 0, 0, -10,
            -20, -10, -10, -5, -5, -10, -10, -20,
        ];
        t[idx]
    }

    /// King table lookup.
    fn king_bonus(idx: usize) -> (res: i32)
        requires
            idx < 64,
        ensures
            res == spec_king_table()[idx as int],
            -50 <= res <= 50,
    {
        let t: [i32; 64] = [
            -30, -40, -40, -50, -50, -40, -40, -30,
            -30, -40, -40, -50, -50, -40, -40, -30,
            -30, -40, -40, -50, -50, -40, -40, -30,
            -30, -40, -40, -50, -50, -40, -40, -30,
            -20, -30, -30, -40, -40, -30, -30, -20,
            -10, -20, -20, -20, -20, -20, -20, -10,
            20, 20, 0, 0, 0, 0, 20, 20,
            20, 30, 10, 0, 0, 10, 30, 20,
        ];
        t[idx]
    }

    /// The positional bonus of one piece on one square, mirrored by color.
    fn get_position_value(&self, piece_type: PieceType, pos: Position, color: Color) -> (res: i32)
        requires
            pos.spec_valid(),
        ensures
            res == spec_position_value(piece_type, pos.row as int, pos.col as int, color),
            -50 <= res <= 50,
    {
        let row: usize = if color == Color::White {
            7 - pos.row
        } else {
            pos.row
        };
        let idx = row * 8 + pos.col;
        match piece_type {
            PieceType::Pawn => Self::pawn_bonus(idx),
            PieceType::Knight => Self::knight_bonus(idx),
            PieceType::Bishop => Self::bishop_bonus(idx),
            PieceType::Rook => Self::rook_bonus(idx),
            PieceType::Queen => Self::queen_bonus(idx),
            PieceType::King => Self::king_bonus(idx),
        }
    }

    /// Every legal move of the side to move, piece by piece.
    fn collect_all_moves(board: &Board) -> (res: Vec<Move>)
        requires
            board.halfmove_clock < u32::MAX,
            board.fullmove_number < u32::MAX,
        ensures
            res@ == spec_all_legal_moves(board@),
    {
        let pieces = board.get_all_pieces(board.current_player);
        let mut all_moves: Vec<Move> = Vec::new();
        let mut i: usize = 0;
        while i < pieces.len()
            invariant
                i <= pieces.len(),
                pieces@ == spec_all_pieces(board@, board@.turn),
                board.halfmove_clock < u32::MAX,
                board.fullmove_number < u32::MAX,
                all_moves@ + spec_all_legal_from(board@, pieces@, i as int) == spec_all_legal_moves(
                    board@,
                ),
            decreases pieces.len() - i,
        {
            let ghost prev = all_moves@;
            let (pos, _) = pieces[i];
            let mut ms = MoveGenerator::generate_legal_moves(board, pos);
            let ghost msv = ms@;
            all_moves.append(&mut ms);
            proof {
                assert(all_moves@ + spec_all_legal_from(board@, pieces@, i as int + 1) =~= prev + (
                msv + spec_all_legal_from(board@, pieces@, i as int + 1)));
            }
            i += 1;
        }
        proof {
            assert(all_moves@ =~= spec_all_legal_moves(board@));
        }
        all_moves
    }

    /// The capturing moves of `ms`, kept in order.
    fn collect_captures(ms: &Vec<Move>) -> (res: Vec<Move>)
        ensures
            res@ == spec_captures_of(ms@),
    {
        let ghost all = ms@;
        let mut res: Vec<Move> = Vec::new();
        let mut i: usize = 0;
        proof {
            assert(all.skip(0) =~= all);
        }
        while i < ms.len()
            invariant
                i <= ms.len(),
                ms@ == all,
                res@ + spec_captures_of(all.skip(i as int)) == spec_captures_of(all),
            decreases ms.len() - i,
        {
            let ghost prev = res@;
            if ms[i].captured.is_some() {
                res.push(ms[i]);
            }
            proof {
                assert(all.skip(i as int).drop_first() =~= all.skip(i as int + 1));
                assert(all.skip(i as int)[0] == all[i as int]);
                assert(res@ + spec_captures_of(all.skip(i as int + 1)) =~= prev + spec_captures_of(
                    all.skip(i as int),
                ));
            }
            i += 1;
        }
        proof {
            assert(res@ =~= spec_captures_of(all));
        }
        res
    }

    /// The non-capturing moves of `ms`, kept in order.
    fn collect_quiets(ms: &Vec<Move>) -> (res: Vec<Move>)
        ensures
            res@ == spec_quiets_of(ms@),
    {
        let ghost all = ms@;
        let mut res: Vec<Move> = Vec::new();
        let mut i: usize = 0;
        proof {
            assert(all.skip(0) =~= all);
        }
        while i < ms.len()
            invariant
                i <= ms.len(),
                ms@ == all,
                res@ + spec_quiets_of(all.skip(i as int)) == spec_quiets_of(all),
            decreases ms.len() - i,
        {
            let ghost prev = res@;
            if ms[i].captured.is_none() {
                res.push(ms[i]);
            }
            proof {
                assert(all.skip(i as int).drop_first() =~= all.skip(i as int + 1));
                assert(all.skip(i as int)[0] == all[i as int]);
                assert(res@ + spec_quiets_of(all.skip(i as int + 1)) =~= prev + spec_quiets_of(
                    all.skip(i as int),
                ));
            }
            i += 1;
        }
        proof {
            assert(res@ =~= spec_quiets_of(all));
        }
        res
    }

    /// The moves of `ms` that capture a piece of kind `t`, kept in order.
    fn collect_group(ms: &Vec<Move>, t: PieceType) -> (res: Vec<Move>)
        ensures
            res@ == spec_group_of(ms@, t),
    {
        let ghost all = ms@;
        let mut res: Vec<Move> = Vec::new();
        let mut i: usize = 0;
        proof {
            assert(all.skip(0) =~= all);
        }
        while i < ms.len()
            invariant
                i <= ms.len(),
                ms@ == all,
                res@ + spec_group_of(all.skip(i as int), t) == spec_group_of(all, t),
            decreases ms.len() - i,
        {
            let ghost prev = res@;
            let keep = match ms[i].captured {
                Some(p) => p.piece_type == t,
                None => false,
            };
            if keep {
                res.push(ms[i]);
            }
            proof {
                assert(all.skip(i as int).drop_first() =~= all.skip(i as int + 1));
                assert(all.skip(i as int)[0] == all[i as int]);
                assert(res@ + spec_group_of(all.skip(i as int + 1), t) =~= prev + spec_group_of(
                    all.skip(i as int),
                    t,
                ));
            }
            i += 1;
        }
        proof {
            assert(res@ =~= spec_group_of(all, t));
        }
        res
    }

    /// Stable ordering of interior search nodes: captures ranked by the
    /// victim's value, most valuable first, then the quiet moves.
    fn order_by_value(ms: &Vec<Move>) -> (res: Vec<Move>)
        ensures
            res@ == spec_value_order(ms@),
    {
        let mut res = Self::collect_group(ms, PieceType::King);
        let mut g = Self::collect_group(ms, PieceType::Queen);
        res.append(&mut g);
        let mut g = Self::collect_group(ms, PieceType::Rook);
        res.append(&mut g);
        let mut g = Self::collect_group(ms, PieceType::Bishop);
        res.append(&mut g);
        let mut g = Self::collect_group(ms, PieceType::Knight);
        res.append(&mut g);
        let mut g = Self::collect_group(ms, PieceType::Pawn);
        res.append(&mut g);
        let mut g = Self::collect_quiets(ms);
        res.append(&mut g);
        proof {
            assert(res@ =~= spec_value_order(ms@));
        }
        res
    }

    /// The negamax value of `board` at `depth` plies inside (alpha, beta).
    fn minimax(&self, board: &Board, depth: u32, alpha: i32, beta: i32, maximizing: bool) -> (res:
        i32)
        requires
            depth <= 10000,
            board.halfmove_clock < u32::MAX,
            board@.fullmove + depth < u32::MAX,
            -2_000_000 <= alpha <= 2_000_000,
            -2_000_000 <= beta <= 2_000_000,
        ensures
            res == spec_minimax(board@, depth as int, alpha as int, beta as int),
            -1_400_000 - depth <= res <= 1_400_000 + depth,
        decreases depth,
    {
        if depth == 0 {
            return self.evaluate(board);
        }

        if MoveGenerator::is_checkmate(board, board.current_player) {
            return -20000 - depth as i32;
        }

        if MoveGenerator::is_stalemate(board, board.current_player)
            || MoveGenerator::is_insufficient_material(board) || board.halfmove_clock >= 50 {
            return 0;
        }

        let all_moves = Self::collect_all_moves(board);

        if all_moves.len() == 0 {
            return 0;
        }

        let ordered = Self::order_by_value(&all_moves);
        let ghost ord = ordered@;
        proof {
            assert(spec_minimax(board@, depth as int, alpha as int, beta as int) == spec_search(
                board@,
                depth as int,
                ord,
                0,
                alpha as int,
                -30000,
                beta as int,
            ));
        }

        let mut best_score: i32 = -30000;
        let mut cur_alpha: i32 = alpha;
        let mut i: usize = 0;
        while i < ordered.len()
            invariant
                i <= ordered.len(),
                ordered@ == ord,
                depth >= 1,
                depth <= 10000,
                board.halfmove_clock < u32::MAX,
                board.halfmove_clock < 50,
                board@.fullmove + depth < u32::MAX,
                -2_000_000 <= beta <= 2_000_000,
                alpha <= cur_alpha <= 2_000_000,
                -2_000_000 <= cur_alpha,
                -1_400_000 - depth <= best_score <= 1_400_000 + depth,
                spec_search(
                    board@,
                    depth as int,
                    ord,
                    i as int,
                    cur_alpha as int,
                    best_score as int,
                    beta as int,
                ) == spec_minimax(board@, depth as int, alpha as int, beta as int),
            decreases ordered.len() - i,
        {
            let ghost a0 = cur_alpha as int;
            let ghost b0 = best_score as int;
            let mv = ordered[i];
            let mut new_board = board.clone();
            new_board.make_move(&mv);

            let score = -self.minimax(&new_board, depth - 1, -beta, -cur_alpha, !maximizing);

            proof {
                assert(score as int == -spec_minimax(
                    spec_after_move(board@, ord[i as int]),
                    depth as int - 1,
                    -(beta as int),
                    -a0,
                ));
            }

            if score > best_score {
                best_score = score;
            }
            if score > cur_alpha {
                cur_alpha = score;
            }

            proof {
                assert(spec_search(board@, depth as int, ord, i as int, a0, b0, beta as int) == (
                if cur_alpha >= beta {
                    best_score as int
                } else {
                    spec_search(
                        board@,
                        depth as int,
                        ord,
                        i as int + 1,
                        cur_alpha as int,
                        best_score as int,
                        beta as int,
                    )
                }));
            }

            if cur_alpha >= beta {
                return best_score;
            }
            i += 1;
        }

        best_score
    }

    /// The engine's move on `board`: every legal move is scored by a
    /// full-window search at depth - 1, captures tried first; the strictly
    /// best score wins, earlier moves winning ties. `None` when no move
    /// beats the score floor — in particular when no legal move exists.
    pub fn get_best_move(&self, board: &Board) -> (res: Option<Move>)
        requires
            1 <= self.depth <= 10000,
            board.halfmove_clock + 1 < u32::MAX,
            board@.fullmove + self.depth < u32::MAX,
        ensures
            res == spec_best_move(board@, self.depth as int),
    {
        let all_moves = Self::collect_all_moves(board);

        let mut caps = Self::collect_captures(&all_moves);
        let mut ordered = caps;
        let mut quiets = Self::collect_quiets(&all_moves);
        ordered.append(&mut quiets);
        proof {
            assert(ordered@ =~= spec_root_order(spec_all_legal_moves(board@)));
        }
        let ghost ord = ordered@;

        let mut best_move: Option<Move> = None;
        let mut best_score: i32 = -30000;
        let mut i: usize = 0;
        while i < ordered.len()
            invariant
                i <= ordered.len(),
                ordered@ == ord,
                1 <= self.depth <= 10000,
                board.halfmove_clock + 1 < u32::MAX,
                board@.fullmove + self.depth < u32::MAX,
                -1_500_000 - self.depth <= best_score <= 1_500_000 + self.depth,
                spec_best_from(
                    board@,
                    self.depth as int,
                    ord,
                    i as int,
                    best_move,
                    best_score as int,
                ) == spec_best_move(board@, self.depth as int),
            decreases ordered.len() - i,
        {
            let mv = ordered[i];
            let mut new_board = board.clone();
            new_board.make_move(&mv);

            let score = -self.minimax(&new_board, self.depth - 1, -30000, 30000, false);

            if score > best_score {
                best_score = score;
                best_move = Some(mv);
            }
            i += 1;
        }

        best_move
    }

    /// The static evaluation of `board` for its side to move.
    fn evaluate(&self, board: &Board) -> (res: i32)
        requires
            board.halfmove_clock < u32::MAX,
            board.fullmove_number < u32::MAX,
        ensures
            res == spec_evaluate(board@),
            -1_400_000 <= res <= 1_400_000,
    {
        let mut score: i32 = 0;

        let mut row: usize = 0;
        while row < 8
            invariant
                row <= 8,
                -20050 * (row as int) * 8 <= score <= 20050 * (row as int) * 8,
                score + spec_material_from(board@, row as int * 8) == spec_material_from(board@, 0),
            decreases 8 - row,
        {
            let mut col: usize = 0;
            while col < 8
                invariant
                    row < 8,
                    col <= 8,
                    -20050 * (row as int * 8 + col) <= score <= 20050 * (row as int * 8 + col),
                    score + spec_material_from(board@, row as int * 8 + col) == spec_material_from(
                        board@,
                        0,
                    ),
                decreases 8 - col,
            {
                proof {
                    let n = row as int * 8 + col as int;
                    assert(n / 8 == row as int && n % 8 == col as int);
                }
                if let Some(piece) = board.squares[row][col] {
                    let piece_value = piece.value();
                    let position_value = self.get_position_value(
                        piece.piece_type,
                        Position::new(row, col),
                        piece.color,
                    );
                    let total_value = piece_value + position_value;

                    if piece.color == board.current_player {
                        score = score + total_value;
                    } else {
                        score = score - total_value;
                    }
                }
                col += 1;
            }
            row += 1;
        }

        let our_pieces = board.get_all_pieces(board.current_player);
        let mut our_mobility: usize = 0;
        let mut i: usize = 0;
        while i < our_pieces.len()
            invariant
                i <= our_pieces.len(),
                our_pieces@ == spec_all_pieces(board@, board@.turn),
                board.halfmove_clock < u32::MAX,
                board.fullmove_number < u32::MAX,
                our_mobility <= 72 * i,
                our_mobility + spec_mobility_from(board@, our_pieces@, i as int)
                    == spec_mobility_from(board@, our_pieces@, 0),
            decreases our_pieces.len() - i,
        {
            let (pos, _) = our_pieces[i];
            let ms = MoveGenerator::generate_legal_moves(board, pos);
            proof {
                lemma_legal_len(board@, pos);
                crate::board::lemma_pieces_from_len(board@, board@.turn, 0);
            }
            our_mobility = our_mobility + ms.len();
            i += 1;
        }
        proof {
            crate::board::lemma_pieces_from_len(board@, board@.turn, 0);
        }
        score = score + (our_mobility as i32) * 2;

        if MoveGenerator::is_in_check(board, board.current_player.opposite()) {
            score = score + 50;
        }

        score
    }
}

} // verus!
