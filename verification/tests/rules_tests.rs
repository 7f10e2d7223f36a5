use chess_engine::board::Board;
use chess_engine::moves::{Move, MoveType};
use chess_engine::pieces::{Color, Piece, PieceType, Position};
use chess_engine::rules::MoveGenerator;

fn empty_board() -> Board {
    let mut b = Board::new();
    for row in 0..8 {
        for col in 0..8 {
            b.set_piece(Position::new(row, col), None);
        }
    }
    b
}

fn put(b: &mut Board, row: usize, col: usize, t: PieceType, color: Color) {
    b.set_piece(Position::new(row, col), Some(Piece::new(t, color)));
}

#[test]
fn initial_pawn_and_knight_moves() {
    let b = Board::new();
    let pawn_moves = MoveGenerator::generate_legal_moves(&b, Position::new(6, 4));
    assert_eq!(pawn_moves.len(), 2);
    assert_eq!(pawn_moves[0].to, Position::new(5, 4));
    assert_eq!(pawn_moves[1].to, Position::new(4, 4));

    let knight_moves = MoveGenerator::generate_legal_moves(&b, Position::new(7, 6));
    assert_eq!(knight_moves.len(), 2);

    // A rook locked behind its own pawns has nothing.
    let rook_moves = MoveGenerator::generate_legal_moves(&b, Position::new(7, 0));
    assert_eq!(rook_moves.len(), 0);

    // The side not to move gets an empty list.
    let black_moves = MoveGenerator::generate_legal_moves(&b, Position::new(1, 4));
    assert_eq!(black_moves.len(), 0);

    // So does an empty square.
    let none_moves = MoveGenerator::generate_legal_moves(&b, Position::new(4, 4));
    assert_eq!(none_moves.len(), 0);
}

#[test]
fn attacks_on_initial_board() {
    let b = Board::new();
    // b2 pawn attacks a3; g1 knight attacks f3.
    assert!(MoveGenerator::is_square_attacked(&b, Position::new(5, 0), Color::White));
    assert!(MoveGenerator::is_square_attacked(&b, Position::new(5, 5), Color::White));
    // b7 pawn attacks a6.
    assert!(MoveGenerator::is_square_attacked(&b, Position::new(2, 0), Color::Black));
    // e4 is attacked by nobody at the start.
    assert!(!MoveGenerator::is_square_attacked(&b, Position::new(4, 4), Color::White));
    assert!(!MoveGenerator::is_in_check(&b, Color::White));
    assert!(!MoveGenerator::is_in_check(&b, Color::Black));
}

#[test]
fn pinned_knight_has_no_moves() {
    let mut b = empty_board();
    put(&mut b, 7, 4, PieceType::King, Color::White);
    put(&mut b, 6, 4, PieceType::Knight, Color::White);
    put(&mut b, 0, 4, PieceType::Queen, Color::Black);
    put(&mut b, 0, 7, PieceType::King, Color::Black);
    let moves = MoveGenerator::generate_legal_moves(&b, Position::new(6, 4));
    assert_eq!(moves.len(), 0);
}

#[test]
fn fools_mate_is_checkmate() {
    let mut b = Board::new();
    let wp = Piece::new(PieceType::Pawn, Color::White);
    let bp = Piece::new(PieceType::Pawn, Color::Black);
    let bq = Piece::new(PieceType::Queen, Color::Black);
    assert!(b.make_move(&Move::new(Position::new(6, 5), Position::new(5, 5), wp)));
    assert!(b.make_move(&Move::new(Position::new(1, 4), Position::new(3, 4), bp)));
    assert!(b.make_move(&Move::new(Position::new(6, 6), Position::new(4, 6), wp)));
    assert!(b.make_move(&Move::new(Position::new(0, 3), Position::new(4, 7), bq)));
    assert!(MoveGenerator::is_in_check(&b, Color::White));
    assert!(MoveGenerator::is_checkmate(&b, Color::White));
    assert!(!MoveGenerator::is_stalemate(&b, Color::White));
}

#[test]
fn en_passant_capture_removes_the_passed_pawn() {
    let mut b = Board::new();
    let wp = Piece::new(PieceType::Pawn, Color::White);
    let bp = Piece::new(PieceType::Pawn, Color::Black);
    let bn = Piece::new(PieceType::Knight, Color::Black);
    assert!(b.make_move(&Move::new(Position::new(6, 4), Position::new(4, 4), wp)));
    assert!(b.make_move(&Move::new(Position::new(0, 6), Position::new(2, 5), bn)));
    assert!(b.make_move(&Move::new(Position::new(4, 4), Position::new(3, 4), wp)));
    assert!(b.make_move(&Move::new(Position::new(1, 3), Position::new(3, 3), bp)));
    assert_eq!(b.en_passant_target, Some(Position::new(2, 3)));

    let moves = MoveGenerator::generate_legal_moves(&b, Position::new(3, 4));
    let ep: Vec<&Move> = moves
        .iter()
        .filter(|m| m.move_type == MoveType::EnPassant)
        .collect();
    assert_eq!(ep.len(), 1);
    let ep_move = *ep[0];
    assert_eq!(ep_move.to, Position::new(2, 3));
    assert_eq!(ep_move.captured, Some(bp));

    assert!(b.make_move(&ep_move));
    assert_eq!(b.get_piece(Position::new(2, 3)), Some(wp));
    // The captured pawn disappears from the square it actually stood on,
    // not from the destination square.
    assert_eq!(b.get_piece(Position::new(3, 3)), None);
}

#[test]
fn castling_attack_asymmetry() {
    let mut b = empty_board();
    put(&mut b, 7, 4, PieceType::King, Color::White);
    put(&mut b, 7, 0, PieceType::Rook, Color::White);
    put(&mut b, 7, 7, PieceType::Rook, Color::White);
    put(&mut b, 0, 7, PieceType::King, Color::Black);
    // A rook on f8 attacks the kingside transit square f1; a rook on b8
    // attacks only b1, a queenside transit square that is checked for
    // occupancy but not for attack.
    put(&mut b, 0, 5, PieceType::Rook, Color::Black);
    put(&mut b, 0, 1, PieceType::Rook, Color::Black);

    let moves = MoveGenerator::generate_legal_moves(&b, Position::new(7, 4));
    let kingside = moves
        .iter()
        .any(|m| m.move_type == MoveType::Castle && m.to == Position::new(7, 6));
    let queenside = moves
        .iter()
        .any(|m| m.move_type == MoveType::Castle && m.to == Position::new(7, 2));
    assert!(!kingside);
    assert!(queenside);
}

#[test]
fn castling_blocked_by_occupancy() {
    let b = Board::new();
    // From the start nothing can castle: the squares between are occupied.
    let moves = MoveGenerator::generate_legal_moves(&b, Position::new(7, 4));
    assert!(moves.iter().all(|m| m.move_type != MoveType::Castle));
}

#[test]
fn promotion_moves_generated_in_order() {
    let mut b = empty_board();
    put(&mut b, 1, 0, PieceType::Pawn, Color::White);
    put(&mut b, 7, 7, PieceType::King, Color::White);
    put(&mut b, 3, 5, PieceType::King, Color::Black);
    let moves = MoveGenerator::generate_legal_moves(&b, Position::new(1, 0));
    assert_eq!(moves.len(), 4);
    assert_eq!(moves[0].move_type, MoveType::Promotion(PieceType::Queen));
    assert_eq!(moves[1].move_type, MoveType::Promotion(PieceType::Rook));
    assert_eq!(moves[2].move_type, MoveType::Promotion(PieceType::Bishop));
    assert_eq!(moves[3].move_type, MoveType::Promotion(PieceType::Knight));
    assert!(moves.iter().all(|m| m.to == Position::new(0, 0)));
}

#[test]
fn stalemate_detected() {
    let mut b = empty_board();
    put(&mut b, 0, 7, PieceType::King, Color::Black);
    put(&mut b, 1, 5, PieceType::King, Color::White);
    put(&mut b, 2, 6, PieceType::Queen, Color::White);
    b.current_player = Color::Black;
    assert!(!MoveGenerator::is_in_check(&b, Color::Black));
    assert!(MoveGenerator::is_stalemate(&b, Color::Black));
    assert!(!MoveGenerator::is_checkmate(&b, Color::Black));
}

#[test]
fn insufficient_material_cases() {
    let mut kk = empty_board();
    put(&mut kk, 0, 0, PieceType::King, Color::Black);
    put(&mut kk, 7, 7, PieceType::King, Color::White);
    assert!(MoveGenerator::is_insufficient_material(&kk));

    let mut kbk = empty_board();
    put(&mut kbk, 0, 0, PieceType::King, Color::Black);
    put(&mut kbk, 7, 7, PieceType::King, Color::White);
    put(&mut kbk, 4, 4, PieceType::Bishop, Color::White);
    assert!(MoveGenerator::is_insufficient_material(&kbk));

    let mut knk = empty_board();
    put(&mut knk, 0, 0, PieceType::King, Color::Black);
    put(&mut knk, 7, 7, PieceType::King, Color::White);
    put(&mut knk, 4, 4, PieceType::Knight, Color::Black);
    assert!(MoveGenerator::is_insufficient_material(&knk));

    let mut kqk = empty_board();
    put(&mut kqk, 0, 0, PieceType::King, Color::Black);
    put(&mut kqk, 7, 7, PieceType::King, Color::White);
    put(&mut kqk, 4, 4, PieceType::Queen, Color::White);
    assert!(!MoveGenerator::is_insufficient_material(&kqk));

    assert!(!MoveGenerator::is_insufficient_material(&Board::new()));
}

#[test]
fn generated_moves_never_capture_a_king() {
    // In a position the engine itself could reach, no move captures a king.
    let b = Board::new();
    for row in 0..8 {
        for col in 0..8 {
            for m in MoveGenerator::generate_legal_moves(&b, Position::new(row, col)) {
                if let Some(c) = m.captured {
                    assert_ne!(c.piece_type, PieceType::King);
                }
            }
        }
    }
}
