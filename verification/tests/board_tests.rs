use chess_engine::board::{Board, CastlingRights};
use chess_engine::moves::{Move, MoveType};
use chess_engine::pieces::{Color, Piece, PieceType, Position};

fn empty_board() -> Board {
    let mut b = Board::new();
    for row in 0..8 {
        for col in 0..8 {
            b.set_piece(Position::new(row, col), None);
        }
    }
    b
}

#[test]
fn initial_position_setup() {
    let b = Board::new();
    assert_eq!(b.current_player, Color::White);
    assert_eq!(b.halfmove_clock, 0);
    assert_eq!(b.fullmove_number, 1);
    assert!(b.en_passant_target.is_none());
    assert!(b.castling_rights.white_kingside);
    assert!(b.castling_rights.black_queenside);
    assert_eq!(
        b.get_piece(Position::new(7, 0)),
        Some(Piece::new(PieceType::Rook, Color::White))
    );
    assert_eq!(
        b.get_piece(Position::new(7, 4)),
        Some(Piece::new(PieceType::King, Color::White))
    );
    assert_eq!(
        b.get_piece(Position::new(0, 3)),
        Some(Piece::new(PieceType::Queen, Color::Black))
    );
    for col in 0..8 {
        assert_eq!(
            b.get_piece(Position::new(6, col)),
            Some(Piece::new(PieceType::Pawn, Color::White))
        );
        assert_eq!(
            b.get_piece(Position::new(1, col)),
            Some(Piece::new(PieceType::Pawn, Color::Black))
        );
        for row in 2..6 {
            assert_eq!(b.get_piece(Position::new(row, col)), None);
        }
    }
}

#[test]
fn piece_values() {
    assert_eq!(PieceType::Pawn.value(), 100);
    assert_eq!(PieceType::Knight.value(), 320);
    assert_eq!(PieceType::Bishop.value(), 330);
    assert_eq!(PieceType::Rook.value(), 500);
    assert_eq!(PieceType::Queen.value(), 900);
    assert_eq!(PieceType::King.value(), 20000);
    assert_eq!(Piece::new(PieceType::Queen, Color::Black).value(), 900);
}

#[test]
fn color_opposite() {
    assert_eq!(Color::White.opposite(), Color::Black);
    assert_eq!(Color::Black.opposite(), Color::White);
}

#[test]
fn position_validity() {
    assert!(Position::new(0, 0).is_valid());
    assert!(Position::new(7, 7).is_valid());
    assert!(!Position::new(8, 0).is_valid());
    assert!(!Position::new(0, 8).is_valid());
}

#[test]
fn position_algebraic_names() {
    assert_eq!(Position::new(7, 0).to_algebraic(), "a1");
    assert_eq!(Position::new(0, 0).to_algebraic(), "a8");
    assert_eq!(Position::new(4, 4).to_algebraic(), "e4");
    assert_eq!(Position::new(0, 7).to_algebraic(), "h8");
}

#[test]
fn position_from_algebraic_parses() {
    assert_eq!(Position::from_algebraic("e4"), Some(Position::new(4, 4)));
    assert_eq!(Position::from_algebraic("a1"), Some(Position::new(7, 0)));
    assert_eq!(Position::from_algebraic("h8"), Some(Position::new(0, 7)));
    assert_eq!(Position::from_algebraic("z9"), None);
    assert_eq!(Position::from_algebraic("e"), None);
    assert_eq!(Position::from_algebraic("e44"), None);
    assert_eq!(Position::from_algebraic("a0"), None);
}

#[test]
fn make_move_moves_the_piece() {
    let mut b = Board::new();
    let pawn = Piece::new(PieceType::Pawn, Color::White);
    let mv = Move::new(Position::new(6, 4), Position::new(4, 4), pawn);
    assert!(b.make_move(&mv));
    assert_eq!(b.get_piece(Position::new(4, 4)), Some(pawn));
    assert_eq!(b.get_piece(Position::new(6, 4)), None);
    assert_eq!(b.current_player, Color::Black);
}

#[test]
fn make_move_rejects_stale_moves() {
    let mut b = Board::new();
    let knight = Piece::new(PieceType::Knight, Color::White);
    // No knight stands on e4, so this move no longer applies.
    let mv = Move::new(Position::new(4, 4), Position::new(2, 3), knight);
    assert!(!b.make_move(&mv));
    assert_eq!(b.current_player, Color::White);
    assert_eq!(b.halfmove_clock, 0);
    assert_eq!(
        b.get_piece(Position::new(4, 4)),
        None
    );
}

#[test]
fn halfmove_clock_resets_and_increments() {
    let mut b = Board::new();
    let knight = Piece::new(PieceType::Knight, Color::White);
    assert!(b.make_move(&Move::new(Position::new(7, 6), Position::new(5, 5), knight)));
    assert_eq!(b.halfmove_clock, 1);
    let black_knight = Piece::new(PieceType::Knight, Color::Black);
    assert!(b.make_move(&Move::new(Position::new(0, 6), Position::new(2, 5), black_knight)));
    assert_eq!(b.halfmove_clock, 2);
    let pawn = Piece::new(PieceType::Pawn, Color::White);
    assert!(b.make_move(&Move::new(Position::new(6, 4), Position::new(4, 4), pawn)));
    assert_eq!(b.halfmove_clock, 0);
    assert_eq!(b.fullmove_number, 2);
}

#[test]
fn en_passant_target_set_after_double_advance() {
    let mut b = Board::new();
    let pawn = Piece::new(PieceType::Pawn, Color::White);
    assert!(b.make_move(&Move::new(Position::new(6, 4), Position::new(4, 4), pawn)));
    assert_eq!(b.en_passant_target, Some(Position::new(5, 4)));
    let black_knight = Piece::new(PieceType::Knight, Color::Black);
    assert!(b.make_move(&Move::new(Position::new(0, 6), Position::new(2, 5), black_knight)));
    assert_eq!(b.en_passant_target, None);
}

#[test]
fn castling_rights_revoked_by_king_and_rook_moves() {
    let mut b = Board::new();
    let king = Piece::new(PieceType::King, Color::White);
    assert!(b.make_move(&Move::new(Position::new(7, 4), Position::new(5, 4), king)));
    assert!(!b.castling_rights.white_kingside);
    assert!(!b.castling_rights.white_queenside);
    assert!(b.castling_rights.black_kingside);

    let mut b2 = Board::new();
    let rook = Piece::new(PieceType::Rook, Color::White);
    assert!(b2.make_move(&Move::new(Position::new(7, 0), Position::new(5, 0), rook)));
    assert!(!b2.castling_rights.white_queenside);
    assert!(b2.castling_rights.white_kingside);
}

#[test]
fn castle_move_relocates_the_rook() {
    let mut b = empty_board();
    b.set_piece(Position::new(7, 4), Some(Piece::new(PieceType::King, Color::White)));
    b.set_piece(Position::new(7, 7), Some(Piece::new(PieceType::Rook, Color::White)));
    b.set_piece(Position::new(0, 4), Some(Piece::new(PieceType::King, Color::Black)));
    let king = Piece::new(PieceType::King, Color::White);
    let mv = Move::new(Position::new(7, 4), Position::new(7, 6), king)
        .with_type(MoveType::Castle);
    assert!(b.make_move(&mv));
    assert_eq!(b.get_piece(Position::new(7, 6)), Some(king));
    assert_eq!(
        b.get_piece(Position::new(7, 5)),
        Some(Piece::new(PieceType::Rook, Color::White))
    );
    assert_eq!(b.get_piece(Position::new(7, 7)), None);
    assert_eq!(b.get_piece(Position::new(7, 4)), None);
}

#[test]
fn promotion_places_the_new_piece() {
    let mut b = empty_board();
    b.set_piece(Position::new(1, 0), Some(Piece::new(PieceType::Pawn, Color::White)));
    b.set_piece(Position::new(7, 7), Some(Piece::new(PieceType::King, Color::White)));
    b.set_piece(Position::new(3, 5), Some(Piece::new(PieceType::King, Color::Black)));
    let pawn = Piece::new(PieceType::Pawn, Color::White);
    let mv = Move::new(Position::new(1, 0), Position::new(0, 0), pawn)
        .with_type(MoveType::Promotion(PieceType::Queen));
    assert!(b.make_move(&mv));
    assert_eq!(
        b.get_piece(Position::new(0, 0)),
        Some(Piece::new(PieceType::Queen, Color::White))
    );
    assert_eq!(b.get_piece(Position::new(1, 0)), None);
}

#[test]
fn find_king_scans_row_major() {
    let b = Board::new();
    assert_eq!(b.find_king(Color::White), Some(Position::new(7, 4)));
    assert_eq!(b.find_king(Color::Black), Some(Position::new(0, 4)));
    let e = empty_board();
    assert_eq!(e.find_king(Color::White), None);
}

#[test]
fn get_all_pieces_counts_and_order() {
    let b = Board::new();
    let white = b.get_all_pieces(Color::White);
    let black = b.get_all_pieces(Color::Black);
    assert_eq!(white.len(), 16);
    assert_eq!(black.len(), 16);
    // Row-major: Black's back rank comes first.
    assert_eq!(black[0].0, Position::new(0, 0));
    assert_eq!(black[0].1, Piece::new(PieceType::Rook, Color::Black));
    assert_eq!(white[0].0, Position::new(6, 0));
}

#[test]
fn move_notation() {
    let pawn = Piece::new(PieceType::Pawn, Color::White);
    let knight = Piece::new(PieceType::Knight, Color::White);
    let king = Piece::new(PieceType::King, Color::White);
    let black_pawn = Piece::new(PieceType::Pawn, Color::Black);
    let black_rook = Piece::new(PieceType::Rook, Color::Black);

    let quiet = Move::new(Position::new(6, 4), Position::new(4, 4), pawn);
    assert_eq!(quiet.to_algebraic(), "e4");

    let ncap = Move::with_capture(Position::new(7, 6), Position::new(5, 5), knight, black_pawn);
    assert_eq!(ncap.to_algebraic(), "Nxf3");

    let pcap = Move::with_capture(Position::new(4, 4), Position::new(3, 3), pawn, black_pawn);
    assert_eq!(pcap.to_algebraic(), "exd5");

    let ks = Move::new(Position::new(7, 4), Position::new(7, 6), king).with_type(MoveType::Castle);
    assert_eq!(ks.to_algebraic(), "O-O");

    let qs = Move::new(Position::new(7, 4), Position::new(7, 2), king).with_type(MoveType::Castle);
    assert_eq!(qs.to_algebraic(), "O-O-O");

    let promo = Move::new(Position::new(1, 4), Position::new(0, 4), pawn)
        .with_type(MoveType::Promotion(PieceType::Queen));
    assert_eq!(promo.to_algebraic(), "e8=Q");

    let promo_cap = Move::with_capture(Position::new(1, 4), Position::new(0, 3), pawn, black_rook)
        .with_type(MoveType::Promotion(PieceType::Knight));
    assert_eq!(promo_cap.to_algebraic(), "xd8=N");
}

#[test]
fn piece_symbols_and_art() {
    assert_eq!(PieceType::King.symbol(), '♚');
    assert_eq!(Piece::new(PieceType::Pawn, Color::White).symbol(), '♟');
    let art = PieceType::Rook.ascii_art();
    assert_eq!(art.len(), 3);
    assert_eq!(art[0], "█▀█");
    assert_eq!(art[2], "███");
}

#[test]
fn default_board_is_initial() {
    let b = Board::default();
    assert_eq!(
        b.get_piece(Position::new(7, 4)),
        Some(Piece::new(PieceType::King, Color::White))
    );
    assert_eq!(b.current_player, Color::White);
}

#[test]
fn castling_rights_new_grants_all() {
    let r = CastlingRights::new();
    assert!(r.white_kingside && r.white_queenside && r.black_kingside && r.black_queenside);
}
