use chess_engine::app::{App, GameMode, GameOverReason};
use chess_engine::board::Board;
use chess_engine::engine::ChessAI;
use chess_engine::pieces::{Color, Piece, PieceType, Position};

fn empty_board() -> Board {
    let mut b = Board::new();
    for row in 0..8 {
        for col in 0..8 {
            b.set_piece(Position::new(row, col), None);
        }
    }
    b
}

fn put(b: &mut Board, row: usize, col: usize, t: PieceType, color: Color) {
    b.set_piece(Position::new(row, col), Some(Piece::new(t, color)));
}

/// A sparse position with exactly one capture available: the a1 rook can
/// take the undefended queen on a7, which outweighs every quiet move.
fn hanging_queen_board() -> Board {
    let mut b = empty_board();
    put(&mut b, 7, 7, PieceType::King, Color::White);
    put(&mut b, 7, 0, PieceType::Rook, Color::White);
    put(&mut b, 1, 0, PieceType::Queen, Color::Black);
    put(&mut b, 0, 6, PieceType::King, Color::Black);
    b
}

#[test]
fn best_move_takes_the_hanging_queen() {
    let b = hanging_queen_board();
    let ai = ChessAI::new(1);
    let best = ai.get_best_move(&b).expect("a move must be found");
    assert_eq!(best.from, Position::new(7, 0));
    assert_eq!(best.to, Position::new(1, 0));
    assert_eq!(
        best.captured,
        Some(Piece::new(PieceType::Queen, Color::Black))
    );
}

#[test]
fn best_move_finds_mate_in_one() {
    // White: Kg6, Qb7. Black: Kg8. Qb8 is mate.
    let mut b = empty_board();
    put(&mut b, 2, 6, PieceType::King, Color::White);
    put(&mut b, 1, 1, PieceType::Queen, Color::White);
    put(&mut b, 0, 6, PieceType::King, Color::Black);
    let ai = ChessAI::new(2);
    let best = ai.get_best_move(&b).expect("a move must be found");
    let mut after = b;
    assert!(after.make_move(&best));
    assert!(chess_engine::rules::MoveGenerator::is_checkmate(
        &after,
        Color::Black
    ));
}

#[test]
fn best_move_none_without_pieces() {
    let mut b = empty_board();
    // Only the opposing king: the side to move has no pieces and no moves.
    put(&mut b, 0, 6, PieceType::King, Color::Black);
    let ai = ChessAI::new(1);
    assert!(ai.get_best_move(&b).is_none());
}

#[test]
fn app_starts_on_menu() {
    let app = App::new();
    assert_eq!(app.mode, GameMode::Menu);
    assert_eq!(app.cursor, Position::new(6, 4));
    assert!(app.selected_piece.is_none());
    assert!(app.legal_moves.is_empty());
    assert!(app.move_history.is_empty());
    assert!(app.ai.is_none());
    assert!(!app.should_quit);
}

#[test]
fn app_mode_switches() {
    let mut app = App::new();
    app.start_two_player();
    assert_eq!(app.mode, GameMode::TwoPlayer);
    assert!(app.ai.is_none());

    app.start_vs_ai();
    assert_eq!(app.mode, GameMode::VsAI);
    assert_eq!(app.ai_color, Some(Color::Black));
    assert_eq!(app.ai.map(|a| a.depth), Some(3));

    app.return_to_menu();
    assert_eq!(app.mode, GameMode::Menu);
    assert_eq!(app.menu_selection, 0);

    app.quit();
    assert!(app.should_quit);
}

#[test]
fn app_cursor_clamps_to_board() {
    let mut app = App::new();
    app.move_cursor(-8, -8);
    assert_eq!(app.cursor, Position::new(0, 0));
    app.move_cursor(8, 8);
    assert_eq!(app.cursor, Position::new(7, 7));
    app.move_cursor(-1, 0);
    assert_eq!(app.cursor, Position::new(6, 7));
}

#[test]
fn app_selects_and_plays_a_move() {
    let mut app = App::new();
    app.start_two_player();
    // Select the e2 pawn.
    app.select_square();
    assert_eq!(app.selected_piece, Some(Position::new(6, 4)));
    assert_eq!(app.legal_moves.len(), 2);
    // Walk the cursor to e4 and play.
    app.move_cursor(-2, 0);
    app.select_square();
    assert_eq!(app.move_history.len(), 1);
    assert_eq!(
        app.board.get_piece(Position::new(4, 4)),
        Some(Piece::new(PieceType::Pawn, Color::White))
    );
    assert_eq!(app.board.current_player, Color::Black);
    assert!(app.selected_piece.is_none());
}

#[test]
fn app_selecting_wrong_square_clears_selection() {
    let mut app = App::new();
    app.start_two_player();
    app.move_cursor(-2, 0);  // empty square e4
    app.select_square();
    assert!(app.selected_piece.is_none());
    assert!(app.legal_moves.is_empty());
    app.move_cursor(-3, 0);  // black pawn e7, not the side to move
    app.select_square();
    assert!(app.selected_piece.is_none());
}

#[test]
fn app_promotion_flow() {
    let mut app = App::new();
    app.start_two_player();
    app.board = empty_board();
    app.board.set_piece(
        Position::new(1, 0),
        Some(Piece::new(PieceType::Pawn, Color::White)),
    );
    app.board.set_piece(
        Position::new(7, 7),
        Some(Piece::new(PieceType::King, Color::White)),
    );
    app.board.set_piece(
        Position::new(3, 5),
        Some(Piece::new(PieceType::King, Color::Black)),
    );
    app.cursor = Position::new(1, 0);
    app.select_square();
    assert_eq!(app.selected_piece, Some(Position::new(1, 0)));
    app.cursor = Position::new(0, 0);
    app.select_square();
    assert_eq!(app.promotion_menu, Some(Position::new(0, 0)));
    app.execute_promotion(PieceType::Rook);
    assert!(app.promotion_menu.is_none());
    assert_eq!(
        app.board.get_piece(Position::new(0, 0)),
        Some(Piece::new(PieceType::Rook, Color::White))
    );
}

#[test]
fn app_deselect_clears_everything() {
    let mut app = App::new();
    app.start_two_player();
    app.select_square();
    assert!(app.selected_piece.is_some());
    app.deselect();
    assert!(app.selected_piece.is_none());
    assert!(app.legal_moves.is_empty());
    assert!(app.promotion_menu.is_none());
}

#[test]
fn app_ai_move_applies_and_records() {
    let mut app = App::new();
    app.start_two_player();
    app.board = hanging_queen_board();
    app.ai = Some(ChessAI::new(1));
    app.make_ai_move();
    assert_eq!(app.move_history.len(), 1);
    assert_eq!(app.captured_black, vec![PieceType::Queen]);
    assert_eq!(
        app.board.get_piece(Position::new(1, 0)),
        Some(Piece::new(PieceType::Rook, Color::White))
    );
}

#[test]
fn app_fifty_move_rule_ends_the_game() {
    let mut app = App::new();
    app.start_two_player();
    app.board.halfmove_clock = 49;
    // A quiet knight move pushes the clock to 50.
    app.cursor = Position::new(7, 6);
    app.select_square();
    app.cursor = Position::new(5, 5);
    app.select_square();
    assert_eq!(app.board.halfmove_clock, 50);
    assert_eq!(app.game_over_reason, Some(GameOverReason::FiftyMoveRule));
    assert_eq!(app.mode, GameMode::GameOver);
}

#[test]
fn app_detects_checkmate_as_game_over() {
    let mut app = App::new();
    app.start_two_player();
    let scholars: [((usize, usize), (usize, usize)); 7] = [
        ((6, 4), (4, 4)),  // e4
        ((1, 4), (3, 4)),  // e5
        ((7, 5), (4, 2)),  // Bc4
        ((0, 1), (2, 2)),  // Nc6
        ((7, 3), (5, 5)),  // Qf3
        ((1, 3), (2, 3)),  // d6, leaving f7 undefended
        ((5, 5), (1, 5)),  // Qxf7, mate with the bishop guarding f7
    ];
    for (from, to) in scholars {
        app.cursor = Position::new(from.0, from.1);
        app.select_square();
        assert!(app.selected_piece.is_some(), "no piece at {:?}", from);
        app.cursor = Position::new(to.0, to.1);
        app.select_square();
    }
    assert_eq!(
        app.game_over_reason,
        Some(GameOverReason::Checkmate(Color::White))
    );
    assert_eq!(app.mode, GameMode::GameOver);
}
