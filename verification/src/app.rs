//! The game controller: menu and mode state, cursor and selection, move
//! execution with capture bookkeeping, game-over detection, and handing the
//! turn to the computer opponent.
//!
//! Contracts are stated over [`AppView`], a model of the whole controller
//! state; each transition has a spec function giving its exact post-state.

use vstd::prelude::*;

use crate::board::{spec_after_move, spec_is_initial, Board, BoardView};
use crate::engine::{spec_best_move, ChessAI};
use crate::moves::{Move, MoveType};
use crate::pieces::{Color, PieceType, Position};
use crate::rules::{
    spec_insufficient_material, spec_is_checkmate, spec_is_stalemate, spec_legal_moves,
    MoveGenerator,
};

verus! {

/// Which screen the program is on.
#[derive(Debug, Clone, Copy, PartialEq, Eq, Structural)]
pub enum GameMode {
    Menu,
    TwoPlayer,
    VsAI,
    GameOver,
}

/// Why a game ended; `Checkmate` carries the winner.
#[derive(Debug, Clone, Copy, PartialEq, Eq, Structural)]
pub enum GameOverReason {
    Checkmate(Color),
    Stalemate,
    InsufficientMaterial,
    FiftyMoveRule,
}

/// Mathematical model of the controller state.
#[verifier::ext_equal]
pub struct AppView {
    pub board: BoardView,
    pub cursor: Position,
    pub selected: Option<Position>,
    pub legal: Seq<Move>,
    pub history: Seq<Move>,
    pub cap_white: Seq<PieceType>,
    pub cap_black: Seq<PieceType>,
    pub mode: GameMode,
    pub menu_selection: int,
    pub ai: Option<ChessAI>,
    pub ai_color: Option<Color>,
    pub reason: Option<GameOverReason>,
    pub promo: Option<Position>,
    pub quit: bool,
}

/// Why the game on `b` is over, if it is: checkmate of the side to move
/// (the winner is the other side), stalemate, the recognized material draws,
/// or the 50-move rule, checked in that order.
pub open spec fn spec_game_over_reason(b: BoardView) -> Option<GameOverReason> {
    if spec_is_checkmate(b, b.turn) {
        Some(GameOverReason::Checkmate(b.turn.spec_opposite()))
    } else if spec_is_stalemate(b, b.turn) {
        Some(GameOverReason::Stalemate)
    } else if spec_insufficient_material(b) {
        Some(GameOverReason::InsufficientMaterial)
    } else if b.halfmove >= 50 {
        Some(GameOverReason::FiftyMoveRule)
    } else {
        None
    }
}

/// `check_game_over`: when the board shows a finished game, record the
/// reason and switch to the game-over screen; otherwise change nothing.
pub open spec fn spec_check_game_over(a: AppView) -> AppView {
    match spec_game_over_reason(a.board) {
        Some(r) => AppView { reason: Some(r), mode: GameMode::GameOver, ..a },
        None => a,
    }
}

/// The bookkeeping around applying `mv`: the captured piece's kind is added
/// to its color's capture list, the move is appended to the history, and the
/// board advances.
pub open spec fn spec_record_move(a: AppView, mv: Move) -> AppView {
    let cap_white = match mv.captured {
        Some(c) => if c.color == Color::White {
            a.cap_white.push(c.piece_type)
        } else {
            a.cap_white
        },
        None => a.cap_white,
    };
    let cap_black = match mv.captured {
        Some(c) => if c.color == Color::Black {
            a.cap_black.push(c.piece_type)
        } else {
            a.cap_black
        },
        None => a.cap_black,
    };
    AppView {
        cap_white,
        cap_black,
        history: a.history.push(mv),
        board: spec_after_move(a.board, mv),
        ..a
    }
}

/// `make_ai_move`: with an engine configured and a best move found, record
/// that move and re-check for game over; otherwise change nothing.
pub open spec fn spec_make_ai_move(a: AppView) -> AppView {
    match a.ai {
        Some(ai) => match spec_best_move(a.board, ai.depth as int) {
            Some(mv) => spec_check_game_over(spec_record_move(a, mv)),
            None => a,
        },
        None => a,
    }
}

/// `execute_move`: record the player's move, drop the selection, check for
/// game over, and, in a game against the engine with the game still running
/// and the engine's side to move, let the engine answer.
pub open spec fn spec_execute_move(a: AppView, mv: Move) -> AppView {
    let a1 = AppView { selected: None, legal: Seq::empty(), ..spec_record_move(a, mv) };
    let a2 = spec_check_game_over(a1);
    if a2.mode == GameMode::VsAI && a2.reason is None && a2.ai_color == Some(a2.board.turn) {
        spec_make_ai_move(a2)
    } else {
        a2
    }
}

/// `try_select_piece`: selecting a square that holds a piece of the side to
/// move records the selection and its legal moves; any other square clears
/// the selection.
pub open spec fn spec_try_select(a: AppView) -> AppView {
    match a.board.sq_at(a.cursor) {
        Some(p) => if p.color == a.board.turn {
            AppView { selected: Some(a.cursor), legal: spec_legal_moves(a.board, a.cursor), ..a }
        } else {
            AppView { selected: None, legal: Seq::empty(), ..a }
        },
        None => AppView { selected: None, legal: Seq::empty(), ..a },
    }
}

/// The first move in `ms` whose destination is `to`.
pub open spec fn spec_find_move_to(ms: Seq<Move>, to: Position) -> Option<Move>
    decreases ms.len(),
{
    if ms.len() == 0 {
        None
    } else if ms[0].to == to {
        Some(ms[0])
    } else {
        spec_find_move_to(ms.drop_first(), to)
    }
}

/// `select_square`: ignored while the promotion menu is open; with a piece
/// selected, a cursor on one of its legal destinations plays that move
/// (deferring pawn moves onto the back rank to the promotion menu), and any
/// other cursor square re-selects; with nothing selected it selects.
pub open spec fn spec_select_square(a: AppView) -> AppView {
    if a.promo is Some {
        a
    } else if a.selected is Some {
        match spec_find_move_to(a.legal, a.cursor) {
            Some(mv) => {
                let promo_row: int = if mv.piece.color == Color::White {
                    0
                } else {
                    7
                };
                if mv.piece.piece_type == PieceType::Pawn && mv.to.row == promo_row {
                    AppView { promo: Some(mv.to), ..a }
                } else {
                    spec_execute_move(a, mv)
                }
            },
            None => spec_try_select(a),
        }
    } else {
        spec_try_select(a)
    }
}

/// `execute_promotion`: with a selection and an open promotion menu, replay
/// the deferred move with its promotion target substituted, then close the
/// menu; otherwise change nothing.
pub open spec fn spec_execute_promotion(a: AppView, t: PieceType) -> AppView {
    if a.selected is Some && a.promo is Some {
        match spec_find_move_to(a.legal, a.promo->0) {
            Some(mv) => {
                let pm = Move {
                    from: mv.from,
                    to: mv.to,
                    move_type: MoveType::Promotion(t),
                    piece: mv.piece,
                    captured: mv.captured,
                };
                AppView { promo: None, ..spec_execute_move(a, pm) }
            },
            None => a,
        }
    } else {
        a
    }
}

/// Clamp an offset cursor coordinate back onto the board.
pub open spec fn spec_clamp(v: int) -> int {
    if v < 0 {
        0
    } else if v > 7 {
        7
    } else {
        v
    }
}

/// The whole interactive state of the program.
pub struct App {
    pub board: Board,
    pub cursor: Position,
    pub selected_piece: Option<Position>,
    pub legal_moves: Vec<Move>,
    pub move_history: Vec<Move>,
    pub captured_white: Vec<PieceType>,
    pub captured_black: Vec<PieceType>,
    pub mode: GameMode,
    pub menu_selection: usize,
    pub ai: Option<ChessAI>,
    pub ai_color: Option<Color>,
    pub game_over_reason: Option<GameOverReason>,
    pub promotion_menu: Option<Position>,
    pub should_quit: bool,
}

impl View for App {
    type V = AppView;

    open spec fn view(&self) -> AppView {
        AppView {
            board: self.board@,
            cursor: self.cursor,
            selected: self.selected_piece,
            legal: self.legal_moves@,
            history: self.move_history@,
            cap_white: self.captured_white@,
            cap_black: self.captured_black@,
            mode: self.mode,
            menu_selection: self.menu_selection as int,
            ai: self.ai,
            ai_color: self.ai_color,
            reason: self.game_over_reason,
            promo: self.promotion_menu,
            quit: self.should_quit,
        }
    }
}

impl App {
    /// A fresh program state: a fresh board, the cursor on White's king
    /// pawn, nothing selected, empty history and capture lists, on the menu.
    pub fn new() -> (r: App)
        ensures
            spec_is_initial(r@.board),
            r@.cursor == (Position { row: 6, col: 4 }),
            r@.selected is None,
            r@.legal == Seq::<Move>::empty(),
            r@.history == Seq::<Move>::empty(),
            r@.cap_white == Seq::<PieceType>::empty(),
            r@.cap_black == Seq::<PieceType>::empty(),
            r@.mode == GameMode::Menu,
            r@.menu_selection == 0,
            r@.ai is None,
            r@.ai_color is None,
            r@.reason is None,
            r@.promo is None,
            !r@.quit,
    {
        App {
            board: Board::new(),
            cursor: Position::new(6, 4),
            selected_piece: None,
            legal_moves: Vec::new(),
            move_history: Vec::new(),
            captured_white: Vec::new(),
            captured_black: Vec::new(),
            mode: GameMode::Menu,
            menu_selection: 0,
            ai: None,
            ai_color: None,
            game_over_reason: None,
            promotion_menu: None,
            should_quit: false,
        }
    }

    /// Start a game of two human players: everything reset, no engine.
    pub fn start_two_player(&mut self)
        ensures
            spec_is_initial(final(self)@.board),
            final(self)@.cursor == (Position { row: 6, col: 4 }),
            final(self)@.selected is None,
            final(self)@.legal == Seq::<Move>::empty(),
            final(self)@.history == Seq::<Move>::empty(),
            final(self)@.cap_white == Seq::<PieceType>::empty(),
            final(self)@.cap_black == Seq::<PieceType>::empty(),
            final(self)@.mode == GameMode::TwoPlayer,
            final(self)@.ai is None,
            final(self)@.ai_color is None,
            final(self)@.reason is None,
            final(self)@.promo is None,
            final(self)@.menu_selection == old(self)@.menu_selection,
            final(self)@.quit == old(self)@.quit,
    {
        self.board = Board::new();
        self.cursor = Position::new(6, 4);
        self.selected_piece = None;
        self.legal_moves = Vec::new();
        self.move_history = Vec::new();
        self.captured_white = Vec::new();
        self.captured_black = Vec::new();
        self.mode = GameMode::TwoPlayer;
        self.ai = None;
        self.ai_color = None;
        self.game_over_reason = None;
        self.promotion_menu = None;
    }

    /// Start a game against the engine: everything reset, the engine playing
    /// Black at three plies.
    pub fn start_vs_ai(&mut self)
        ensures
            spec_is_initial(final(self)@.board),
            final(self)@.cursor == (Position { row: 6, col: 4 }),
            final(self)@.selected is None,
            final(self)@.legal == Seq::<Move>::empty(),
            final(self)@.history == Seq::<Move>::empty(),
            final(self)@.cap_white == Seq::<PieceType>::empty(),
            final(self)@.cap_black == Seq::<PieceType>::empty(),
            final(self)@.mode == GameMode::VsAI,
            final(self)@.ai == Some(ChessAI { depth: 3 }),
            final(self)@.ai_color == Some(Color::Black),
            final(self)@.reason is None,
            final(self)@.promo is None,
            final(self)@.menu_selection == old(self)@.menu_selection,
            final(self)@.quit == old(self)@.quit,
    {
        self.board = Board::new();
        self.cursor = Position::new(6, 4);
        self.selected_piece = None;
        self.legal_moves = Vec::new();
        self.move_history = Vec::new();
        self.captured_white = Vec::new();
        self.captured_black = Vec::new();
        self.mode = GameMode::VsAI;
        self.ai = Some(ChessAI::new(3));
        self.ai_color = Some(Color::Black);
        self.game_over_reason = None;
        self.promotion_menu = None;
    }

    /// Move the cursor by the given offsets, clamped to the board.
    pub fn move_cursor(&mut self, row_offset: i32, col_offset: i32)
        requires
            old(self).cursor.spec_valid(),
        ensures
            final(self)@ == (AppView {
                cursor: Position {
                    row: spec_clamp(old(self).cursor.row + row_offset) as usize,
                    col: spec_clamp(old(self).cursor.col + col_offset) as usize,
                },
                ..old(self)@
            }),
    {
        let mut new_row = self.cursor.row as i64 + row_offset as i64;
        if new_row < 0 {
            new_row = 0;
        }
        if new_row > 7 {
            new_row = 7;
        }
        let mut new_col = self.cursor.col as i64 + col_offset as i64;
        if new_col < 0 {
            new_col = 0;
        }
        if new_col > 7 {
            new_col = 7;
        }
        self.cursor = Position::new(new_row as usize, new_col as usize);
    }

    /// The first listed legal move whose destination is `to`.
    fn find_move_to(ms: &Vec<Move>, to: Position) -> (r: Option<Move>)
        ensures
            r == spec_find_move_to(ms@, to),
    {
        let ghost all = ms@;
        let mut i: usize = 0;
        proof {
            assert(all.skip(0) =~= all);
        }
        while i < ms.len()
            invariant
                i <= ms.len(),
                ms@ == all,
                spec_find_move_to(all.skip(i as int), to) == spec_find_move_to(all, to),
            decreases ms.len() - i,
        {
            proof {
                assert(all.skip(i as int).drop_first() =~= all.skip(i as int + 1));
                assert(all.skip(i as int)[0] == all[i as int]);
            }
            if ms[i].to == to {
                return Some(ms[i]);
            }
            i += 1;
        }
        None
    }

    /// When the board shows a finished game, record why and switch to the
    /// game-over screen.
    fn check_game_over(&mut self)
        requires
            old(self).board.halfmove_clock < u32::MAX,
            old(self).board.fullmove_number < u32::MAX,
        ensures
            final(self)@ == spec_check_game_over(old(self)@),
    {
        if MoveGenerator::is_checkmate(&self.board, self.board.current_player) {
            self.game_over_reason = Some(
                GameOverReason::Checkmate(self.board.current_player.opposite()),
            );
            self.mode = GameMode::GameOver;
        } else if MoveGenerator::is_stalemate(&self.board, self.board.current_player) {
            self.game_over_reason = Some(GameOverReason::Stalemate);
            self.mode = GameMode::GameOver;
        } else if MoveGenerator::is_insufficient_material(&self.board) {
            self.game_over_reason = Some(GameOverReason::InsufficientMaterial);
            self.mode = GameMode::GameOver;
        } else if self.board.halfmove_clock >= 50 {
            self.game_over_reason = Some(GameOverReason::FiftyMoveRule);
            self.mode = GameMode::GameOver;
        }
        proof {
            assert(self@ =~~= spec_check_game_over(old(self)@));
        }
    }

    /// Select the cursor square when it holds a piece of the side to move,
    /// recording its legal moves; clear the selection otherwise.
    fn try_select_piece(&mut self)
        requires
            old(self).board.halfmove_clock < u32::MAX,
            old(self).board.fullmove_number < u32::MAX,
        ensures
            final(self)@ == spec_try_select(old(self)@),
    {
        if let Some(piece) = self.board.get_piece(self.cursor) {
            if piece.color == self.board.current_player {
                self.selected_piece = Some(self.cursor);
                self.legal_moves = MoveGenerator::generate_legal_moves(&self.board, self.cursor);
            } else {
                self.selected_piece = None;
                self.legal_moves = Vec::new();
            }
        } else {
            self.selected_piece = None;
            self.legal_moves = Vec::new();
        }
        proof {
            assert(self@ =~~= spec_try_select(old(self)@));
        }
    }

    /// Record `mv`: captures, history and the board itself; drop the
    /// selection; check for game over; and let the engine answer when it is
    /// playing and it is its turn.
    fn execute_move(&mut self, mv: Move)
        requires
            old(self).board.halfmove_clock + 2 < u32::MAX,
            match old(self).ai {
                Some(ai) => 1 <= ai.depth <= 10000 && old(self).board@.fullmove + ai.depth + 2
                    < u32::MAX,
                None => old(self).board@.fullmove + 2 < u32::MAX,
            },
        ensures
            final(self)@ == spec_execute_move(old(self)@, mv),
    {
        if let Some(captured) = mv.captured {
            match captured.color {
                Color::White => self.captured_white.push(captured.piece_type),
                Color::Black => self.captured_black.push(captured.piece_type),
            }
        }

        self.move_history.push(mv);
        self.board.make_move(&mv);
        self.selected_piece = None;
        self.legal_moves = Vec::new();

        proof {
            assert(self@ =~~= (AppView {
                selected: None,
                legal: Seq::empty(),
                ..spec_record_move(old(self)@, mv)
            }));
        }

        self.check_game_over();

        let ai_turn = match self.ai_color {
            Some(c) => c == self.board.current_player,
            None => false,
        };
        if self.mode == GameMode::VsAI && self.game_over_reason.is_none() && ai_turn {
            self.make_ai_move();
        }
        proof {
            assert(self@ =~~= spec_execute_move(old(self)@, mv));
        }
    }

    /// Let the engine pick and play its move, then re-check for game over;
    /// nothing happens without an engine or when it finds no move.
    pub fn make_ai_move(&mut self)
        requires
            old(self).board.halfmove_clock + 1 < u32::MAX,
            match old(self).ai {
                Some(ai) => 1 <= ai.depth <= 10000 && old(self).board@.fullmove + ai.depth + 1
                    < u32::MAX,
                None => true,
            },
        ensures
            final(self)@ == spec_make_ai_move(old(self)@),
    {
        let ai = self.ai;
        if let Some(ai) = ai {
            if let Some(mv) = ai.get_best_move(&self.board) {
                if let Some(captured) = mv.captured {
                    match captured.color {
                        Color::White => self.captured_white.push(captured.piece_type),
                        Color::Black => self.captured_black.push(captured.piece_type),
                    }
                }

                self.move_history.push(mv);
                self.board.make_move(&mv);
                proof {
                    assert(self@ =~~= spec_record_move(old(self)@, mv));
                }
                self.check_game_over();
            }
        }
        proof {
            assert(self@ =~~= spec_make_ai_move(old(self)@));
        }
    }

    /// Act on the cursor square: play a selected legal move (deferring
    /// promotions to the promotion menu) or change the selection. Ignored
    /// while the promotion menu is open.
    pub fn select_square(&mut self)
        requires
            old(self).board.halfmove_clock + 2 < u32::MAX,
            match old(self).ai {
                Some(ai) => 1 <= ai.depth <= 10000 && old(self).board@.fullmove + ai.depth + 2
                    < u32::MAX,
                None => old(self).board@.fullmove + 2 < u32::MAX,
            },
        ensures
            final(self)@ == spec_select_square(old(self)@),
    {
        if self.promotion_menu.is_some() {
            return;
        }

        if self.selected_piece.is_some() {
            if let Some(mv) = Self::find_move_to(&self.legal_moves, self.cursor) {
                if mv.piece.piece_type == PieceType::Pawn {
                    let promotion_row: usize = if mv.piece.color == Color::White {
                        0
                    } else {
                        7
                    };
                    if mv.to.row == promotion_row {
                        self.promotion_menu = Some(mv.to);
                        proof {
                            assert(self@ =~~= spec_select_square(old(self)@));
                        }
                        return;
                    }
                }
                self.execute_move(mv);
                return;
            }
            self.try_select_piece();
            return;
        }
        self.try_select_piece();
    }

    /// Resolve a deferred promotion with the chosen piece kind and play the
    /// move; nothing happens without a selection and an open menu.
    pub fn execute_promotion(&mut self, piece_type: PieceType)
        requires
            old(self).board.halfmove_clock + 2 < u32::MAX,
            match old(self).ai {
                Some(ai) => 1 <= ai.depth <= 10000 && old(self).board@.fullmove + ai.depth + 2
                    < u32::MAX,
                None => old(self).board@.fullmove + 2 < u32::MAX,
            },
        ensures
            final(self)@ == spec_execute_promotion(old(self)@, piece_type),
    {
        let sel = self.selected_piece;
        let promo = self.promotion_menu;
        if sel.is_some() {
            if let Some(promo_pos) = promo {
                if let Some(mv) = Self::find_move_to(&self.legal_moves, promo_pos) {
                    let promo_move = Move {
                        from: mv.from,
                        to: mv.to,
                        move_type: MoveType::Promotion(piece_type),
                        piece: mv.piece,
                        captured: mv.captured,
                    };
                    self.execute_move(promo_move);
                    self.promotion_menu = None;
                }
            }
        }
        proof {
            assert(self@ =~~= spec_execute_promotion(old(self)@, piece_type));
        }
    }

    /// Drop any selection and close the promotion menu.
    pub fn deselect(&mut self)
        ensures
            final(self)@ == (AppView {
                selected: None,
                legal: Seq::empty(),
                promo: None,
                ..old(self)@
            }),
    {
        self.selected_piece = None;
        self.legal_moves = Vec::new();
        self.promotion_menu = None;
    }

    /// Go back to the menu with its first entry highlighted.
    pub fn return_to_menu(&mut self)
        ensures
            final(self)@ == (AppView { mode: GameMode::Menu, menu_selection: 0, ..old(self)@ }),
    {
        self.mode = GameMode::Menu;
        self.menu_selection = 0;
    }

    /// Ask the program to exit.
    pub fn quit(&mut self)
        ensures
            final(self)@ == (AppView { quit: true, ..old(self)@ }),
    {
        self.should_quit = true;
    }
}

impl Default for App {
    /// A fresh program state, as `App::new` builds it.
    fn default() -> (r: App)
        ensures
            spec_is_initial(r@.board),
            r@.mode == GameMode::Menu,
            r@.selected is None,
            r@.ai is None,
            !r@.quit,
    {
        App::new()
    }
}

} // verus!
