use vstd::prelude::*;

use crate::action_rules::{
    candidate_action, color_in_check, king_attacked, king_in_check, lemma_extend_no_duplicates, legal_action, push_pseudo_actions, safe_action,
    CastlingActions, RemoveIllegalActions, RemoveUnsafeActions,
};
use crate::board_state::{BoardPosition, BoardState, BoardView, Piece, PieceColor, PieceType};

verus! {

/// A move, as a tagged union of its three shapes.
#[derive(Copy, Clone, PartialEq, Eq, Structural, Debug)]
pub enum ActionType {
    /// Relocates the piece on `from` to `to`, capturing what stood there.
    SimpleMove { from: BoardPosition, to: BoardPosition },
    /// Castles the side to move towards the king's side or the queen's side.
    Castling { kings_side: bool },
    /// A pawn on `from` captures en passant, landing on `to`.
    EnPassant { from: BoardPosition, to: BoardPosition },
}

#[derive(Copy, Clone, PartialEq, Eq, Structural, Debug)]
pub struct Action {
    pub action_type: ActionType,
}

/// The castling rights of `b` once a `piece` has left the square `from`:
/// a king gives up both rights of its color, a rook leaving its original
/// corner gives up the right of that corner.
pub open spec fn rights_after_leaving(b: BoardView, piece: Piece, from: BoardPosition) -> BoardView {
    let c = piece.color;
    let home = c.home_rank();
    if piece.piece_type == PieceType::King {
        match c {
            PieceColor::White => BoardView { white_king_castle: false, white_queen_castle: false, ..b },
            PieceColor::Black => BoardView { black_king_castle: false, black_queen_castle: false, ..b },
        }
    } else if piece.piece_type == PieceType::Rook && from.y as int == home && from.x == 0 {
        match c {
            PieceColor::White => BoardView { white_queen_castle: false, ..b },
            PieceColor::Black => BoardView { black_queen_castle: false, ..b },
        }
    } else if piece.piece_type == PieceType::Rook && from.y as int == home && from.x == 7 {
        match c {
            PieceColor::White => BoardView { white_king_castle: false, ..b },
            PieceColor::Black => BoardView { black_king_castle: false, ..b },
        }
    } else {
        b
    }
}

/// True when a pawn goes from `from` to `to` by a two-square advance from its starting rank.
pub open spec fn is_double_step(from: BoardPosition, to: BoardPosition) -> bool {
    (from.y == 1 && to.y == 3) || (from.y == 6 && to.y == 4)
}

/// What `a` may be applied to: its squares lie on the board and a simple move
/// starts from an occupied square.
pub open spec fn playable(b: BoardView, a: ActionType) -> bool {
    match a {
        ActionType::SimpleMove { from, to } => from.valid() && to.valid() && b.at(from) is Some,
        ActionType::EnPassant { from, to } => from.valid() && to.valid(),
        ActionType::Castling { .. } => true,
    }
}

/// The position after `a` is applied to `b`: the en-passant file is cleared,
/// the turn passes, and the board changes as the move's shape says. Castling
/// moves the king off its square, so the mover loses both castling rights.
pub open spec fn play(b: BoardView, a: ActionType) -> BoardView {
    let c = b.turn;
    let base = BoardView { en_passant: None, turn: c.opposite(), ..b };
    match a {
        ActionType::SimpleMove { from, to } => {
            let piece = b.at(from).unwrap();
            let pawn = piece.piece_type == PieceType::Pawn;
            let double = pawn && is_double_step(from, to);
            let placed = if pawn && !double && (to.y == 0 || to.y == 7) {
                Piece { piece_type: PieceType::Queen, color: piece.color }
            } else {
                piece
            };
            let rights = rights_after_leaving(base, piece, from);
            let ep = if double { Some(to.x as int) } else { None };
            BoardView { en_passant: ep, ..rights }
                .set(from.x as int, from.y as int, None)
                .set(to.x as int, to.y as int, Some(placed))
        },
        ActionType::Castling { kings_side } => {
            let r = c.home_rank();
            let king = Some(Piece { piece_type: PieceType::King, color: c });
            let rook = Some(Piece { piece_type: PieceType::Rook, color: c });
            let moved = rights_after_leaving(base, Piece { piece_type: PieceType::King, color: c }, BoardPosition { x: 4, y: r as u8 });
            if kings_side {
                moved.set(4, r, None).set(7, r, None).set(5, r, rook).set(6, r, king)
            } else {
                moved.set(4, r, None).set(0, r, None).set(3, r, rook).set(2, r, king)
            }
        },
        ActionType::EnPassant { from, to } => {
            base.set(to.x as int, to.y as int, Some(Piece { piece_type: PieceType::Pawn, color: c }))
                .set(from.x as int, from.y as int, None)
                .set(to.x as int, from.y as int, None)
        },
    }
}

impl Action {
    pub fn new(action_type: ActionType) -> (r: Action)
        ensures
            r.action_type == action_type,
    {
        Action { action_type }
    }

    /// Applies this move to `board_state`. No legality check is made here.
    pub fn play_move(&self, board_state: &mut BoardState)
        requires
            playable(old(board_state)@, self.action_type),
        ensures
            final(board_state)@ == play(old(board_state)@, self.action_type),
    {
        board_state.en_passant_colunm = crate::board_state::NO_EN_PASSANT;
        let color = board_state.color_turn;
        board_state.color_turn = color.opposite_color();
        match self.action_type {
            ActionType::SimpleMove { from, to } => {
                let piece = board_state.get(from).unwrap();
                board_state.set(from, None);
                let mut placed = piece;
                match piece.piece_type {
                    PieceType::Pawn => {
                        if (from.y == 1 && to.y == 3) || (from.y == 6 && to.y == 4) {
                            board_state.en_passant_colunm = to.x;
                        } else if to.y == 0 || to.y == 7 {
                            placed = Piece::new(piece.color, PieceType::Queen);
                        }
                    },
                    PieceType::King => {
                        match piece.color {
                            PieceColor::White => {
                                board_state.white_king_castle = false;
                                board_state.white_queen_castle = false;
                            },
                            PieceColor::Black => {
                                board_state.black_king_castle = false;
                                board_state.black_queen_castle = false;
                            },
                        }
                    },
                    PieceType::Rook => {
                        let home: u8 = match piece.color {
                            PieceColor::White => 0,
                            PieceColor::Black => 7,
                        };
                        if from.y == home && from.x == 0 {
                            match piece.color {
                                PieceColor::White => board_state.white_queen_castle = false,
                                PieceColor::Black => board_state.black_queen_castle = false,
                            }
                        } else if from.y == home && from.x == 7 {
                            match piece.color {
                                PieceColor::White => board_state.white_king_castle = false,
                                PieceColor::Black => board_state.black_king_castle = false,
                            }
                        }
                    },
                    _ => {},
                }
                board_state.set(to, Some(placed));
            },
            ActionType::Castling { kings_side } => {
                let r: u8 = match color {
                    PieceColor::White => 0,
                    PieceColor::Black => 7,
                };
                match color {
                    PieceColor::White => {
                        board_state.white_king_castle = false;
                        board_state.white_queen_castle = false;
                    },
                    PieceColor::Black => {
                        board_state.black_king_castle = false;
                        board_state.black_queen_castle = false;
                    },
                }
                board_state.set(BoardPosition::new(4, r), None);
                if kings_side {
                    board_state.set(BoardPosition::new(7, r), None);
                    board_state.set(BoardPosition::new(5, r), Some(Piece::new(color, PieceType::Rook)));
                    board_state.set(BoardPosition::new(6, r), Some(Piece::new(color, PieceType::King)));
                } else {
                    board_state.set(BoardPosition::new(0, r), None);
                    board_state.set(BoardPosition::new(3, r), Some(Piece::new(color, PieceType::Rook)));
                    board_state.set(BoardPosition::new(2, r), Some(Piece::new(color, PieceType::King)));
                }
            },
            ActionType::EnPassant { from, to } => {
                board_state.set(to, Some(Piece::new(color, PieceType::Pawn)));
                board_state.set(from, None);
                board_state.set(BoardPosition::new(to.x, from.y), None);
            },
        }
    }

    pub fn get_action_type(&self) -> (r: ActionType)
        ensures
            r == self.action_type,
    {
        self.action_type
    }
}


/// How a game ends when the side to move has no legal move.
#[derive(Copy, Clone, PartialEq, Eq, Structural, Debug)]
pub enum GameEndState {
    Draw,
    Win(PieceColor),
}

/// The game-end state of `b`: none while the side to move has a legal move;
/// otherwise a win for the opponent when the side to move is in check
/// (checkmate), else a draw (stalemate).
pub open spec fn game_end(b: BoardView) -> Option<GameEndState> {
    if exists|a: Action| #[trigger] legal_action(b, a) {
        None
    } else if king_attacked(b, b.turn) {
        Some(GameEndState::Win(b.turn.opposite()))
    } else {
        Some(GameEndState::Draw)
    }
}

/// The legal moves of the side to move (only the safe ones when `only_safe`),
/// and the game-end state, which is computed over all legal moves.
pub fn find_legal_actions(board_state: &BoardState, only_safe: bool) -> (r: (Vec<Action>, Option<GameEndState>))
    ensures
        forall|a: Action| #[trigger] r.0@.contains(a) <==> (legal_action(board_state@, a)
            && (only_safe ==> safe_action(board_state@, a))),
        r.1 == game_end(board_state@),
        r.0@.no_duplicates(),
{
    let ghost b = board_state@;
    let mut actions: Vec<Action> = Vec::with_capacity(35);
    push_pseudo_actions(board_state, &mut actions);
    let ghost pseudo = actions@;
    CastlingActions::update_actions(board_state, &mut actions);
    proof {
        lemma_extend_no_duplicates(pseudo, actions@);
    }
    assert forall|a: Action| #[trigger] actions@.contains(a) <==> candidate_action(b, a) by {}
    RemoveIllegalActions::update_actions(board_state, &mut actions);
    let end = if actions.len() == 0 {
        assert forall|a: Action| !legal_action(b, a) by {
            if legal_action(b, a) {
                assert(actions@.contains(a));
            }
        }
        if king_in_check(board_state, board_state.color_turn) {
            Some(GameEndState::Win(board_state.color_turn.opposite_color()))
        } else {
            Some(GameEndState::Draw)
        }
    } else {
        assert(actions@.contains(actions@[0]));
        assert(legal_action(b, actions@[0]));
        None
    };
    if only_safe {
        RemoveUnsafeActions::update_actions(board_state, &mut actions);
    }
    (actions, end)
}

/// True when the side to move is in check.
pub fn in_check(board_state: &BoardState) -> (r: bool)
    requires
        board_state@.has_king(board_state.color_turn),
    ensures
        r == king_attacked(board_state@, board_state@.turn),
{
    color_in_check(board_state, board_state.color_turn)
}

/// True when the side to move is checkmated: it has no legal move and is in check.
pub fn in_check_mate(board_state: &BoardState) -> (r: bool)
    requires
        board_state@.has_king(board_state.color_turn),
    ensures
        r == (game_end(board_state@) == Some(GameEndState::Win(board_state@.turn.opposite()))),
        r == ((forall|a: Action| !#[trigger] legal_action(board_state@, a)) && king_attacked(board_state@, board_state@.turn)),
{
    let (actions, end) = find_legal_actions(board_state, false);
    match end {
        Some(GameEndState::Win(_)) => true,
        _ => false,
    }
}

} // verus!
