use vstd::prelude::*;

use crate::actions::{Action, ActionType};
use crate::board_state::{BoardPosition, PieceColor};

verus! {

/// The square a player clicks first to make `action`: the moving piece's
/// square, or the king's square for castling.
pub open spec fn click_from(action: Action, color: PieceColor) -> BoardPosition {
    match action.action_type {
        ActionType::SimpleMove { from, .. } => from,
        ActionType::EnPassant { from, .. } => from,
        ActionType::Castling { .. } => BoardPosition { x: 4, y: color.home_rank() as u8 },
    }
}

/// The square a player clicks second to make `action`: the target square, or
/// the king's landing square for castling.
pub open spec fn click_to(action: Action, color: PieceColor) -> BoardPosition {
    match action.action_type {
        ActionType::SimpleMove { to, .. } => to,
        ActionType::EnPassant { to, .. } => to,
        ActionType::Castling { kings_side } => BoardPosition {
            x: if kings_side { 6 } else { 2 },
            y: color.home_rank() as u8,
        },
    }
}

/// A move together with the two squares a player clicks to make it.
#[derive(Copy, Clone, PartialEq, Eq, Structural, Debug)]
pub struct PlayerAction {
    pub this_action: Action,
    pub from: BoardPosition,
    pub to: BoardPosition,
}

impl PlayerAction {
    pub fn new(action: Action, color: PieceColor) -> (r: PlayerAction)
        ensures
            r.this_action == action,
            r.from == click_from(action, color),
            r.to == click_to(action, color),
    {
        PlayerAction {
            this_action: action,
            from: PlayerAction::find_from(action, color),
            to: PlayerAction::find_to(action, color),
        }
    }

    fn find_from(action: Action, color: PieceColor) -> (r: BoardPosition)
        ensures
            r == click_from(action, color),
    {
        match action.get_action_type() {
            ActionType::SimpleMove { from, .. } => from,
            ActionType::Castling { .. } => match color {
                PieceColor::White => BoardPosition::new(4, 0),
                PieceColor::Black => BoardPosition::new(4, 7),
            },
            ActionType::EnPassant { from, .. } => from,
        }
    }

    fn find_to(action: Action, color: PieceColor) -> (r: BoardPosition)
        ensures
            r == click_to(action, color),
    {
        match action.get_action_type() {
            ActionType::SimpleMove { to, .. } => to,
            ActionType::Castling { kings_side } => {
                let rank: u8 = match color {
                    PieceColor::White => 0,
                    PieceColor::Black => 7,
                };
                if kings_side {
                    BoardPosition::new(6, rank)
                } else {
                    BoardPosition::new(2, rank)
                }
            },
            ActionType::EnPassant { to, .. } => to,
        }
    }
}

} // verus!
