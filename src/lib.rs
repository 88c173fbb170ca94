//! A chess engine core: board representation, legal move generation,
//! move application, position evaluation and an alpha-beta search.
pub mod action_rules;
pub mod actions;
pub mod board_state;
pub mod endgame_table_search;
pub mod evaluator;
pub mod fen;
pub mod laws;
pub mod minimax;
pub mod opening_tables;
pub mod player_action;
pub mod square_tables;
mod text;

pub use actions::{find_legal_actions, in_check, in_check_mate, Action, ActionType, GameEndState};
pub use board_state::{BoardPosition, BoardState, Capturable, Piece, PieceColor, PieceType};
