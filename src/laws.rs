//! Properties that relate the move generator, the move applier and check detection.
use vstd::prelude::*;

use crate::action_rules::{
    castle_action, castle_path_empty, move_lands_on, castle_squares_attacked, candidate_action, king_attacked, legal_action,
};
use crate::actions::{game_end, is_double_step, play, playable, Action, ActionType, GameEndState};
use crate::board_state::{in_bounds, BoardPosition, BoardState, BoardView, PieceColor, Piece, PieceType};
use crate::evaluator::{checkmate_score, heuristic_score};

verus! {

/// A legal move never leaves the mover's own king attacked: once it is applied,
/// the king of the color that moved is not in check.
pub proof fn lemma_legal_move_keeps_king_safe(board_state: BoardState, a: Action)
    requires
        legal_action(board_state@, a),
    ensures
        !king_attacked(play(board_state@, a.action_type), board_state@.turn),
{
}

/// A legal pawn move that reaches the last rank leaves a queen of the mover's
/// color on its target square, never a pawn.
pub proof fn lemma_promotion_makes_queen(board_state: BoardState, from: BoardPosition, to: BoardPosition)
    requires
        legal_action(board_state@, Action { action_type: ActionType::SimpleMove { from, to } }),
        board_state@.at(from) == Some(Piece { piece_type: PieceType::Pawn, color: board_state@.turn }),
        to.y == 0 || to.y == 7,
    ensures
        play(board_state@, ActionType::SimpleMove { from, to }).at(to)
            == Some(Piece { piece_type: PieceType::Queen, color: board_state@.turn }),
{
}

/// King's-side castling is offered when the right is kept, the two squares
/// between king and rook are empty and neither the king's square nor the one
/// it passes is attacked; it is legal when the king does not land in check.
/// Applied, it puts the king two files towards the rook and the rook beside
/// it on the far side, and empties both starting squares.
pub proof fn lemma_kings_side_castling(board_state: BoardState)
    requires
        board_state@.castle_right(board_state@.turn, true),
        castle_path_empty(board_state@, true),
        !castle_squares_attacked(board_state@, true),
    ensures
        candidate_action(board_state@, Action { action_type: ActionType::Castling { kings_side: true } }),
        !king_attacked(play(board_state@, ActionType::Castling { kings_side: true }), board_state@.turn)
            ==> legal_action(board_state@, Action { action_type: ActionType::Castling { kings_side: true } }),
        ({
            let after = play(board_state@, ActionType::Castling { kings_side: true });
            let r = board_state@.turn.home_rank();
            &&& after.cell(6, r) == Some(Piece { piece_type: PieceType::King, color: board_state@.turn })
            &&& after.cell(5, r) == Some(Piece { piece_type: PieceType::Rook, color: board_state@.turn })
            &&& after.cell(4, r) is None
            &&& after.cell(7, r) is None
        }),
{
    assert(castle_action(board_state@, Action { action_type: ActionType::Castling { kings_side: true } }));
}

/// Castling is never legal while the king's square or a square it passes
/// through is attacked, whatever holds of the square it lands on.
pub proof fn lemma_castling_through_attack_denied(board_state: BoardState, kings_side: bool)
    requires
        castle_squares_attacked(board_state@, kings_side),
    ensures
        !legal_action(board_state@, Action { action_type: ActionType::Castling { kings_side } }),
{
}

/// With no legal move, the side to move has lost when it is in check
/// (checkmate) and the game is drawn otherwise (stalemate).
pub proof fn lemma_game_end_without_moves(board_state: BoardState)
    requires
        forall|a: Action| !#[trigger] legal_action(board_state@, a),
    ensures
        king_attacked(board_state@, board_state@.turn)
            ==> game_end(board_state@) == Some(GameEndState::Win(board_state@.turn.opposite())),
        !king_attacked(board_state@, board_state@.turn) ==> game_end(board_state@) == Some(GameEndState::Draw),
{
}

/// Castling rights only ever decrease: no move gives a right back.
pub proof fn lemma_castling_rights_never_return(board_state: BoardState, a: ActionType, color: PieceColor, kings_side: bool)
    requires
        playable(board_state@, a),
    ensures
        play(board_state@, a).castle_right(color, kings_side) ==> board_state@.castle_right(color, kings_side),
{
}

/// After any move, an en-passant file is set only when that move was a
/// pawn's two-square advance, and it is the file the pawn advanced on.
pub proof fn lemma_en_passant_only_after_double_step(board_state: BoardState, a: ActionType)
    requires
        playable(board_state@, a),
        play(board_state@, a).en_passant is Some,
    ensures
        a matches ActionType::SimpleMove { from, to } && is_double_step(from, to)
            && board_state@.at(from).unwrap().piece_type == PieceType::Pawn
            && play(board_state@, a).en_passant == Some(to.x as int),
{
}


/// A nearer mate scores strictly better for the winner than a farther one, and
/// any mate found within 255 plies outranks every heuristic score.
pub proof fn lemma_mate_scores_ordered(color: PieceColor, near: int, far: int, b: BoardView)
    requires
        0 <= near < far <= 255,
    ensures
        color == PieceColor::Black ==> checkmate_score(color, near) > checkmate_score(color, far),
        color == PieceColor::White ==> checkmate_score(color, near) < checkmate_score(color, far),
        checkmate_score(PieceColor::Black, far) > heuristic_score(b),
        checkmate_score(PieceColor::White, far) < heuristic_score(b),
{
}


/// With the king on its starting square as the only king of its color, the
/// right kept, the two squares between king and rook empty, and none of the
/// king's square, the square it passes and the square it lands on attacked by
/// the opponent, king's-side castling is legal.
pub proof fn lemma_kings_side_castling_legal(board_state: BoardState)
    requires
        board_state@.castle_right(board_state@.turn, true),
        castle_path_empty(board_state@, true),
        !castle_squares_attacked(board_state@, true),
        board_state@.cell(4, board_state@.turn.home_rank())
            == Some(Piece { piece_type: PieceType::King, color: board_state@.turn }),
        forall|x: int, y: int| in_bounds(x, y) && !(x == 4 && y == board_state@.turn.home_rank())
            ==> #[trigger] board_state@.cell(x, y) != Some(Piece { piece_type: PieceType::King, color: board_state@.turn }),
        !move_lands_on(play(board_state@, ActionType::Castling { kings_side: true }).with_turn(board_state@.turn.opposite()),
            6, board_state@.turn.home_rank()),
    ensures
        legal_action(board_state@, Action { action_type: ActionType::Castling { kings_side: true } }),
{
    let b = board_state@;
    let c = b.turn;
    let r = c.home_rank();
    let after = play(b, ActionType::Castling { kings_side: true });
    assert(castle_action(b, Action { action_type: ActionType::Castling { kings_side: true } }));
    assert(!king_attacked(after, c)) by {
        if king_attacked(after, c) {
            let (x, y) = choose|x: int, y: int| in_bounds(x, y)
                && #[trigger] after.cell(x, y) == Some(Piece { piece_type: PieceType::King, color: c })
                && move_lands_on(after.with_turn(c.opposite()), x, y);
            if !(x == 6 && y == r) {
                assert(after.cell(x, y) == b.cell(x, y) || (x == 4 && y == r) || (x == 5 && y == r) || (x == 7 && y == r));
            }
        }
    }
}

} // verus!
