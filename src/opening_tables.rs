use vstd::prelude::*;

use crate::actions::{Action, ActionType};
use crate::action_rules::legal_action;
use crate::board_state::{BoardPosition, BoardState, BoardView};
use crate::evaluator::Evaluator;
use crate::fen::fen_text;
use crate::minimax::{find_best_move, SearchError, DEFAULT_DEPTH, ENDGAME_DEPTH};

verus! {

/// The opening book: canned replies to a few well-known early positions,
/// keyed by the exact board encoding of the position (move counters "0 1").
pub struct OpeningTables {
    pub entrys: Vec<(String, Action)>,
}

/// The simple move between two squares given by file and rank indices.
fn book_move(fx: u8, fy: u8, tx: u8, ty: u8) -> (r: Action)
    ensures
        r == (Action { action_type: ActionType::SimpleMove {
            from: BoardPosition { x: fx, y: fy },
            to: BoardPosition { x: tx, y: ty },
        } }),
{
    Action::new(ActionType::SimpleMove { from: BoardPosition::new(fx, fy), to: BoardPosition::new(tx, ty) })
}

impl OpeningTables {
    /// The book's entries.
    pub fn new() -> (r: OpeningTables)
        ensures
            r.entrys@.len() == 6,
            r.entrys@[0].0@ == "rnbqkbnr/pppppppp/8/8/4P3/8/PPPP1PPP/RNBQKBNR b KQkq e3 0 1"@,
            r.entrys@[0].1 == book_move_spec(4, 6, 4, 4),
            r.entrys@[1].0@ == "rnbqkbnr/pppp1ppp/8/4p3/4P3/5N2/PPPP1PPP/RNBQKB1R b KQkq - 0 1"@,
            r.entrys@[1].1 == book_move_spec(1, 7, 2, 5),
            r.entrys@[2].0@ == "r1bqkbnr/pppp1ppp/2n5/4p3/2B1P3/5N2/PPPP1PPP/RNBQK2R b KQkq - 0 1"@,
            r.entrys@[2].1 == book_move_spec(5, 7, 2, 4),
            r.entrys@[3].0@ == "r1bqkbnr/pppp1ppp/2n5/1B2p3/4P3/5N2/PPPP1PPP/RNBQK2R b KQkq - 0 1"@,
            r.entrys@[3].1 == book_move_spec(0, 6, 0, 5),
            r.entrys@[4].0@ == "rnbqkbnr/pppppppp/8/8/3P4/8/PPP1PPPP/RNBQKBNR b KQkq d3 0 1"@,
            r.entrys@[4].1 == book_move_spec(6, 7, 5, 5),
            r.entrys@[5].0@ == "rnbqkb1r/pppppppp/5n2/8/2PP4/8/PP2PPPP/RNBQKBNR b KQkq c3 0 1"@,
            r.entrys@[5].1 == book_move_spec(4, 6, 4, 5),
            forall|i: int, j: int| 0 <= i < j < r.entrys@.len() ==> #[trigger] r.entrys@[i].0@ != #[trigger] r.entrys@[j].0@,
    {
        let mut entrys: Vec<(String, Action)> = Vec::new();
        // King's pawn opening: e5
        entrys.push((String::from_str("rnbqkbnr/pppppppp/8/8/4P3/8/PPPP1PPP/RNBQKBNR b KQkq e3 0 1"), book_move(4, 6, 4, 4)));
        // King's pawn opening, king's knight: Nc6
        entrys.push((String::from_str("rnbqkbnr/pppp1ppp/8/4p3/4P3/5N2/PPPP1PPP/RNBQKB1R b KQkq - 0 1"), book_move(1, 7, 2, 5)));
        // Giuoco Piano
        entrys.push((String::from_str("r1bqkbnr/pppp1ppp/2n5/4p3/2B1P3/5N2/PPPP1PPP/RNBQK2R b KQkq - 0 1"), book_move(5, 7, 2, 4)));
        // Ruy Lopez, Morphy defence
        entrys.push((String::from_str("r1bqkbnr/pppp1ppp/2n5/1B2p3/4P3/5N2/PPPP1PPP/RNBQK2R b KQkq - 0 1"), book_move(0, 6, 0, 5)));
        // Indian game
        entrys.push((String::from_str("rnbqkbnr/pppppppp/8/8/3P4/8/PPP1PPPP/RNBQKBNR b KQkq d3 0 1"), book_move(6, 7, 5, 5)));
        // Indian game, East Indian defence
        entrys.push((String::from_str("rnbqkb1r/pppppppp/5n2/8/2PP4/8/PP2PPPP/RNBQKBNR b KQkq c3 0 1"), book_move(4, 6, 4, 5)));
        proof {
            reveal_strlit("rnbqkbnr/pppppppp/8/8/4P3/8/PPPP1PPP/RNBQKBNR b KQkq e3 0 1");
            reveal_strlit("rnbqkbnr/pppp1ppp/8/4p3/4P3/5N2/PPPP1PPP/RNBQKB1R b KQkq - 0 1");
            reveal_strlit("r1bqkbnr/pppp1ppp/2n5/4p3/2B1P3/5N2/PPPP1PPP/RNBQK2R b KQkq - 0 1");
            reveal_strlit("r1bqkbnr/pppp1ppp/2n5/1B2p3/4P3/5N2/PPPP1PPP/RNBQK2R b KQkq - 0 1");
            reveal_strlit("rnbqkbnr/pppppppp/8/8/3P4/8/PPP1PPPP/RNBQKBNR b KQkq d3 0 1");
            reveal_strlit("rnbqkb1r/pppppppp/5n2/8/2PP4/8/PP2PPPP/RNBQKBNR b KQkq c3 0 1");
            assert(entrys@[0].0@[13] != entrys@[1].0@[13]);
            assert(entrys@[0].0@[1] != entrys@[2].0@[1]);
            assert(entrys@[0].0@[1] != entrys@[3].0@[1]);
            assert(entrys@[0].0@[22] != entrys@[4].0@[22]);
            assert(entrys@[0].0@[6] != entrys@[5].0@[6]);
            assert(entrys@[1].0@[1] != entrys@[2].0@[1]);
            assert(entrys@[1].0@[1] != entrys@[3].0@[1]);
            assert(entrys@[1].0@[13] != entrys@[4].0@[13]);
            assert(entrys@[1].0@[6] != entrys@[5].0@[6]);
            assert(entrys@[2].0@[22] != entrys@[3].0@[22]);
            assert(entrys@[2].0@[1] != entrys@[4].0@[1]);
            assert(entrys@[2].0@[1] != entrys@[5].0@[1]);
            assert(entrys@[3].0@[1] != entrys@[4].0@[1]);
            assert(entrys@[3].0@[1] != entrys@[5].0@[1]);
            assert(entrys@[4].0@[6] != entrys@[5].0@[6]);
        }
        OpeningTables { entrys }
    }

    /// The book's reply to `board_state`: the move of the first entry whose
    /// encoding is exactly that of the position, if any.
    pub fn try_find_move(&self, board_state: &BoardState) -> (r: Option<Action>)
        ensures
            r is Some <==> exists|i: int| 0 <= i < self.entrys@.len() && #[trigger] self.entrys@[i].0@ == fen_text(board_state@),
            r matches Some(a) ==> exists|i: int| 0 <= i < self.entrys@.len() && #[trigger] self.entrys@[i].0@ == fen_text(board_state@)
                && self.entrys@[i].1 == a,
    {
        let key = board_state.to_fen();
        let mut i: usize = 0;
        while i < self.entrys.len()
            invariant
                key@ == fen_text(board_state@),
                0 <= i <= self.entrys@.len(),
                forall|j: int| 0 <= j < i ==> #[trigger] self.entrys@[j].0@ != fen_text(board_state@),
            decreases self.entrys.len() - i,
        {
            if self.entrys[i].0 == key {
                return Some(self.entrys[i].1);
            }
            i += 1;
        }
        None
    }
}

/// The simple move between two squares given by file and rank indices.
pub open spec fn book_move_spec(fx: u8, fy: u8, tx: u8, ty: u8) -> Action {
    Action { action_type: ActionType::SimpleMove { from: BoardPosition { x: fx, y: fy }, to: BoardPosition { x: tx, y: ty } } }
}

/// The depth `depth_for` gives.
pub open spec fn depth_for_spec(in_endgame: bool) -> u8 {
    if in_endgame {
        ENDGAME_DEPTH
    } else {
        DEFAULT_DEPTH
    }
}

/// The search depth that follows from whether the endgame tables know the
/// position: shallow when they do, since they supply the play beyond it;
/// deep otherwise.
pub fn depth_for(in_endgame: bool) -> (r: u8)
    ensures
        r == depth_for_spec(in_endgame),
{
    if in_endgame {
        ENDGAME_DEPTH
    } else {
        DEFAULT_DEPTH
    }
}

/// The search depth for `board_state`, from the endgame tables' answer (which
/// depends on the table files loaded).
pub fn search_depth(evaluator: &Evaluator, board_state: &BoardState) -> (r: u8)
    ensures
        r == depth_for_spec(true) || r == depth_for_spec(false),
{
    let in_endgame = evaluator.is_in_endgame(board_state);
    depth_for(in_endgame)
}

/// The engine's move for Black: the book's reply when the position is in the
/// book, else the result of a search to the depth `search_depth` picks.
pub fn find_engine_move(evaluator: &Evaluator, book: &OpeningTables, board_state: &BoardState) -> (r: Result<Action, SearchError>)
    ensures
        !book.holds(board_state@) ==> (r is Err <==> (forall|a: Action|
            !#[trigger] legal_action(board_state@, a))),
        !book.holds(board_state@) ==> (r matches Ok(a) ==> legal_action(board_state@, a)),
        book.holds(board_state@) ==> r is Ok,
        book.holds(board_state@) ==> (r matches Ok(a) ==> exists|i: int| 0 <= i < book.entrys@.len()
            && #[trigger] book.entrys@[i].0@ == fen_text(board_state@) && book.entrys@[i].1 == a),
{
    match book.try_find_move(board_state) {
        Some(a) => Ok(a),
        None => find_best_move(evaluator, board_state, search_depth(evaluator, board_state)),
    }
}

impl OpeningTables {
    /// The book holds the encoding of `b`.
    pub open spec fn holds(&self, b: BoardView) -> bool {
        exists|i: int| 0 <= i < self.entrys@.len() && #[trigger] self.entrys@[i].0@ == fen_text(b)
    }
}

} // verus!
