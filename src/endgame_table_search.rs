use vstd::prelude::*;

use shakmaty::fen::Fen;
use shakmaty::{CastlingMode, Chess};
use shakmaty_syzygy::{Tablebase, Wdl};

use crate::actions::GameEndState;
use crate::board_state::{BoardState, BoardView, PieceColor};
use crate::evaluator::{dtz_score, score_for_distance, Score};
use crate::fen::fen_text;

verus! {

#[verifier::external_type_specification]
#[verifier::external_body]
pub struct ExChess(Chess);

/// Loaded endgame table files: an opaque handle on the shakmaty-syzygy
/// collection, which only the wrappers below touch.
#[verifier::external_body]
pub struct TableFiles {
    tables: Tablebase<Chess>,
}

/// Relies on shakmaty-syzygy's `Tablebase::new`: an empty collection of tables.
#[verifier::external_body]
fn empty_tables() -> TableFiles {
    TableFiles { tables: Tablebase::new() }
}

/// Relies on shakmaty-syzygy's `Tablebase::add_directory`: adds the table files
/// found in the directory `dir`; gives how many, or `None` on an I/O error.
#[verifier::external_body]
fn add_table_directory(files: &mut TableFiles, dir: &str) -> Option<usize> {
    files.tables.add_directory(dir).ok()
}

/// The class of a tablebase position from the point of view of the side to move.
#[derive(Copy, Clone, PartialEq, Eq, Structural, Debug)]
pub enum TableWdl {
    Loss,
    BlessedLoss,
    Draw,
    CursedWin,
    Win,
}

#[verifier::external_type_specification]
#[verifier::external_body]
pub struct ExFen(Fen);

/// Relies on shakmaty's `Fen::from_ascii`: reads board-encoding text, `None`
/// where the text is refused.
#[verifier::external_body]
fn read_fen(text: &str) -> Option<Fen> {
    Fen::from_ascii(text.as_bytes()).ok()
}

/// Relies on shakmaty's `Fen::into_position` (standard castling): the chess
/// position that a parsed encoding sets up, `None` where it is not a legal one.
#[verifier::external_body]
fn fen_position(fen: Fen) -> Option<Chess> {
    fen.into_position(CastlingMode::Standard).ok()
}

/// Relies on shakmaty-syzygy's `Tablebase::probe_wdl_after_zeroing`: the class
/// of the position as the table files on disk give it, `None` where they have
/// no data for it.
#[verifier::external_body]
fn probe_wdl(files: &TableFiles, pos: &Chess) -> (r: Option<TableWdl>) {
    match files.tables.probe_wdl_after_zeroing(pos) {
        Ok(Wdl::Loss) => Some(TableWdl::Loss),
        Ok(Wdl::BlessedLoss) => Some(TableWdl::BlessedLoss),
        Ok(Wdl::Draw) => Some(TableWdl::Draw),
        Ok(Wdl::CursedWin) => Some(TableWdl::CursedWin),
        Ok(Wdl::Win) => Some(TableWdl::Win),
        Err(_) => None,
    }
}

/// Relies on shakmaty-syzygy's `Tablebase::probe_dtz` and
/// `MaybeRounded::ignore_rounding`: the distance to zeroing of the position as
/// the table files on disk give it, `None` where they have no data for it.
#[verifier::external_body]
fn probe_dtz(files: &TableFiles, pos: &Chess) -> (r: Option<i32>) {
    match files.tables.probe_dtz(pos) {
        Ok(dtz) => Some(dtz.ignore_rounding().0),
        Err(_) => None,
    }
}

/// The game result that a table class announces when `turn` is to move.
pub open spec fn table_outcome(w: TableWdl, turn: PieceColor) -> GameEndState {
    match w {
        TableWdl::Draw => GameEndState::Draw,
        TableWdl::Win | TableWdl::CursedWin => GameEndState::Win(turn),
        TableWdl::Loss | TableWdl::BlessedLoss => GameEndState::Win(turn.opposite()),
    }
}

/// `b` without castling rights, as the endgame tables are consulted with.
pub open spec fn without_castling(b: BoardView) -> BoardView {
    BoardView {
        white_king_castle: false,
        white_queen_castle: false,
        black_king_castle: false,
        black_queen_castle: false,
        ..b
    }
}

/// The game result that a table class announces when `turn` is to move.
pub fn outcome_of_class(w: TableWdl, turn: PieceColor) -> (r: GameEndState)
    ensures
        r == table_outcome(w, turn),
{
    match w {
        TableWdl::Draw => GameEndState::Draw,
        TableWdl::Win | TableWdl::CursedWin => GameEndState::Win(turn),
        TableWdl::Loss | TableWdl::BlessedLoss => GameEndState::Win(turn.opposite_color()),
    }
}

/// The board encoding handed to the endgame tables, castling rights left out.
pub fn table_fen(board_state: &BoardState) -> (r: String)
    ensures
        r@ == fen_text(without_castling(board_state@)),
{
    let mut plain = *board_state;
    plain.white_king_castle = false;
    plain.white_queen_castle = false;
    plain.black_king_castle = false;
    plain.black_queen_castle = false;
    assert(plain@ == without_castling(board_state@));
    plain.to_fen()
}

/// Endgame tables: exact results for positions with few pieces.
pub struct EndgameTableSearcher {
    tables: TableFiles,
}

impl EndgameTableSearcher {
    /// Loads the tables found in the directory `dir`; `None` when it cannot be read.
    pub fn new(dir: &str) -> Option<EndgameTableSearcher> {
        let mut tables = empty_tables();
        match add_table_directory(&mut tables, dir) {
            Some(_) => Some(EndgameTableSearcher { tables }),
            None => None,
        }
    }

    /// A searcher with no tables: every lookup misses.
    pub fn without_tables() -> EndgameTableSearcher {
        EndgameTableSearcher { tables: empty_tables() }
    }

    fn get_shakmaty_state(&self, board_state: &BoardState) -> Option<Chess> {
        let text = table_fen(board_state);
        match read_fen(text.as_str()) {
            Some(fen) => fen_position(fen),
            None => None,
        }
    }

    /// The result that the tables announce for the position, if they know it.
    pub fn win_loss_check(&self, board_state: &BoardState) -> (r: Option<GameEndState>)
        ensures
            r matches Some(e) ==> exists|w: TableWdl| e == table_outcome(w, board_state@.turn),
    {
        match self.get_shakmaty_state(board_state) {
            None => None,
            Some(pos) => match probe_wdl(&self.tables, &pos) {
                Some(w) => Some(outcome_of_class(w, board_state.color_turn)),
                None => None,
            },
        }
    }

    /// The distance to zeroing that the tables give for the position, if they know it.
    pub fn distance_to_zero(&self, board_state: &BoardState) -> Option<i32> {
        match self.get_shakmaty_state(board_state) {
            None => None,
            Some(pos) => probe_dtz(&self.tables, &pos),
        }
    }

    /// The score of the position from the tables' distance to zeroing, if they know it.
    pub fn evaluate_state(&self, board_state: &BoardState) -> (r: Option<Score>)
        ensures
            r matches Some(s) ==> exists|d: i32| s as int == dtz_score(d as int, board_state@.turn),
    {
        match self.distance_to_zero(board_state) {
            Some(d) => Some(score_for_distance(d, board_state.color_turn)),
            None => None,
        }
    }
}

} // verus!
