use vstd::prelude::*;

use crate::actions::{find_legal_actions, game_end, GameEndState};
use crate::board_state::{BoardPosition, BoardState, BoardView, Piece, PieceColor, PieceType};
use crate::endgame_table_search::EndgameTableSearcher;
use crate::square_tables::{
    bishop_bonus, bishop_table, king_bonus, king_table, knight_bonus, knight_table, pawn_bonus, pawn_table,
    queen_bonus, queen_table, rook_bonus, rook_table,
};

verus! {

/// A position's score: positive favours Black, negative favours White, 0 is a draw.
/// `Score::MIN` and `Score::MAX` stand for a certain win of White and of Black.
pub type Score = i16;

/// The heuristic score is kept within this bound, clear of the mate scores.
pub const HEURISTIC_LIMIT: i32 = 30000;

/// How many moves ahead the evaluator places a mate it finds without searching.
pub const UNKNOWN_MATE_DISTANCE: u8 = 100;

/// Endgame-table lookups are made below this number of pieces.
pub const ENDGAME_PIECES: u8 = 6;

/// Material value of a piece kind.
pub open spec fn piece_value(t: PieceType) -> int {
    match t {
        PieceType::Pawn => 100,
        PieceType::Knight => 320,
        PieceType::Bishop => 330,
        PieceType::Rook => 500,
        PieceType::Queen => 900,
        PieceType::King => 0,
    }
}

/// Piece-square bonus of a kind on row `row` (from Black's side) and column `col`.
pub open spec fn table_bonus(t: PieceType, row: int, col: int) -> int {
    let i = row * 8 + col;
    match t {
        PieceType::Pawn => pawn_table()[i],
        PieceType::Knight => knight_table()[i],
        PieceType::Bishop => bishop_table()[i],
        PieceType::Rook => rook_table()[i],
        PieceType::Queen => queen_table()[i],
        PieceType::King => king_table()[i],
    }
}

/// What the piece on (x, y) adds to the score: material plus its table bonus,
/// positive for Black; White reads its tables mirrored vertically.
pub open spec fn square_score(b: BoardView, x: int, y: int) -> int {
    match b.cell(x, y) {
        None => 0,
        Some(p) => match p.color {
            PieceColor::Black => piece_value(p.piece_type) + table_bonus(p.piece_type, y, x),
            PieceColor::White => -(piece_value(p.piece_type) + table_bonus(p.piece_type, 7 - y, x)),
        },
    }
}

/// Sum of the square scores of the first `x` squares of rank `y`.
pub open spec fn row_sum(b: BoardView, y: int, x: int) -> int
    decreases x,
{
    if x <= 0 {
        0
    } else {
        row_sum(b, y, x - 1) + square_score(b, x - 1, y)
    }
}

/// Sum of the square scores of the first `y` ranks.
pub open spec fn board_sum(b: BoardView, y: int) -> int
    decreases y,
{
    if y <= 0 {
        0
    } else {
        board_sum(b, y - 1) + row_sum(b, y - 1, 8)
    }
}

/// The heuristic score: the sum over all pieces, kept within `HEURISTIC_LIMIT`.
pub open spec fn heuristic_score(b: BoardView) -> int {
    let s = board_sum(b, 8);
    if s > HEURISTIC_LIMIT {
        HEURISTIC_LIMIT as int
    } else if s < -HEURISTIC_LIMIT {
        -HEURISTIC_LIMIT
    } else {
        s
    }
}

/// The score of a mate for `color` found `moves_until` plies ahead: the nearer
/// the mate, the more extreme the score.
pub open spec fn checkmate_score(color: PieceColor, moves_until: int) -> int {
    match color {
        PieceColor::White => Score::MIN + moves_until,
        PieceColor::Black => Score::MAX - moves_until,
    }
}

/// A distance-to-zero bounded to the range that a score can offset.
pub open spec fn bounded_distance(d: int) -> int {
    if d > 32767 {
        32767
    } else if d < -32767 {
        -32767
    } else {
        d
    }
}

/// The score of a tablebase distance-to-zero `dtz` seen from `turn`, the side
/// to move: a positive distance is a win of the side to move, a negative one a
/// loss, encoded like a mate that far away.
pub open spec fn dtz_score(dtz: int, turn: PieceColor) -> int {
    let d = bounded_distance(dtz);
    match turn {
        PieceColor::White => if d > 0 { Score::MIN + d } else if d < 0 { Score::MAX + d } else { 0 },
        PieceColor::Black => if d > 0 { Score::MAX - d } else if d < 0 { Score::MIN - d } else { 0 },
    }
}

/// Number of pieces on the board.
pub open spec fn piece_count(b: BoardView) -> int {
    b.cells.filter(|c: Option<Piece>| c is Some).len() as int
}

/// The authoritative score of `b`, given what the endgame tables answered for
/// it (`dtz`, read only when they are consulted): positions with fewer than six
/// pieces are scored as mate or draw when the game is over, else from the
/// tables when they answered; everything else is scored by the heuristic.
pub open spec fn full_score(b: BoardView, dtz: Option<i32>) -> int {
    if piece_count(b) < ENDGAME_PIECES {
        match game_end(b) {
            Some(GameEndState::Draw) => 0,
            Some(GameEndState::Win(c)) => checkmate_score(c, UNKNOWN_MATE_DISTANCE as int),
            None => match dtz {
                Some(d) => dtz_score(d as int, b.turn),
                None => heuristic_score(b),
            },
        }
    } else {
        heuristic_score(b)
    }
}

/// The score that a mate for `color` found `moves_until` plies ahead receives.
pub fn score_for_checkmate(color: PieceColor, moves_until: u8) -> (r: Score)
    ensures
        r as int == checkmate_score(color, moves_until as int),
{
    match color {
        PieceColor::White => Score::MIN + moves_until as i16,
        PieceColor::Black => Score::MAX - moves_until as i16,
    }
}

/// The score of a tablebase distance-to-zero for the side `turn` to move.
pub fn score_for_distance(dtz: i32, turn: PieceColor) -> (r: Score)
    ensures
        r as int == dtz_score(dtz as int, turn),
{
    let d: i16 = if dtz > 32767 { 32767 } else if dtz < -32767 { -32767 } else { dtz as i16 };
    match turn {
        PieceColor::White => if d > 0 { Score::MIN + d } else if d < 0 { Score::MAX + d } else { 0 },
        PieceColor::Black => if d > 0 { Score::MAX - d } else if d < 0 { Score::MIN - d } else { 0 },
    }
}

fn piece_value_of(t: PieceType) -> (r: i32)
    ensures
        r == piece_value(t),
{
    match t {
        PieceType::Pawn => 100,
        PieceType::Knight => 320,
        PieceType::Bishop => 330,
        PieceType::Rook => 500,
        PieceType::Queen => 900,
        PieceType::King => 0,
    }
}

fn table_bonus_of(t: PieceType, row: u8, col: u8) -> (r: i16)
    requires
        row < 8,
        col < 8,
    ensures
        r as int == table_bonus(t, row as int, col as int),
{
    let i = row as usize * 8 + col as usize;
    match t {
        PieceType::Pawn => pawn_bonus(i),
        PieceType::Knight => knight_bonus(i),
        PieceType::Bishop => bishop_bonus(i),
        PieceType::Rook => rook_bonus(i),
        PieceType::Queen => queen_bonus(i),
        PieceType::King => king_bonus(i),
    }
}

fn square_score_of(board_state: &BoardState, x: u8, y: u8) -> (r: i32)
    requires
        x < 8,
        y < 8,
    ensures
        r == square_score(board_state@, x as int, y as int),
        -34000 <= r <= 34000,
{
    match board_state.get(BoardPosition::new(x, y)) {
        None => 0,
        Some(p) => match p.color {
            PieceColor::Black => piece_value_of(p.piece_type) + table_bonus_of(p.piece_type, y, x) as i32,
            PieceColor::White => -(piece_value_of(p.piece_type) + table_bonus_of(p.piece_type, 7 - y, x) as i32),
        },
    }
}

/// The heuristic score of a position (material and piece-square tables).
pub fn square_tables(board_state: &BoardState) -> (r: Score)
    ensures
        r as int == heuristic_score(board_state@),
{
    let ghost b = board_state@;
    let mut sum: i32 = 0;
    let mut y: u8 = 0;
    while y < 8
        invariant
            b == board_state@,
            0 <= y <= 8,
            sum == board_sum(b, y as int),
            -272000 * y <= sum <= 272000 * y,
        decreases 8 - y,
    {
        let mut x: u8 = 0;
        let ghost base = sum;
        while x < 8
            invariant
                b == board_state@,
                0 <= y < 8,
                0 <= x <= 8,
                base == board_sum(b, y as int),
                -272000 * y <= base <= 272000 * y,
                sum == base + row_sum(b, y as int, x as int),
                base - 34000 * x <= sum <= base + 34000 * x,
            decreases 8 - x,
        {
            sum = sum + square_score_of(board_state, x, y);
            x += 1;
        }
        y += 1;
    }
    if sum > HEURISTIC_LIMIT {
        HEURISTIC_LIMIT as i16
    } else if sum < -HEURISTIC_LIMIT {
        -HEURISTIC_LIMIT as i16
    } else {
        sum as i16
    }
}

/// Number of pieces on the board, computed square by square.
pub fn count_pieces(board_state: &BoardState) -> (r: u8)
    ensures
        r as int == piece_count(board_state@),
{
    let ghost cells = board_state@.cells;
    let mut count: u8 = 0;
    let mut i: usize = 0;
    while i < 64
        invariant
            cells == board_state@.cells,
            cells.len() == 64,
            0 <= i <= 64,
            count <= i,
            count as int == cells.subrange(0, i as int).filter(|c: Option<Piece>| c is Some).len(),
        decreases 64 - i,
    {
        proof {
            let f = |c: Option<Piece>| c is Some;
            assert(cells.subrange(0, i + 1) =~= cells.subrange(0, i as int).push(cells[i as int]));
            cells.subrange(0, i as int).lemma_filter_push(cells[i as int], f);
        }
        if board_state.pieces[i].is_some() {
            count += 1;
        }
        i += 1;
    }
    assert(cells.subrange(0, 64) =~= cells);
    count
}

/// Scores positions: a quick heuristic for move ordering, and a full
/// evaluation that consults the endgame tables for sparse positions.
pub struct Evaluator {
    pub endgame_tables: EndgameTableSearcher,
}

impl Evaluator {
    pub fn new(endgame_tables: EndgameTableSearcher) -> (r: Evaluator)
        ensures
            r.endgame_tables == endgame_tables,
    {
        Evaluator { endgame_tables }
    }

    /// The heuristic score, used to order moves.
    pub fn quick_evaluate(&self, board_state: &BoardState) -> (r: Score)
        ensures
            r as int == heuristic_score(board_state@),
    {
        square_tables(board_state)
    }

    /// The authoritative score, used at the leaves of the search.
    pub fn full_evaluate(&self, board_state: &BoardState) -> (r: Score)
        ensures
            exists|dtz: Option<i32>| r as int == full_score(board_state@, dtz),
    {
        let ghost b = board_state@;
        if count_pieces(board_state) < ENDGAME_PIECES {
            let (_, end) = find_legal_actions(board_state, false);
            if end.is_none() {
                let dtz = self.endgame_tables.distance_to_zero(board_state);
                let r = full_evaluate_with(board_state, dtz);
                assert(r as int == full_score(b, dtz));
                return r;
            }
        }
        let r = full_evaluate_with(board_state, None);
        assert(r as int == full_score(b, None));
        r
    }

    pub fn score_for_checkmate(&self, color: PieceColor, moves_until: u8) -> (r: Score)
        ensures
            r as int == checkmate_score(color, moves_until as int),
    {
        score_for_checkmate(color, moves_until)
    }

    /// True when the endgame tables classify the position; the answer depends
    /// on which tables were loaded.
    pub fn is_in_endgame(&self, board_state: &BoardState) -> (r: bool) {
        self.endgame_tables.win_loss_check(board_state).is_some()
    }
}

/// The full score of `board_state` when the endgame tables answer `dtz`.
pub fn full_evaluate_with(board_state: &BoardState, dtz: Option<i32>) -> (r: Score)
    ensures
        r as int == full_score(board_state@, dtz),
{
    if count_pieces(board_state) < ENDGAME_PIECES {
        let (_, end) = find_legal_actions(board_state, false);
        match end {
            Some(GameEndState::Draw) => return 0,
            Some(GameEndState::Win(color)) => return score_for_checkmate(color, UNKNOWN_MATE_DISTANCE),
            None => {
                match dtz {
                    Some(d) => return score_for_distance(d, board_state.color_turn),
                    None => {},
                }
            },
        }
    }
    square_tables(board_state)
}

} // verus!
