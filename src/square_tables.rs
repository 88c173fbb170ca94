//! Piece-square tables of the heuristic evaluation.
use vstd::prelude::*;

verus! {

/// Piece-square bonuses of the pawn, row 0 first, from Black's side of the board.
pub open spec fn pawn_table() -> Seq<int> {
    seq![
        0, 0, 0, 0, 0, 0, 0, 0,
        50, 50, 50, 50, 50, 50, 50, 50,
        10, 10, 20, 30, 30, 20, 10, 10,
        5, 5, 10, 25, 25, 10, 5, 5,
        0, 0, 0, 20, 20, 0, 0, 0,
        5, -5, -10, 0, 0, -10, -5, 5,
        5, 10, 10, -20, -20, 10, 10, 5,
        0, 0, 0, 0, 0, 0, 0, 0,
    ]
}

/// Piece-square bonuses of the knight, row 0 first, from Black's side of the board.
pub open spec fn knight_table() -> Seq<int> {
    seq![
        -50, -40, -30, -30, -30, -30, -40, -50,
        -40, -20, 0, 0, 0, 0, -20, -40,
        -30, 0, 10, 15, 15, 10, 0, -30,
        -30, 5, 15, 20, 20, 15, 5, -30,
        -30, 0, 15, 20, 20, 15, 0, -30,
        -30, 5, 10, 15, 15, 10, 5, -30,
        -40, -20, 0, 5, 5, 0, -20, -40,
        -50, -40, -30, -30, -30, -30, -40, -50,
    ]
}

/// Piece-square bonuses of the bishop, row 0 first, from Black's side of the board.
pub open spec fn bishop_table() -> Seq<int> {
    seq![
        -20, -10, -10, -10, -10, -10, -10, -20,
        -10, 0, 0, 0, 0, 0, 0, -10,
        -10, 0, 5, 10, 10, 5, 0, -10,
        -10, 5, 5, 10, 10, 5, 5, -10,
        -10, 0, 10, 10, 10, 10, 0, -10,
        -10, 10, 10, 10, 10, 10, 10, -10,
        -10, 5, 0, 0, 0, 0, 5, -10,
        -20, -10, -10, -10, -10, -10, -10, -20,
    ]
}

/// Piece-square bonuses of the rook, row 0 first, from Black's side of the board.
pub open spec fn rook_table() -> Seq<int> {
    seq![
        0, 0, 0, 0, 0, 0, 0, 0,
        5, 10, 10, 10, 10, 10, 10, 5,
        -5, 0, 0, 0, 0, 0, 0, -5,
        -5, 0, 0, 0, 0, 0, 0, -5,
        -5, 0, 0, 0, 0, 0, 0, -5,
        -5, 0, 0, 0, 0, 0, 0, -5,
        -5, 0, 0, 0, 0, 0, 0, -5,
        0, 0, 0, 5, 5, 0, 0, 0,
    ]
}

/// Piece-square bonuses of the queen, row 0 first, from Black's side of the board.
pub open spec fn queen_table() -> Seq<int> {
    seq![
        -20, -10, -10, -5, -5, -10, -10, -20,
        -10, 0, 0, 0, 0, 0, 0, -10,
        -10, 0, 5, 5, 5, 5, 0, -10,
        -5, 0, 5, 5, 5, 5, 0, -5,
        0, 0, 5, 5, 5, 5, 0, -5,
        -10, 5, 5, 5, 5, 5, 0, -10,
        -10, 0, 5, 0, 0, 0, 0, -10,
        -20, -10, -10, -5, -5, -10, -10, -20,
    ]
}

/// Piece-square bonuses of the king, row 0 first, from Black's side of the board.
pub open spec fn king_table() -> Seq<int> {
    seq![
        -30, -40, -40, -50, -50, -40, -40, -30,
        -30, -40, -40, -50, -50, -40, -40, -30,
        -30, -40, -40, -50, -50, -40, -40, -30,
        -30, -40, -40, -50, -50, -40, -40, -30,
        -20, -30, -30, -40, -40, -30, -30, -20,
        -10, -20, -20, -20, -20, -20, -20, -10,
        20, 20, 0, 0, 0, 0, 20, 20,
        20, 30, 10, 0, 0, 10, 30, 20,
    ]
}

pub(crate) fn pawn_bonus(i: usize) -> (r: i16)
    requires
        i < 64,
    ensures
        r as int == pawn_table()[i as int],
{
    let table: [i16; 64] = [
        0, 0, 0, 0, 0, 0, 0, 0,
        50, 50, 50, 50, 50, 50, 50, 50,
        10, 10, 20, 30, 30, 20, 10, 10,
        5, 5, 10, 25, 25, 10, 5, 5,
        0, 0, 0, 20, 20, 0, 0, 0,
        5, -5, -10, 0, 0, -10, -5, 5,
        5, 10, 10, -20, -20, 10, 10, 5,
        0, 0, 0, 0, 0, 0, 0, 0,
    ];
    proof {
        assert(table@.map_values(|v: i16| v as int) =~= pawn_table());
    }
    table[i]
}

pub(crate) fn knight_bonus(i: usize) -> (r: i16)
    requires
        i < 64,
    ensures
        r as int == knight_table()[i as int],
{
    let table: [i16; 64] = [
        -50, -40, -30, -30, -30, -30, -40, -50,
        -40, -20, 0, 0, 0, 0, -20, -40,
        -30, 0, 10, 15, 15, 10, 0, -30,
        -30, 5, 15, 20, 20, 15, 5, -30,
        -30, 0, 15, 20, 20, 15, 0, -30,
        -30, 5, 10, 15, 15, 10, 5, -30,
        -40, -20, 0, 5, 5, 0, -20, -40,
        -50, -40, -30, -30, -30, -30, -40, -50,
    ];
    proof {
        assert(table@.map_values(|v: i16| v as int) =~= knight_table());
    }
    table[i]
}

pub(crate) fn bishop_bonus(i: usize) -> (r: i16)
    requires
        i < 64,
    ensures
        r as int == bishop_table()[i as int],
{
    let table: [i16; 64] = [
        -20, -10, -10, -10, -10, -10, -10, -20,
        -10, 0, 0, 0, 0, 0, 0, -10,
        -10, 0, 5, 10, 10, 5, 0, -10,
        -10, 5, 5, 10, 10, 5, 5, -10,
        -10, 0, 10, 10, 10, 10, 0, -10,
        -10, 10, 10, 10, 10, 10, 10, -10,
        -10, 5, 0, 0, 0, 0, 5, -10,
        -20, -10, -10, -10, -10, -10, -10, -20,
    ];
    proof {
        assert(table@.map_values(|v: i16| v as int) =~= bishop_table());
    }
    table[i]
}

pub(crate) fn rook_bonus(i: usize) -> (r: i16)
    requires
        i < 64,
    ensures
        r as int == rook_table()[i as int],
{
    let table: [i16; 64] = [
        0, 0, 0, 0, 0, 0, 0, 0,
        5, 10, 10, 10, 10, 10, 10, 5,
        -5, 0, 0, 0, 0, 0, 0, -5,
        -5, 0, 0, 0, 0, 0, 0, -5,
        -5, 0, 0, 0, 0, 0, 0, -5,
        -5, 0, 0, 0, 0, 0, 0, -5,
        -5, 0, 0, 0, 0, 0, 0, -5,
        0, 0, 0, 5, 5, 0, 0, 0,
    ];
    proof {
        assert(table@.map_values(|v: i16| v as int) =~= rook_table());
    }
    table[i]
}

pub(crate) fn queen_bonus(i: usize) -> (r: i16)
    requires
        i < 64,
    ensures
        r as int == queen_table()[i as int],
{
    let table: [i16; 64] = [
        -20, -10, -10, -5, -5, -10, -10, -20,
        -10, 0, 0, 0, 0, 0, 0, -10,
        -10, 0, 5, 5, 5, 5, 0, -10,
        -5, 0, 5, 5, 5, 5, 0, -5,
        0, 0, 5, 5, 5, 5, 0, -5,
        -10, 5, 5, 5, 5, 5, 0, -10,
        -10, 0, 5, 0, 0, 0, 0, -10,
        -20, -10, -10, -5, -5, -10, -10, -20,
    ];
    proof {
        assert(table@.map_values(|v: i16| v as int) =~= queen_table());
    }
    table[i]
}

pub(crate) fn king_bonus(i: usize) -> (r: i16)
    requires
        i < 64,
    ensures
        r as int == king_table()[i as int],
{
    let table: [i16; 64] = [
        -30, -40, -40, -50, -50, -40, -40, -30,
        -30, -40, -40, -50, -50, -40, -40, -30,
        -30, -40, -40, -50, -50, -40, -40, -30,
        -30, -40, -40, -50, -50, -40, -40, -30,
        -20, -30, -30, -40, -40, -30, -30, -20,
        -10, -20, -20, -20, -20, -20, -20, -10,
        20, 20, 0, 0, 0, 0, 20, 20,
        20, 30, 10, 0, 0, 10, 30, 20,
    ];
    proof {
        assert(table@.map_values(|v: i16| v as int) =~= king_table());
    }
    table[i]
}

} // verus!
