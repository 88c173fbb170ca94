use vstd::prelude::*;

use crate::actions::{play, playable, Action, ActionType};
use crate::board_state::{
    in_bounds, BoardPosition, BoardState, BoardView, Piece, PieceColor, PieceType,
};

verus! {

/// A piece of kind `t` belonging to the side to move stands on `p`.
pub open spec fn own_piece(b: BoardView, p: BoardPosition, t: PieceType) -> bool {
    p.valid() && b.at(p) == Some(Piece { piece_type: t, color: b.turn })
}

/// (x, y) is on the board and empty.
pub open spec fn is_empty(b: BoardView, x: int, y: int) -> bool {
    in_bounds(x, y) && b.cell(x, y) is None
}

/// (x, y) is on the board and holds a piece of the side not to move.
pub open spec fn is_enemy(b: BoardView, x: int, y: int) -> bool {
    in_bounds(x, y) && b.cell(x, y) is Some && b.cell(x, y).unwrap().color != b.turn
}

/// A piece of the side to move may end a step on (x, y): it is empty or an enemy.
pub open spec fn can_land(b: BoardView, x: int, y: int) -> bool {
    is_empty(b, x, y) || is_enemy(b, x, y)
}

/// The simple move from `from` to the square (x, y).
pub open spec fn simple_to(from: BoardPosition, x: int, y: int) -> Action {
    Action { action_type: ActionType::SimpleMove { from, to: BoardPosition { x: x as u8, y: y as u8 } } }
}

/// The square a move starts from (the king's square stands in for castling).
pub open spec fn origin(a: Action) -> BoardPosition {
    match a.action_type {
        ActionType::SimpleMove { from, .. } => from,
        ActionType::EnPassant { from, .. } => from,
        ActionType::Castling { .. } => BoardPosition { x: 4, y: 0 },
    }
}

/// Two files apart and one rank, or one file and two ranks.
pub open spec fn knight_jump(from: BoardPosition, to: BoardPosition) -> bool {
    let dx = to.x - from.x;
    let dy = to.y - from.y;
    ((dx == 1 || dx == -1) && (dy == 2 || dy == -2)) || ((dx == 2 || dx == -2) && (dy == 1 || dy == -1))
}

/// One of the eight neighbouring squares.
pub open spec fn king_step(from: BoardPosition, to: BoardPosition) -> bool {
    let dx = to.x - from.x;
    let dy = to.y - from.y;
    -1 <= dx <= 1 && -1 <= dy <= 1 && !(dx == 0 && dy == 0)
}

/// The coordinate `c` moved `k` steps in direction `d` (-1, 0 or 1).
pub open spec fn step(c: int, k: int, d: int) -> int {
    if d > 0 {
        c + k
    } else if d < 0 {
        c - k
    } else {
        c
    }
}

/// The `k`-th square along the ray from `from` in direction (dx, dy) is empty.
pub open spec fn ray_empty(b: BoardView, from: BoardPosition, dx: int, dy: int, k: int) -> bool {
    is_empty(b, step(from.x as int, k, dx), step(from.y as int, k, dy))
}

/// Every square strictly between `from` and the `k`-th square of the ray is empty.
pub open spec fn path_clear(b: BoardView, from: BoardPosition, dx: int, dy: int, k: int) -> bool {
    forall|j: int| 1 <= j < k ==> #[trigger] ray_empty(b, from, dx, dy, j)
}

/// How many steps along direction (dx, dy) lead from `from` to `to`, if `to` lies on that ray.
pub open spec fn ray_dist(from: BoardPosition, to: BoardPosition, dx: int, dy: int) -> int {
    if dx > 0 {
        to.x - from.x
    } else if dx < 0 {
        from.x - to.x
    } else if dy > 0 {
        to.y - from.y
    } else {
        from.y - to.y
    }
}

/// A sliding piece on `from` reaches `to` along direction (dx, dy): every square
/// before it is empty and `to` itself is empty or an enemy.
pub open spec fn slides_to(b: BoardView, from: BoardPosition, to: BoardPosition, dx: int, dy: int) -> bool {
    let k = ray_dist(from, to, dx, dy);
    &&& k >= 1
    &&& to.x as int == step(from.x as int, k, dx)
    &&& to.y as int == step(from.y as int, k, dy)
    &&& path_clear(b, from, dx, dy, k)
    &&& can_land(b, to.x as int, to.y as int)
}

/// Rank on which the pawns of `c` start.
pub open spec fn pawn_start_rank(c: PieceColor) -> int {
    match c {
        PieceColor::White => 1,
        PieceColor::Black => 6,
    }
}

/// Rank on which the pawns of `c` may capture en passant.
pub open spec fn en_passant_rank(c: PieceColor) -> int {
    match c {
        PieceColor::White => 4,
        PieceColor::Black => 3,
    }
}

/// The pawn moves of the side to move: a push onto an empty square, a double
/// push from the starting rank over an empty square, a diagonal capture of an
/// enemy, and the en-passant capture towards the en-passant file.
pub open spec fn pawn_action(b: BoardView, a: Action) -> bool {
    let f = b.turn.forward();
    match a.action_type {
        ActionType::SimpleMove { from, to } => {
            let (fx, fy, tx, ty) = (from.x as int, from.y as int, to.x as int, to.y as int);
            &&& own_piece(b, from, PieceType::Pawn)
            &&& {
                ||| (tx == fx && ty == fy + f && is_empty(b, tx, ty))
                ||| (fy == pawn_start_rank(b.turn) && tx == fx && ty == fy + 2 * f
                    && is_empty(b, fx, fy + f) && is_empty(b, tx, ty))
                ||| ((tx == fx + 1 || tx == fx - 1) && ty == fy + f && is_enemy(b, tx, ty))
            }
        },
        ActionType::EnPassant { from, to } => {
            let (fx, fy, tx, ty) = (from.x as int, from.y as int, to.x as int, to.y as int);
            &&& own_piece(b, from, PieceType::Pawn)
            &&& fy == en_passant_rank(b.turn)
            &&& b.en_passant is Some
            &&& (b.en_passant.unwrap() == fx + 1 || b.en_passant.unwrap() == fx - 1)
            &&& tx == b.en_passant.unwrap()
            &&& ty == fy + f
        },
        ActionType::Castling { .. } => false,
    }
}

pub open spec fn knight_action(b: BoardView, a: Action) -> bool {
    match a.action_type {
        ActionType::SimpleMove { from, to } => own_piece(b, from, PieceType::Knight) && knight_jump(from, to)
            && can_land(b, to.x as int, to.y as int),
        _ => false,
    }
}

pub open spec fn king_action(b: BoardView, a: Action) -> bool {
    match a.action_type {
        ActionType::SimpleMove { from, to } => own_piece(b, from, PieceType::King) && king_step(from, to)
            && can_land(b, to.x as int, to.y as int),
        _ => false,
    }
}

/// Bishop and queen moves along the diagonals.
pub open spec fn diagonal_action(b: BoardView, a: Action) -> bool {
    match a.action_type {
        ActionType::SimpleMove { from, to } => {
            &&& (own_piece(b, from, PieceType::Bishop) || own_piece(b, from, PieceType::Queen))
            &&& {
                ||| slides_to(b, from, to, 1, 1)
                ||| slides_to(b, from, to, -1, 1)
                ||| slides_to(b, from, to, 1, -1)
                ||| slides_to(b, from, to, -1, -1)
            }
        },
        _ => false,
    }
}

/// Rook and queen moves along files and ranks.
pub open spec fn straight_action(b: BoardView, a: Action) -> bool {
    match a.action_type {
        ActionType::SimpleMove { from, to } => {
            &&& (own_piece(b, from, PieceType::Rook) || own_piece(b, from, PieceType::Queen))
            &&& {
                ||| slides_to(b, from, to, 1, 0)
                ||| slides_to(b, from, to, -1, 0)
                ||| slides_to(b, from, to, 0, 1)
                ||| slides_to(b, from, to, 0, -1)
            }
        },
        _ => false,
    }
}

/// The per-piece move rules, run in a fixed pipeline by the move generator.
#[derive(Copy, Clone, PartialEq, Eq, Structural, Debug)]
pub enum ActionRule {
    Pawn,
    Knight,
    Diagonal,
    Straight,
    King,
}

/// The moves that rule `r` produces for the side to move.
pub open spec fn rule_action(b: BoardView, r: ActionRule, a: Action) -> bool {
    match r {
        ActionRule::Pawn => pawn_action(b, a),
        ActionRule::Knight => knight_action(b, a),
        ActionRule::Diagonal => diagonal_action(b, a),
        ActionRule::Straight => straight_action(b, a),
        ActionRule::King => king_action(b, a),
    }
}

/// A pseudo-legal move other than castling: one that some piece rule produces.
pub open spec fn pseudo_action(b: BoardView, a: Action) -> bool {
    ||| pawn_action(b, a)
    ||| knight_action(b, a)
    ||| diagonal_action(b, a)
    ||| straight_action(b, a)
    ||| king_action(b, a)
}

/// After pushing `x`, a sequence holds exactly what it held before and `x`.
pub proof fn lemma_push_contains(s: Seq<Action>, x: Action)
    ensures
        forall|y: Action| #[trigger] s.push(x).contains(y) <==> (s.contains(y) || y == x),
{
    assert forall|y: Action| #[trigger] s.push(x).contains(y) <==> (s.contains(y) || y == x) by {
        if s.contains(y) {
            let i = choose|i: int| 0 <= i < s.len() && s[i] == y;
            assert(s.push(x)[i] == y);
        }
        if y == x {
            assert(s.push(x)[s.len() as int] == y);
        }
        if s.push(x).contains(y) {
            let i = choose|i: int| 0 <= i < s.push(x).len() && s.push(x)[i] == y;
            if i < s.len() {
                assert(s[i] == y);
            }
        }
    }
}

/// Pushes `a` onto `actions`.
fn push_action(actions: &mut Vec<Action>, a: Action)
    ensures
        final(actions)@ == old(actions)@.push(a),
        forall|y: Action| #[trigger] final(actions)@.contains(y) <==> (old(actions)@.contains(y) || y == a),
        old(actions)@.no_duplicates() && !old(actions)@.contains(a) ==> final(actions)@.no_duplicates(),
{
    actions.push(a);
    proof {
        lemma_push_contains(old(actions)@, a);
        lemma_push_no_duplicates(old(actions)@, a);
    }
}

/// Pushing an element that is not yet there keeps a sequence free of duplicates.
proof fn lemma_push_no_duplicates(s: Seq<Action>, x: Action)
    ensures
        s.no_duplicates() && !s.contains(x) ==> s.push(x).no_duplicates(),
{
    if s.no_duplicates() && !s.contains(x) {
        assert forall|i: int, j: int| 0 <= i < s.push(x).len() && 0 <= j < s.push(x).len() && i != j
            implies s.push(x)[i] != s.push(x)[j] by {
            if i == s.len() {
                assert(s.contains(s[j]));
            } else if j == s.len() {
                assert(s.contains(s[i]));
            }
        }
    }
}

/// Tries the single step from `from` by (dx, dy): adds the simple move when the
/// target is on the board and empty or an enemy. Returns whether the target was empty.
fn push_step(board_state: &BoardState, from: BoardPosition, dx: i8, dy: i8, actions: &mut Vec<Action>) -> (empty: bool)
    requires
        from.valid(),
        -2 <= dx <= 2,
        -2 <= dy <= 2,
    ensures
        empty == is_empty(board_state@, from.x + dx, from.y + dy),
        forall|y: Action| #[trigger] final(actions)@.contains(y) <==> (old(actions)@.contains(y)
            || (y == simple_to(from, from.x + dx, from.y + dy) && can_land(board_state@, from.x + dx, from.y + dy))),
        old(actions)@.no_duplicates() && (can_land(board_state@, from.x + dx, from.y + dy)
            ==> !old(actions)@.contains(simple_to(from, from.x + dx, from.y + dy))) ==> final(actions)@.no_duplicates(),
{
    let tx: i16 = from.x as i16 + dx as i16;
    let ty: i16 = from.y as i16 + dy as i16;
    if tx < 0 || tx > 7 || ty < 0 || ty > 7 {
        return false;
    }
    let to = BoardPosition::new(tx as u8, ty as u8);
    match board_state.get(to) {
        None => {
            push_action(actions, Action::new(ActionType::SimpleMove { from, to }));
            true
        },
        Some(p) => {
            if p.color != board_state.color_turn {
                push_action(actions, Action::new(ActionType::SimpleMove { from, to }));
            }
            false
        },
    }
}


/// A simple move from `from` along direction (dx, dy).
pub open spec fn ray_action(b: BoardView, from: BoardPosition, dx: int, dy: int, a: Action) -> bool {
    match a.action_type {
        ActionType::SimpleMove { from: f, to } => f == from && slides_to(b, from, to, dx, dy),
        _ => false,
    }
}

/// A simple move from `from` along direction (dx, dy) of fewer than `k` steps.
pub open spec fn ray_action_within(b: BoardView, from: BoardPosition, dx: int, dy: int, a: Action, k: int) -> bool {
    match a.action_type {
        ActionType::SimpleMove { from: f, to } => f == from && slides_to(b, from, to, dx, dy) && ray_dist(from, to, dx, dy) < k,
        _ => false,
    }
}

/// Casts the ray from `from` in direction (dx, dy): adds a move to every empty
/// square until the edge or an occupied square, which is added when it holds an enemy.
fn push_ray(board_state: &BoardState, from: BoardPosition, dx: i8, dy: i8, actions: &mut Vec<Action>)
    requires
        from.valid(),
        -1 <= dx <= 1,
        -1 <= dy <= 1,
        dx != 0 || dy != 0,
    ensures
        forall|a: Action| #[trigger] final(actions)@.contains(a) <==> (old(actions)@.contains(a)
            || ray_action(board_state@, from, dx as int, dy as int, a)),
        old(actions)@.no_duplicates() && (forall|a: Action| #[trigger] old(actions)@.contains(a)
            ==> !ray_action(board_state@, from, dx as int, dy as int, a)) ==> final(actions)@.no_duplicates(),
{
    let ghost b = board_state@;
    let ghost fresh = old(actions)@.no_duplicates() && (forall|a: Action| #[trigger] old(actions)@.contains(a)
        ==> !ray_action(b, from, dx as int, dy as int, a));
    let mut k: i16 = 1;
    loop
        invariant
            b == board_state@,
            from.valid(),
            -1 <= dx <= 1,
            -1 <= dy <= 1,
            dx != 0 || dy != 0,
            1 <= k <= 8,
            path_clear(b, from, dx as int, dy as int, k as int),
            forall|a: Action| #[trigger] actions@.contains(a) <==> (old(actions)@.contains(a)
                || ray_action_within(b, from, dx as int, dy as int, a, k as int)),
            fresh == (old(actions)@.no_duplicates() && (forall|a: Action| #[trigger] old(actions)@.contains(a)
                ==> !ray_action(b, from, dx as int, dy as int, a))),
            fresh ==> actions@.no_duplicates(),
        decreases 9 - k,
    {
        let tx: i16 = if dx > 0 { from.x as i16 + k } else if dx < 0 { from.x as i16 - k } else { from.x as i16 };
        let ty: i16 = if dy > 0 { from.y as i16 + k } else if dy < 0 { from.y as i16 - k } else { from.y as i16 };
        if tx < 0 || tx > 7 || ty < 0 || ty > 7 {
            assert forall|a: Action| ray_action(b, from, dx as int, dy as int, a)
                implies ray_action_within(b, from, dx as int, dy as int, a, k as int) by {}
            return;
        }
        let to = BoardPosition::new(tx as u8, ty as u8);
        match board_state.get(to) {
            None => {
                let mv = Action::new(ActionType::SimpleMove { from, to });
                assert(ray_empty(b, from, dx as int, dy as int, k as int));
                assert(ray_action(b, from, dx as int, dy as int, mv));
                assert(!ray_action_within(b, from, dx as int, dy as int, mv, k as int));
                push_action(actions, mv);
                assert forall|j: int| 1 <= j < k + 1 implies #[trigger] ray_empty(b, from, dx as int, dy as int, j) by {
                    if j < k {
                        assert(path_clear(b, from, dx as int, dy as int, k as int));
                    }
                }
                assert forall|a: Action| #[trigger] actions@.contains(a) <==> (old(actions)@.contains(a)
                    || ray_action_within(b, from, dx as int, dy as int, a, k + 1)) by {
                    if ray_action_within(b, from, dx as int, dy as int, a, k + 1)
                        && !ray_action_within(b, from, dx as int, dy as int, a, k as int) {
                        assert(a == Action { action_type: ActionType::SimpleMove { from, to } });
                    }
                }
                k = k + 1;
            },
            Some(p) => {
                assert(!ray_empty(b, from, dx as int, dy as int, k as int));
                if p.color != board_state.color_turn {
                    let mv = Action::new(ActionType::SimpleMove { from, to });
                    assert(ray_action(b, from, dx as int, dy as int, mv));
                    assert(!ray_action_within(b, from, dx as int, dy as int, mv, k as int));
                    push_action(actions, mv);
                }
                assert forall|a: Action| ray_action(b, from, dx as int, dy as int, a)
                    && !ray_action_within(b, from, dx as int, dy as int, a, k as int)
                    implies a == (Action { action_type: ActionType::SimpleMove { from, to } })
                    && p.color != b.turn by {
                    match a.action_type {
                        ActionType::SimpleMove { from: f, to: t } => {
                            let d = ray_dist(from, t, dx as int, dy as int);
                            if d > k {
                                assert(path_clear(b, from, dx as int, dy as int, d));
                                assert(ray_empty(b, from, dx as int, dy as int, k as int));
                            }
                        },
                        _ => {},
                    }
                }
                return;
            },
        }
    }
}


/// Adds the moves of the knight on `pos`.
fn push_knight_moves(board_state: &BoardState, pos: BoardPosition, actions: &mut Vec<Action>)
    requires
        own_piece(board_state@, pos, PieceType::Knight),
    ensures
        forall|a: Action| #[trigger] final(actions)@.contains(a) <==> (old(actions)@.contains(a)
            || (knight_action(board_state@, a) && origin(a) == pos)),
        old(actions)@.no_duplicates() && (forall|a: Action| #[trigger] old(actions)@.contains(a)
            ==> !(knight_action(board_state@, a) && origin(a) == pos)) ==> final(actions)@.no_duplicates(),
{
    push_step(board_state, pos, 1, 2, actions);
    push_step(board_state, pos, 2, 1, actions);
    push_step(board_state, pos, -1, 2, actions);
    push_step(board_state, pos, -2, 1, actions);
    push_step(board_state, pos, 1, -2, actions);
    push_step(board_state, pos, 2, -1, actions);
    push_step(board_state, pos, -1, -2, actions);
    push_step(board_state, pos, -2, -1, actions);
}

/// Adds the moves of the king on `pos` to its neighbouring squares.
fn push_king_moves(board_state: &BoardState, pos: BoardPosition, actions: &mut Vec<Action>)
    requires
        own_piece(board_state@, pos, PieceType::King),
    ensures
        forall|a: Action| #[trigger] final(actions)@.contains(a) <==> (old(actions)@.contains(a)
            || (king_action(board_state@, a) && origin(a) == pos)),
        old(actions)@.no_duplicates() && (forall|a: Action| #[trigger] old(actions)@.contains(a)
            ==> !(king_action(board_state@, a) && origin(a) == pos)) ==> final(actions)@.no_duplicates(),
{
    push_step(board_state, pos, 0, 1, actions);
    push_step(board_state, pos, 1, 1, actions);
    push_step(board_state, pos, 1, 0, actions);
    push_step(board_state, pos, 1, -1, actions);
    push_step(board_state, pos, 0, -1, actions);
    push_step(board_state, pos, -1, -1, actions);
    push_step(board_state, pos, -1, 0, actions);
    push_step(board_state, pos, -1, 1, actions);
}

/// Adds the moves of the bishop or queen on `pos` along the diagonals.
fn push_diagonal_moves(board_state: &BoardState, pos: BoardPosition, actions: &mut Vec<Action>)
    requires
        own_piece(board_state@, pos, PieceType::Bishop) || own_piece(board_state@, pos, PieceType::Queen),
    ensures
        forall|a: Action| #[trigger] final(actions)@.contains(a) <==> (old(actions)@.contains(a)
            || (diagonal_action(board_state@, a) && origin(a) == pos)),
        old(actions)@.no_duplicates() && (forall|a: Action| #[trigger] old(actions)@.contains(a)
            ==> !(diagonal_action(board_state@, a) && origin(a) == pos)) ==> final(actions)@.no_duplicates(),
{
    push_ray(board_state, pos, 1, 1, actions);
    push_ray(board_state, pos, -1, 1, actions);
    push_ray(board_state, pos, 1, -1, actions);
    push_ray(board_state, pos, -1, -1, actions);
}

/// Adds the moves of the rook or queen on `pos` along its file and rank.
fn push_straight_moves(board_state: &BoardState, pos: BoardPosition, actions: &mut Vec<Action>)
    requires
        own_piece(board_state@, pos, PieceType::Rook) || own_piece(board_state@, pos, PieceType::Queen),
    ensures
        forall|a: Action| #[trigger] final(actions)@.contains(a) <==> (old(actions)@.contains(a)
            || (straight_action(board_state@, a) && origin(a) == pos)),
        old(actions)@.no_duplicates() && (forall|a: Action| #[trigger] old(actions)@.contains(a)
            ==> !(straight_action(board_state@, a) && origin(a) == pos)) ==> final(actions)@.no_duplicates(),
{
    push_ray(board_state, pos, 1, 0, actions);
    push_ray(board_state, pos, -1, 0, actions);
    push_ray(board_state, pos, 0, 1, actions);
    push_ray(board_state, pos, 0, -1, actions);
}


/// Adds the moves of the pawn on `pos`: pushes, captures and the en-passant capture.
#[verifier::rlimit(80)]
fn push_pawn_moves(board_state: &BoardState, pos: BoardPosition, actions: &mut Vec<Action>)
    requires
        own_piece(board_state@, pos, PieceType::Pawn),
    ensures
        forall|a: Action| #[trigger] final(actions)@.contains(a) <==> (old(actions)@.contains(a)
            || (pawn_action(board_state@, a) && origin(a) == pos)),
        old(actions)@.no_duplicates() && (forall|a: Action| #[trigger] old(actions)@.contains(a)
            ==> !(pawn_action(board_state@, a) && origin(a) == pos)) ==> final(actions)@.no_duplicates(),
{
    let ghost b = board_state@;
    let white = board_state.color_turn == PieceColor::White;
    let fy: i16 = if white { pos.y as i16 + 1 } else { pos.y as i16 - 1 };
    if 0 <= fy && fy <= 7 {
        let one = BoardPosition::new(pos.x, fy as u8);
        if board_state.get(one).is_none() {
            push_action(actions, Action::new(ActionType::SimpleMove { from: pos, to: one }));
            let start_rank: u8 = if white { 1 } else { 6 };
            if pos.y == start_rank {
                let ty: u8 = if white { pos.y + 2 } else { pos.y - 2 };
                let two = BoardPosition::new(pos.x, ty);
                if board_state.get(two).is_none() {
                    push_action(actions, Action::new(ActionType::SimpleMove { from: pos, to: two }));
                }
            }
        }
        if pos.x > 0 {
            let left = BoardPosition::new(pos.x - 1, fy as u8);
            match board_state.get(left) {
                Some(p) => {
                    if p.color != board_state.color_turn {
                        push_action(actions, Action::new(ActionType::SimpleMove { from: pos, to: left }));
                    }
                },
                None => {},
            }
        }
        if pos.x < 7 {
            let right = BoardPosition::new(pos.x + 1, fy as u8);
            match board_state.get(right) {
                Some(p) => {
                    if p.color != board_state.color_turn {
                        push_action(actions, Action::new(ActionType::SimpleMove { from: pos, to: right }));
                    }
                },
                None => {},
            }
        }
    }
    let ep_rank: u8 = if white { 4 } else { 3 };
    let e = board_state.en_passant_colunm;
    if pos.y == ep_rank && e < 8 && (e == pos.x + 1 || (pos.x > 0 && e == pos.x - 1)) {
        let to = BoardPosition::new(e, fy as u8);
        push_action(actions, Action::new(ActionType::EnPassant { from: pos, to }));
    }
}


/// Every move that a piece rule produces starts from a square of the board.
proof fn lemma_rule_origin_valid(b: BoardView, r: ActionRule, a: Action)
    requires
        rule_action(b, r, a),
    ensures
        origin(a).valid(),
{
}

impl ActionRule {
    /// Adds the moves that this rule gives the piece on `pos`, if it is one of
    /// the side to move and of a kind the rule concerns.
    fn push_square_moves(&self, board_state: &BoardState, pos: BoardPosition, actions: &mut Vec<Action>)
        requires
            pos.valid(),
        ensures
            forall|a: Action| #[trigger] final(actions)@.contains(a) <==> (old(actions)@.contains(a)
                || (rule_action(board_state@, *self, a) && origin(a) == pos)),
            old(actions)@.no_duplicates() && (forall|a: Action| #[trigger] old(actions)@.contains(a)
                ==> !(rule_action(board_state@, *self, a) && origin(a) == pos)) ==> final(actions)@.no_duplicates(),
    {
        match board_state.get(pos) {
            None => {},
            Some(piece) => {
                if piece.color != board_state.color_turn {
                    return;
                }
                let t = piece.piece_type;
                match self {
                    ActionRule::Pawn => {
                        if t == PieceType::Pawn {
                            push_pawn_moves(board_state, pos, actions);
                        }
                    },
                    ActionRule::Knight => {
                        if t == PieceType::Knight {
                            push_knight_moves(board_state, pos, actions);
                        }
                    },
                    ActionRule::Diagonal => {
                        if t == PieceType::Bishop || t == PieceType::Queen {
                            push_diagonal_moves(board_state, pos, actions);
                        }
                    },
                    ActionRule::Straight => {
                        if t == PieceType::Rook || t == PieceType::Queen {
                            push_straight_moves(board_state, pos, actions);
                        }
                    },
                    ActionRule::King => {
                        if t == PieceType::King {
                            push_king_moves(board_state, pos, actions);
                        }
                    },
                }
            },
        }
    }

    /// Adds every move of this rule, scanning the board square by square.
    fn generate(&self, board_state: &BoardState, actions: &mut Vec<Action>)
        ensures
            forall|a: Action| #[trigger] final(actions)@.contains(a) <==> (old(actions)@.contains(a)
                || rule_action(board_state@, *self, a)),
            old(actions)@.no_duplicates() && (forall|a: Action| #[trigger] old(actions)@.contains(a)
                ==> !rule_action(board_state@, *self, a)) ==> final(actions)@.no_duplicates(),
    {
        let ghost b = board_state@;
        let ghost fresh = old(actions)@.no_duplicates() && (forall|a: Action| #[trigger] old(actions)@.contains(a)
            ==> !rule_action(b, *self, a));
        let mut y: u8 = 0;
        while y < 8
            invariant
                b == board_state@,
                0 <= y <= 8,
                forall|a: Action| #[trigger] actions@.contains(a) <==> (old(actions)@.contains(a)
                    || (rule_action(b, *self, a) && origin(a).y < y)),
                fresh == (old(actions)@.no_duplicates() && (forall|a: Action| #[trigger] old(actions)@.contains(a)
                    ==> !rule_action(b, *self, a))),
                fresh ==> actions@.no_duplicates(),
            decreases 8 - y,
        {
            let mut x: u8 = 0;
            while x < 8
                invariant
                    b == board_state@,
                    0 <= y < 8,
                    0 <= x <= 8,
                    forall|a: Action| #[trigger] actions@.contains(a) <==> (old(actions)@.contains(a)
                        || (rule_action(b, *self, a) && (origin(a).y < y || (origin(a).y == y && origin(a).x < x)))),
                    fresh == (old(actions)@.no_duplicates() && (forall|a: Action| #[trigger] old(actions)@.contains(a)
                        ==> !rule_action(b, *self, a))),
                    fresh ==> actions@.no_duplicates(),
                decreases 8 - x,
            {
                self.push_square_moves(board_state, BoardPosition::new(x, y), actions);
                x += 1;
            }
            assert forall|a: Action| rule_action(b, *self, a) && origin(a).y == y implies origin(a).x < 8 by {
                lemma_rule_origin_valid(b, *self, a);
            }
            y += 1;
        }
        assert forall|a: Action| rule_action(b, *self, a) implies origin(a).y < 8 by {
            lemma_rule_origin_valid(b, *self, a);
        }
    }

    /// Appends to `actions` every move that this rule produces for the side to
    /// move, each once; the moves already there stay in front, in their order.
    pub fn update_actions(&self, board_state: &BoardState, actions: &mut Vec<Action>)
        ensures
            extends(old(actions)@, final(actions)@),
            forall|a: Action| #[trigger] added(old(actions)@, final(actions)@).contains(a)
                <==> rule_action(board_state@, *self, a),
            added(old(actions)@, final(actions)@).no_duplicates(),
            forall|a: Action| #[trigger] final(actions)@.contains(a) <==> (old(actions)@.contains(a)
                || rule_action(board_state@, *self, a)),
    {
        let mut fresh: Vec<Action> = Vec::new();
        self.generate(board_state, &mut fresh);
        let ghost new_moves = fresh@;
        actions.append(&mut fresh);
        proof {
            lemma_appended(old(actions)@, new_moves);
        }
    }
}

/// `now` starts with `before`.
pub open spec fn extends(before: Seq<Action>, now: Seq<Action>) -> bool {
    before.len() <= now.len() && now.subrange(0, before.len() as int) == before
}

/// What `now` holds after `before`.
pub open spec fn added(before: Seq<Action>, now: Seq<Action>) -> Seq<Action> {
    now.subrange(before.len() as int, now.len() as int)
}

proof fn lemma_appended(s: Seq<Action>, t: Seq<Action>)
    ensures
        extends(s, s + t),
        added(s, s + t) == t,
        forall|a: Action| #[trigger] (s + t).contains(a) <==> (s.contains(a) || t.contains(a)),
{
    assert((s + t).subrange(0, s.len() as int) =~= s);
    assert((s + t).subrange(s.len() as int, (s + t).len() as int) =~= t);
    assert forall|a: Action| #[trigger] (s + t).contains(a) <==> (s.contains(a) || t.contains(a)) by {
        if s.contains(a) {
            let i = choose|i: int| 0 <= i < s.len() && s[i] == a;
            assert((s + t)[i] == a);
        }
        if t.contains(a) {
            let i = choose|i: int| 0 <= i < t.len() && t[i] == a;
            assert((s + t)[s.len() + i] == a);
        }
        if (s + t).contains(a) {
            let i = choose|i: int| 0 <= i < (s + t).len() && (s + t)[i] == a;
            if i < s.len() {
                assert(s[i] == a);
            } else {
                assert(t[i - s.len()] == a);
            }
        }
    }
}

/// Adds every pseudo-legal move of the side to move other than castling.
pub fn push_pseudo_actions(board_state: &BoardState, actions: &mut Vec<Action>)
    ensures
        forall|a: Action| #[trigger] final(actions)@.contains(a) <==> (old(actions)@.contains(a)
            || pseudo_action(board_state@, a)),
        old(actions)@.no_duplicates() && (forall|a: Action| #[trigger] old(actions)@.contains(a)
            ==> !pseudo_action(board_state@, a)) ==> final(actions)@.no_duplicates(),
{
    let ghost b = board_state@;
    let ghost s0 = actions@;
    ActionRule::Pawn.update_actions(board_state, actions);
    let ghost s1 = actions@;
    ActionRule::Knight.update_actions(board_state, actions);
    let ghost s2 = actions@;
    ActionRule::Diagonal.update_actions(board_state, actions);
    let ghost s3 = actions@;
    ActionRule::Straight.update_actions(board_state, actions);
    let ghost s4 = actions@;
    ActionRule::King.update_actions(board_state, actions);
    let ghost s5 = actions@;
    proof {
        if s0.no_duplicates() && (forall|a: Action| #[trigger] s0.contains(a) ==> !pseudo_action(b, a)) {
            lemma_extend_no_duplicates(s0, s1);
            lemma_extend_no_duplicates(s1, s2);
            assert forall|a: Action| #[trigger] s2.contains(a) implies !diagonal_action(b, a) by {
                lemma_diagonal_not_straight(b, a);
            }
            lemma_extend_no_duplicates(s2, s3);
            assert forall|a: Action| #[trigger] s3.contains(a) implies !straight_action(b, a) by {
                lemma_diagonal_not_straight(b, a);
            }
            lemma_extend_no_duplicates(s3, s4);
            lemma_extend_no_duplicates(s4, s5);
        }
    }
}

/// No move is both a diagonal and a straight slide.
proof fn lemma_diagonal_not_straight(b: BoardView, a: Action)
    ensures
        !(diagonal_action(b, a) && straight_action(b, a)),
{
}

/// A sequence extended by a part free of duplicates and disjoint from it stays free of duplicates.
pub(crate) proof fn lemma_extend_no_duplicates(s: Seq<Action>, t: Seq<Action>)
    requires
        extends(s, t),
    ensures
        s.no_duplicates() && added(s, t).no_duplicates()
            && (forall|a: Action| #[trigger] s.contains(a) ==> !added(s, t).contains(a)) ==> t.no_duplicates(),
{
    let n = added(s, t);
    assert(t =~= s + n);
    if s.no_duplicates() && n.no_duplicates() && (forall|a: Action| #[trigger] s.contains(a) ==> !n.contains(a)) {
        assert forall|i: int, j: int| 0 <= i < t.len() && 0 <= j < t.len() && i != j implies t[i] != t[j] by {
            if i < s.len() && j >= s.len() {
                assert(s.contains(t[i]));
                assert(n[j - s.len()] == t[j]);
                assert(n.contains(t[j]));
            } else if j < s.len() && i >= s.len() {
                assert(s.contains(t[j]));
                assert(n[i - s.len()] == t[i]);
                assert(n.contains(t[i]));
            } else if i >= s.len() && j >= s.len() {
                assert(n[i - s.len()] == t[i] && n[j - s.len()] == t[j]);
            }
        }
    }
}

/// A pseudo-legal move of the side to move of `b` lands on (x, y).
pub open spec fn move_lands_on(b: BoardView, x: int, y: int) -> bool {
    exists|a: Action| #[trigger] pseudo_action(b, a) && lands_on(a, x, y)
}

/// `a` is a simple move whose target is (x, y).
pub open spec fn lands_on(a: Action, x: int, y: int) -> bool {
    match a.action_type {
        ActionType::SimpleMove { to, .. } => to.x as int == x && to.y as int == y,
        _ => false,
    }
}

/// True when some move in `actions` is a simple move that lands on `pos`.
fn any_lands_on(actions: &Vec<Action>, pos: BoardPosition) -> (r: bool)
    ensures
        r == exists|a: Action| #[trigger] actions@.contains(a) && lands_on(a, pos.x as int, pos.y as int),
{
    let mut i: usize = 0;
    while i < actions.len()
        invariant
            0 <= i <= actions@.len(),
            forall|j: int| 0 <= j < i ==> !lands_on(#[trigger] actions@[j], pos.x as int, pos.y as int),
        decreases actions.len() - i,
    {
        match actions[i].action_type {
            ActionType::SimpleMove { to, .. } => {
                if to == pos {
                    assert(actions@.contains(actions@[i as int]));
                    return true;
                }
            },
            _ => {},
        }
        i += 1;
    }
    assert forall|a: Action| #[trigger] actions@.contains(a) implies !lands_on(a, pos.x as int, pos.y as int) by {
        let j = choose|j: int| 0 <= j < actions@.len() && actions@[j] == a;
        assert(!lands_on(actions@[j], pos.x as int, pos.y as int));
    }
    false
}

/// True when a pseudo-legal move of the side to move lands on `pos`.
pub fn attacks_square(board_state: &BoardState, pos: BoardPosition) -> (r: bool)
    ensures
        r == move_lands_on(board_state@, pos.x as int, pos.y as int),
{
    let mut actions: Vec<Action> = Vec::new();
    push_pseudo_actions(board_state, &mut actions);
    let r = any_lands_on(&actions, pos);
    proof {
        if r {
            let a = choose|a: Action| #[trigger] actions@.contains(a) && lands_on(a, pos.x as int, pos.y as int);
            assert(pseudo_action(board_state@, a));
        } else {
            assert forall|a: Action| #[trigger] pseudo_action(board_state@, a) implies !lands_on(a, pos.x as int, pos.y as int) by {
                assert(actions@.contains(a));
            }
        }
    }
    r
}


/// A king of color `c` stands on a square that a pseudo-legal move of the
/// opponent lands on.
pub open spec fn king_attacked(b: BoardView, c: PieceColor) -> bool {
    exists|x: int, y: int|
        in_bounds(x, y) && #[trigger] b.cell(x, y) == Some(Piece { piece_type: PieceType::King, color: c })
            && move_lands_on(b.with_turn(c.opposite()), x, y)
}

/// True when the king of `color` is attacked by the opponent's pseudo-legal moves.
pub fn color_in_check(board_state: &BoardState, color: PieceColor) -> (r: bool)
    requires
        board_state@.has_king(color),
    ensures
        r == king_attacked(board_state@, color),
{
    king_in_check(board_state, color)
}

/// True when a king of `color` is attacked by the opponent's pseudo-legal moves;
/// false on a board without such a king.
pub(crate) fn king_in_check(board_state: &BoardState, color: PieceColor) -> (r: bool)
    ensures
        r == king_attacked(board_state@, color),
{
    let ghost b = board_state@;
    let mut opponent = *board_state;
    opponent.color_turn = color.opposite_color();
    assert(opponent@ == b.with_turn(color.opposite()));
    let mut opponent_actions: Vec<Action> = Vec::new();
    push_pseudo_actions(&opponent, &mut opponent_actions);
    let king = Piece::new(color, PieceType::King);
    let mut y: u8 = 0;
    while y < 8
        invariant
            b == board_state@,
            opponent@ == b.with_turn(color.opposite()),
            king == (Piece { piece_type: PieceType::King, color }),
            forall|a: Action| #[trigger] opponent_actions@.contains(a) <==> pseudo_action(opponent@, a),
            0 <= y <= 8,
            forall|xx: int, yy: int| 0 <= xx < 8 && 0 <= yy < y && #[trigger] b.cell(xx, yy) == Some(king)
                ==> !move_lands_on(opponent@, xx, yy),
        decreases 8 - y,
    {
        let mut x: u8 = 0;
        while x < 8
            invariant
                b == board_state@,
                opponent@ == b.with_turn(color.opposite()),
                king == (Piece { piece_type: PieceType::King, color }),
                forall|a: Action| #[trigger] opponent_actions@.contains(a) <==> pseudo_action(opponent@, a),
                0 <= y < 8,
                0 <= x <= 8,
                forall|xx: int, yy: int| 0 <= xx < 8 && 0 <= yy < y && #[trigger] b.cell(xx, yy) == Some(king)
                    ==> !move_lands_on(opponent@, xx, yy),
                forall|xx: int| 0 <= xx < x && #[trigger] b.cell(xx, y as int) == Some(king)
                    ==> !move_lands_on(opponent@, xx, y as int),
            decreases 8 - x,
        {
            let pos = BoardPosition::new(x, y);
            if same_piece(board_state.get(pos), king) {
                if any_lands_on(&opponent_actions, pos) {
                    proof {
                        let a = choose|a: Action| #[trigger] opponent_actions@.contains(a) && lands_on(a, x as int, y as int);
                        assert(pseudo_action(opponent@, a));
                        assert(b.cell(x as int, y as int) == Some(king));
                    }
                    return true;
                }
                proof {
                    assert forall|a: Action| #[trigger] pseudo_action(opponent@, a) implies !lands_on(a, x as int, y as int) by {
                        assert(opponent_actions@.contains(a));
                    }
                }
            }
            x += 1;
        }
        y += 1;
    }
    false
}

/// True when `cell` holds exactly `piece`.
fn same_piece(cell: Option<Piece>, piece: Piece) -> (r: bool)
    ensures
        r == (cell == Some(piece)),
{
    match cell {
        Some(p) => p == piece,
        None => false,
    }
}

/// The board on which castling is checked: kings of the side to move on the
/// king's start square and on the square it passes, the opponent to move.
pub open spec fn castle_probe(b: BoardView, kings_side: bool) -> BoardView {
    let c = b.turn;
    let r = c.home_rank();
    let king = Some(Piece { piece_type: PieceType::King, color: c });
    let passed = if kings_side { 5 } else { 3 };
    b.set(4, r, king).set(passed, r, king).with_turn(c.opposite())
}

/// The opponent attacks the king's start square or the square it passes through.
pub open spec fn castle_squares_attacked(b: BoardView, kings_side: bool) -> bool {
    let r = b.turn.home_rank();
    let passed = if kings_side { 5 } else { 3 };
    move_lands_on(castle_probe(b, kings_side), 4, r) || move_lands_on(castle_probe(b, kings_side), passed, r)
}

/// The squares between the king and the rook are empty.
pub open spec fn castle_path_empty(b: BoardView, kings_side: bool) -> bool {
    let r = b.turn.home_rank();
    if kings_side {
        b.cell(5, r) is None && b.cell(6, r) is None
    } else {
        b.cell(1, r) is None && b.cell(2, r) is None && b.cell(3, r) is None
    }
}

/// Castling of the side to move: the right is kept, the path is empty and
/// neither the king's square nor the one it passes is attacked.
pub open spec fn castle_action(b: BoardView, a: Action) -> bool {
    match a.action_type {
        ActionType::Castling { kings_side } => b.castle_right(b.turn, kings_side) && castle_path_empty(b, kings_side)
            && !castle_squares_attacked(b, kings_side),
        _ => false,
    }
}

/// A candidate move: pseudo-legal, or castling.
pub open spec fn candidate_action(b: BoardView, a: Action) -> bool {
    pseudo_action(b, a) || castle_action(b, a)
}

/// A legal move: a candidate after which the mover's king is not attacked.
pub open spec fn legal_action(b: BoardView, a: Action) -> bool {
    candidate_action(b, a) && !king_attacked(play(b, a.action_type), b.turn)
}

/// Castling moves.
pub struct CastlingActions;

impl CastlingActions {
    /// Places kings of the side to move on `first` and `second` and tells whether
    /// a pseudo-legal move of the opponent lands on either of them.
    fn positions_in_check(board_state: &BoardState, first: BoardPosition, second: BoardPosition) -> (r: bool)
        requires
            first.valid(),
            second.valid(),
        ensures
            r == ({
                let king = Some(Piece { piece_type: PieceType::King, color: board_state@.turn });
                let probe = board_state@.set(first.x as int, first.y as int, king).set(second.x as int, second.y as int, king)
                    .with_turn(board_state@.turn.opposite());
                move_lands_on(probe, first.x as int, first.y as int) || move_lands_on(probe, second.x as int, second.y as int)
            }),
    {
        let mut probe = *board_state;
        let king = Piece::new(board_state.color_turn, PieceType::King);
        probe.set(first, Some(king));
        probe.set(second, Some(king));
        probe.color_turn = board_state.color_turn.opposite_color();
        attacks_square(&probe, first) || attacks_square(&probe, second)
    }

    /// Appends the castling moves of the side to move, each once; the moves
    /// already there stay in front, in their order.
    pub fn update_actions(board_state: &BoardState, actions: &mut Vec<Action>)
        ensures
            extends(old(actions)@, final(actions)@),
            forall|a: Action| #[trigger] added(old(actions)@, final(actions)@).contains(a)
                <==> castle_action(board_state@, a),
            added(old(actions)@, final(actions)@).no_duplicates(),
            forall|a: Action| #[trigger] final(actions)@.contains(a) <==> (old(actions)@.contains(a)
                || castle_action(board_state@, a)),
    {
        let mut fresh: Vec<Action> = Vec::new();
        Self::push_castling(board_state, &mut fresh);
        let ghost new_moves = fresh@;
        actions.append(&mut fresh);
        proof {
            lemma_appended(old(actions)@, new_moves);
        }
    }

    /// Adds the castling moves of the side to move.
    fn push_castling(board_state: &BoardState, actions: &mut Vec<Action>)
        ensures
            forall|a: Action| #[trigger] final(actions)@.contains(a) <==> (old(actions)@.contains(a)
                || castle_action(board_state@, a)),
            old(actions)@.no_duplicates() && (forall|a: Action| #[trigger] old(actions)@.contains(a)
                ==> !castle_action(board_state@, a)) ==> final(actions)@.no_duplicates(),
    {
        let ghost b = board_state@;
        let color = board_state.color_turn;
        let (r, king_right, queen_right): (u8, bool, bool) = match color {
            PieceColor::White => (0, board_state.white_king_castle, board_state.white_queen_castle),
            PieceColor::Black => (7, board_state.black_king_castle, board_state.black_queen_castle),
        };
        let ghost start = actions@;
        if king_right && board_state.get(BoardPosition::new(5, r)).is_none()
            && board_state.get(BoardPosition::new(6, r)).is_none()
            && !Self::positions_in_check(board_state, BoardPosition::new(4, r), BoardPosition::new(5, r))
        {
            push_action(actions, Action::new(ActionType::Castling { kings_side: true }));
        }
        let ghost mid = actions@;
        assert forall|a: Action| #[trigger] mid.contains(a) <==> (start.contains(a)
            || (castle_action(b, a) && a.action_type == (ActionType::Castling { kings_side: true }))) by {}
        if queen_right && board_state.get(BoardPosition::new(1, r)).is_none()
            && board_state.get(BoardPosition::new(2, r)).is_none()
            && board_state.get(BoardPosition::new(3, r)).is_none()
            && !Self::positions_in_check(board_state, BoardPosition::new(4, r), BoardPosition::new(3, r))
        {
            push_action(actions, Action::new(ActionType::Castling { kings_side: false }));
        }
    }
}


/// Every candidate move of a position can be applied to it.
pub proof fn lemma_candidate_playable(board_state: BoardState, a: Action)
    requires
        candidate_action(board_state@, a),
    ensures
        playable(board_state@, a.action_type),
{
}

/// Whether the mover's king is safe after `a` is applied to `b`.
pub open spec fn keeps_king_safe(b: BoardView) -> spec_fn(Action) -> bool {
    |a: Action| !king_attacked(play(b, a.action_type), b.turn)
}

/// Whether `a` is a safe move in `b`.
pub open spec fn is_safe_in(b: BoardView) -> spec_fn(Action) -> bool {
    |a: Action| safe_action(b, a)
}

/// In a sequence free of duplicates, the element at `i` does not occur before `i`.
proof fn lemma_not_before(s: Seq<Action>, i: int)
    requires
        0 <= i < s.len(),
    ensures
        s.no_duplicates() ==> !s.subrange(0, i).contains(s[i]),
{
    if s.no_duplicates() && s.subrange(0, i).contains(s[i]) {
        let j = choose|j: int| 0 <= j < i && s.subrange(0, i)[j] == s[i];
        assert(s[j] == s[i]);
    }
}

/// The filter that drops moves after which the mover's own king is attacked.
pub struct RemoveIllegalActions;

impl RemoveIllegalActions {
    /// Keeps exactly the moves of `actions` after which the mover's king is not attacked.
    pub fn update_actions(board_state: &BoardState, actions: &mut Vec<Action>)
        requires
            forall|a: Action| #[trigger] old(actions)@.contains(a) ==> candidate_action(board_state@, a),
        ensures
            final(actions)@ == old(actions)@.filter(keeps_king_safe(board_state@)),
            forall|a: Action| #[trigger] final(actions)@.contains(a) <==> (old(actions)@.contains(a)
                && !king_attacked(play(board_state@, a.action_type), board_state@.turn)),
            old(actions)@.no_duplicates() ==> final(actions)@.no_duplicates(),
    {
        let ghost b = board_state@;
        let color = board_state.color_turn;
        let mut kept: Vec<Action> = Vec::new();
        let mut i: usize = 0;
        while i < actions.len()
            invariant
                b == board_state@,
                color == b.turn,
                0 <= i <= actions@.len(),
                forall|a: Action| #[trigger] actions@.contains(a) ==> candidate_action(b, a),
                forall|a: Action| #[trigger] kept@.contains(a) <==> (actions@.subrange(0, i as int).contains(a)
                    && !king_attacked(play(b, a.action_type), b.turn)),
                kept@ == actions@.subrange(0, i as int).filter(keeps_king_safe(b)),
                actions@.no_duplicates() ==> kept@.no_duplicates(),
            decreases actions.len() - i,
        {
            let a = actions[i];
            assert(actions@.contains(a));
            proof {
                lemma_candidate_playable(*board_state, a);
                assert(actions@.subrange(0, i + 1) =~= actions@.subrange(0, i as int).push(a));
                lemma_push_contains(actions@.subrange(0, i as int), a);
                actions@.subrange(0, i as int).lemma_filter_push(a, keeps_king_safe(b));
                lemma_not_before(actions@, i as int);
            }
            let mut next = *board_state;
            a.play_move(&mut next);
            if !king_in_check(&next, color) {
                push_action(&mut kept, a);
            }
            i += 1;
        }
        assert(actions@.subrange(0, actions@.len() as int) =~= actions@);
        *actions = kept;
    }
}

/// A move that keeps its target square empty, or castling: the moves searched at the horizon.
pub open spec fn safe_action(b: BoardView, a: Action) -> bool {
    match a.action_type {
        ActionType::SimpleMove { to, .. } => b.at(to) is None,
        ActionType::EnPassant { .. } => false,
        ActionType::Castling { .. } => true,
    }
}

/// The filter that keeps only quiet moves (no capture) and castling.
pub struct RemoveUnsafeActions;

impl RemoveUnsafeActions {
    fn is_safe(action: &Action, board_state: &BoardState) -> (r: bool)
        requires
            action.action_type is SimpleMove ==> action.action_type->SimpleMove_to.valid(),
        ensures
            r == safe_action(board_state@, *action),
    {
        match action.action_type {
            ActionType::SimpleMove { to, .. } => board_state.get(to).is_none(),
            ActionType::EnPassant { .. } => false,
            ActionType::Castling { .. } => true,
        }
    }

    /// Keeps exactly the safe moves of `actions`.
    pub fn update_actions(board_state: &BoardState, actions: &mut Vec<Action>)
        requires
            forall|a: Action| #[trigger] old(actions)@.contains(a) ==> candidate_action(board_state@, a),
        ensures
            final(actions)@ == old(actions)@.filter(is_safe_in(board_state@)),
            forall|a: Action| #[trigger] final(actions)@.contains(a) <==> (old(actions)@.contains(a)
                && safe_action(board_state@, a)),
            old(actions)@.no_duplicates() ==> final(actions)@.no_duplicates(),
    {
        let ghost b = board_state@;
        let mut kept: Vec<Action> = Vec::new();
        let mut i: usize = 0;
        while i < actions.len()
            invariant
                b == board_state@,
                0 <= i <= actions@.len(),
                forall|a: Action| #[trigger] actions@.contains(a) ==> candidate_action(b, a),
                forall|a: Action| #[trigger] kept@.contains(a) <==> (actions@.subrange(0, i as int).contains(a)
                    && safe_action(b, a)),
                kept@ == actions@.subrange(0, i as int).filter(is_safe_in(b)),
                actions@.no_duplicates() ==> kept@.no_duplicates(),
            decreases actions.len() - i,
        {
            let a = actions[i];
            assert(actions@.contains(a));
            proof {
                lemma_candidate_playable(*board_state, a);
                assert(actions@.subrange(0, i + 1) =~= actions@.subrange(0, i as int).push(a));
                lemma_push_contains(actions@.subrange(0, i as int), a);
                actions@.subrange(0, i as int).lemma_filter_push(a, is_safe_in(b));
                lemma_not_before(actions@, i as int);
            }
            if Self::is_safe(&a, board_state) {
                push_action(&mut kept, a);
            }
            i += 1;
        }
        assert(actions@.subrange(0, actions@.len() as int) =~= actions@);
        *actions = kept;
    }
}

/// Pawn moves.
pub struct PawnActions;

impl PawnActions {
    pub fn update_actions(board_state: &BoardState, actions: &mut Vec<Action>)
        ensures
            extends(old(actions)@, final(actions)@),
            forall|a: Action| #[trigger] added(old(actions)@, final(actions)@).contains(a)
                <==> pawn_action(board_state@, a),
            added(old(actions)@, final(actions)@).no_duplicates(),
            forall|a: Action| #[trigger] final(actions)@.contains(a) <==> (old(actions)@.contains(a)
                || pawn_action(board_state@, a)),
    {
        ActionRule::Pawn.update_actions(board_state, actions);
    }
}

/// Knight moves.
pub struct KnightActions;

impl KnightActions {
    pub fn update_actions(board_state: &BoardState, actions: &mut Vec<Action>)
        ensures
            extends(old(actions)@, final(actions)@),
            forall|a: Action| #[trigger] added(old(actions)@, final(actions)@).contains(a)
                <==> knight_action(board_state@, a),
            added(old(actions)@, final(actions)@).no_duplicates(),
            forall|a: Action| #[trigger] final(actions)@.contains(a) <==> (old(actions)@.contains(a)
                || knight_action(board_state@, a)),
    {
        ActionRule::Knight.update_actions(board_state, actions);
    }
}

/// Bishop and queen moves along the diagonals.
pub struct DiagonalActions;

impl DiagonalActions {
    pub fn update_actions(board_state: &BoardState, actions: &mut Vec<Action>)
        ensures
            extends(old(actions)@, final(actions)@),
            forall|a: Action| #[trigger] added(old(actions)@, final(actions)@).contains(a)
                <==> diagonal_action(board_state@, a),
            added(old(actions)@, final(actions)@).no_duplicates(),
            forall|a: Action| #[trigger] final(actions)@.contains(a) <==> (old(actions)@.contains(a)
                || diagonal_action(board_state@, a)),
    {
        ActionRule::Diagonal.update_actions(board_state, actions);
    }
}

/// Rook and queen moves along files and ranks.
pub struct StraightActions;

impl StraightActions {
    pub fn update_actions(board_state: &BoardState, actions: &mut Vec<Action>)
        ensures
            extends(old(actions)@, final(actions)@),
            forall|a: Action| #[trigger] added(old(actions)@, final(actions)@).contains(a)
                <==> straight_action(board_state@, a),
            added(old(actions)@, final(actions)@).no_duplicates(),
            forall|a: Action| #[trigger] final(actions)@.contains(a) <==> (old(actions)@.contains(a)
                || straight_action(board_state@, a)),
    {
        ActionRule::Straight.update_actions(board_state, actions);
    }
}

/// King steps (castling is separate).
pub struct KingActions;

impl KingActions {
    pub fn update_actions(board_state: &BoardState, actions: &mut Vec<Action>)
        ensures
            extends(old(actions)@, final(actions)@),
            forall|a: Action| #[trigger] added(old(actions)@, final(actions)@).contains(a)
                <==> king_action(board_state@, a),
            added(old(actions)@, final(actions)@).no_duplicates(),
            forall|a: Action| #[trigger] final(actions)@.contains(a) <==> (old(actions)@.contains(a)
                || king_action(board_state@, a)),
    {
        ActionRule::King.update_actions(board_state, actions);
    }
}

} // verus!
