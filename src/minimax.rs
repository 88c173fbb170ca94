use vstd::prelude::*;

use crate::action_rules::{lemma_candidate_playable, legal_action};
use crate::actions::{find_legal_actions, game_end, play, Action, GameEndState};
use crate::board_state::{BoardState, BoardView};
use crate::evaluator::{checkmate_score, full_score, heuristic_score, score_for_checkmate, Evaluator, Score};

verus! {

/// Search depth used in the opening and middlegame.
pub const DEFAULT_DEPTH: u8 = 7;

/// Search depth used when the endgame tables know the position: they supply
/// the play beyond it.
pub const ENDGAME_DEPTH: u8 = 1;

/// Why the search found no move.
#[derive(Copy, Clone, PartialEq, Eq, Structural, Debug)]
pub enum SearchError {
    /// The side to move has no legal move.
    NoLegalMove,
}

/// How many plies a child loses, by its place `i` in the move order, at remaining depth `depth`.
pub open spec fn depth_loss_spec(i: int, depth: int) -> int {
    if i < 3 || depth < 2 {
        1
    } else if i < 5 || depth < 3 {
        2
    } else {
        3
    }
}

/// The late-move reduction: the first three ordered children lose one ply,
/// the next two lose two, the others three (never more than is left).
pub fn depth_loss(i: usize, depth: u8) -> (r: u8)
    requires
        depth >= 1,
    ensures
        r as int == depth_loss_spec(i as int, depth as int),
        1 <= r <= depth,
{
    if i < 3 || depth < 2 {
        1
    } else if i < 5 || depth < 3 {
        2
    } else {
        3
    }
}

/// The score of a finished game found `moves_into_future` plies below the root.
fn game_end_score(end: GameEndState, moves_into_future: u8) -> (r: Score)
    ensures
        end == GameEndState::Draw ==> r == 0,
        end matches GameEndState::Win(c) ==> r as int == checkmate_score(c, moves_into_future as int),
{
    match end {
        GameEndState::Draw => 0,
        GameEndState::Win(color) => score_for_checkmate(color, moves_into_future),
    }
}

/// The positions reached by each of `actions`, in order.
fn child_positions(board_state: &BoardState, actions: &Vec<Action>) -> (r: Vec<BoardState>)
    requires
        forall|a: Action| #[trigger] actions@.contains(a) ==> legal_action(board_state@, a),
    ensures
        r@.len() == actions@.len(),
        forall|i: int| 0 <= i < r@.len() ==> #[trigger] r@[i]@ == play(board_state@, actions@[i].action_type),
{
    let mut children: Vec<BoardState> = Vec::with_capacity(actions.len());
    let mut i: usize = 0;
    while i < actions.len()
        invariant
            0 <= i <= actions@.len(),
            children@.len() == i,
            forall|j: int| 0 <= j < i ==> #[trigger] children@[j]@ == play(board_state@, actions@[j].action_type),
            forall|a: Action| #[trigger] actions@.contains(a) ==> legal_action(board_state@, a),
        decreases actions.len() - i,
    {
        let a = actions[i];
        assert(actions@.contains(a));
        proof {
            lemma_candidate_playable(*board_state, a);
        }
        let mut child = *board_state;
        a.play_move(&mut child);
        children.push(child);
        i += 1;
    }
    children
}

/// The quick estimate of the `i`-th child.
pub open spec fn estimate_of(children: Seq<BoardState>, i: int) -> int {
    heuristic_score(children[i]@)
}

/// Indices of `children` ordered by ascending quick estimate; children with
/// equal estimates keep their order.
fn order_by_estimate(evaluator: &Evaluator, children: &Vec<BoardState>) -> (r: Vec<usize>)
    ensures
        r@.len() == children@.len(),
        forall|j: int| 0 <= j < r@.len() ==> #[trigger] r@[j] < children@.len(),
        r@.no_duplicates(),
        forall|p: int, q: int| 0 <= p < q < r@.len() ==> estimate_of(children@, #[trigger] r@[p] as int)
            <= estimate_of(children@, #[trigger] r@[q] as int),
        forall|p: int, q: int| 0 <= p < q < r@.len() && estimate_of(children@, #[trigger] r@[p] as int)
            == estimate_of(children@, #[trigger] r@[q] as int) ==> r@[p] < r@[q],
{
    let mut order: Vec<usize> = Vec::with_capacity(children.len());
    let mut estimates: Vec<Score> = Vec::with_capacity(children.len());
    let mut k: usize = 0;
    while k < children.len()
        invariant
            0 <= k <= children@.len(),
            order@.len() == k,
            estimates@.len() == k,
            forall|j: int| 0 <= j < k ==> #[trigger] order@[j] < k,
            order@.no_duplicates(),
            forall|j: int| 0 <= j < k ==> #[trigger] estimates@[j] as int == estimate_of(children@, order@[j] as int),
            forall|p: int, q: int| 0 <= p < q < k ==> #[trigger] estimates@[p] <= #[trigger] estimates@[q],
            forall|p: int, q: int| 0 <= p < q < k && #[trigger] estimates@[p] == #[trigger] estimates@[q]
                ==> order@[p] < order@[q],
        decreases children.len() - k,
    {
        let estimate = evaluator.quick_evaluate(&children[k]);
        let mut pos: usize = 0;
        while pos < estimates.len() && estimates[pos] <= estimate
            invariant
                0 <= pos <= estimates@.len(),
                forall|j: int| 0 <= j < pos ==> #[trigger] estimates@[j] <= estimate,
            decreases estimates.len() - pos,
        {
            pos += 1;
        }
        let ghost old_estimates = estimates@;
        let ghost old_order = order@;
        assert(forall|j: int| pos <= j < k ==> #[trigger] old_estimates[j] > estimate) by {
            assert forall|j: int| pos <= j < k implies #[trigger] old_estimates[j] > estimate by {
                if j > pos {
                    assert(old_estimates[pos as int] <= old_estimates[j]);
                }
            }
        }
        estimates.insert(pos, estimate);
        order.insert(pos, k);
        proof {
            old_estimates.insert_ensures(pos as int, estimate);
            old_order.insert_ensures(pos as int, k);
            let e = estimates@;
            let o = order@;
            assert forall|j: int| 0 <= j < k + 1 implies #[trigger] o[j] < k + 1 by {
                if j != pos {
                    assert(o[j] == old_order[if j < pos { j } else { j - 1 }]);
                }
            }
            assert forall|j: int| 0 <= j < k + 1 implies #[trigger] e[j] as int == estimate_of(children@, o[j] as int) by {
                if j < pos {
                    assert(e[j] == old_estimates[j] && o[j] == old_order[j]);
                } else if j > pos {
                    assert(e[j] == old_estimates[j - 1] && o[j] == old_order[j - 1]);
                }
            }
            assert forall|p: int, q: int| 0 <= p < q < k + 1 implies #[trigger] e[p] <= #[trigger] e[q] by {
                if q < pos {
                    assert(e[p] == old_estimates[p] && e[q] == old_estimates[q]);
                } else if q == pos {
                    assert(e[p] == old_estimates[p]);
                } else if p > pos {
                    assert(e[p] == old_estimates[p - 1] && e[q] == old_estimates[q - 1]);
                } else if p == pos {
                    assert(e[q] == old_estimates[q - 1]);
                } else {
                    assert(e[p] == old_estimates[p] && e[q] == old_estimates[q - 1]);
                }
            }
            assert forall|p: int, q: int| 0 <= p < q < k + 1 && #[trigger] e[p] == #[trigger] e[q] implies o[p] < o[q] by {
                if q < pos {
                    assert(e[p] == old_estimates[p] && e[q] == old_estimates[q]);
                    assert(o[p] == old_order[p] && o[q] == old_order[q]);
                } else if q == pos {
                    assert(o[p] == old_order[p]);
                } else if p > pos {
                    assert(e[p] == old_estimates[p - 1] && e[q] == old_estimates[q - 1]);
                    assert(o[p] == old_order[p - 1] && o[q] == old_order[q - 1]);
                } else if p == pos {
                    assert(e[q] == old_estimates[q - 1]);
                } else {
                    assert(e[p] == old_estimates[p] && e[q] == old_estimates[q - 1]);
                    assert(old_estimates[p] <= estimate);
                }
            }
            assert forall|p: int, q: int| 0 <= p < o.len() && 0 <= q < o.len() && p != q implies o[p] != o[q] by {
                if p != pos && q != pos {
                    let pp = if p < pos { p } else { p - 1 };
                    let qq = if q < pos { q } else { q - 1 };
                    assert(o[p] == old_order[pp] && o[q] == old_order[qq]);
                } else if p == pos {
                    let qq = if q < pos { q } else { q - 1 };
                    assert(o[q] == old_order[qq]);
                } else {
                    let pp = if p < pos { p } else { p - 1 };
                    assert(o[p] == old_order[pp]);
                }
            }
        }
        k += 1;
    }
    assert forall|p: int, q: int| 0 <= p < q < order@.len() implies estimate_of(children@, #[trigger] order@[p] as int)
        <= estimate_of(children@, #[trigger] order@[q] as int) by {
        assert(estimates@[p] <= estimates@[q]);
    }
    assert forall|p: int, q: int| 0 <= p < q < order@.len() && estimate_of(children@, #[trigger] order@[p] as int)
        == estimate_of(children@, #[trigger] order@[q] as int) implies order@[p] < order@[q] by {
        assert(estimates@[p] == estimates@[q]);
    }
    order
}

/// What the search owes for a node of `b` with `depth` plies left, searched in
/// the window (`alpha`, `beta`): a finished game scores as a draw or as a mate
/// `max_depth - depth` plies below the root; a leaf of an unfinished game has
/// the full evaluation (whatever the endgame tables answer); an inner node's
/// value stays within the window.
#[verifier::opaque]
pub open spec fn search_value_ok(b: BoardView, max_depth: int, depth: int, alpha: int, beta: int, r: int) -> bool {
    match game_end(b) {
        Some(GameEndState::Draw) => r == 0,
        Some(GameEndState::Win(c)) => r == checkmate_score(c, max_depth - depth),
        None => if depth == 0 {
            exists|d: Option<i32>| r == full_score(b, d)
        } else {
            alpha <= beta ==> alpha <= r <= beta
        },
    }
}

/// The value of a position where the minimising side (White) moves, with
/// `depth` plies left, inside the window (`alpha`, `beta`).
fn min_value(evaluator: &Evaluator, max_depth: u8, board_state: &BoardState, depth: u8, alpha: Score, beta: Score) -> (r: Score)
    requires
        depth < max_depth,
    ensures
        search_value_ok(board_state@, max_depth as int, depth as int, alpha as int, beta as int, r as int),
    decreases depth,
{
    proof {
        reveal(search_value_ok);
    }
    let (actions, end) = find_legal_actions(board_state, depth == 1);
    match end {
        Some(e) => return game_end_score(e, max_depth - depth),
        None => {},
    }
    if depth == 0 {
        return evaluator.full_evaluate(board_state);
    }
    let children = child_positions(board_state, &actions);
    let order = order_by_estimate(evaluator, &children);
    let old_beta = beta;
    let mut beta = beta;
    let mut k: usize = 0;
    while k < order.len()
        invariant
            1 <= depth < max_depth,
            order@.len() == children@.len(),
            forall|j: int| 0 <= j < order@.len() ==> #[trigger] order@[j] < children@.len(),
            alpha <= old_beta ==> alpha <= beta <= old_beta,
            game_end(board_state@) is None,
        decreases order.len() - k,
    {
        let loss = depth_loss(k, depth);
        let score = max_value(evaluator, max_depth, &children[order[k]], depth - loss, alpha, beta);
        if score <= alpha {
            proof {
                reveal(search_value_ok);
            }
            return alpha;
        }
        if score < beta {
            beta = score;
        }
        k += 1;
    }
    beta
}

/// The value of a position where the maximising side (Black) moves, with
/// `depth` plies left, inside the window (`alpha`, `beta`).
fn max_value(evaluator: &Evaluator, max_depth: u8, board_state: &BoardState, depth: u8, alpha: Score, beta: Score) -> (r: Score)
    requires
        depth < max_depth,
    ensures
        search_value_ok(board_state@, max_depth as int, depth as int, alpha as int, beta as int, r as int),
    decreases depth,
{
    proof {
        reveal(search_value_ok);
    }
    let (actions, end) = find_legal_actions(board_state, depth == 1);
    match end {
        Some(e) => return game_end_score(e, max_depth - depth),
        None => {},
    }
    if depth == 0 {
        return evaluator.full_evaluate(board_state);
    }
    let children = child_positions(board_state, &actions);
    let order = order_by_estimate(evaluator, &children);
    let old_alpha = alpha;
    let mut alpha = alpha;
    let mut k: usize = 0;
    let n = order.len();
    while k < n
        invariant
            1 <= depth < max_depth,
            n == order@.len(),
            order@.len() == children@.len(),
            forall|j: int| 0 <= j < order@.len() ==> #[trigger] order@[j] < children@.len(),
            old_alpha <= beta ==> old_alpha <= alpha <= beta,
            game_end(board_state@) is None,
        decreases n - k,
    {
        let loss = depth_loss(k, depth);
        let score = min_value(evaluator, max_depth, &children[order[n - 1 - k]], depth - loss, alpha, beta);
        if score >= beta {
            proof {
                reveal(search_value_ok);
            }
            return beta;
        }
        if score > alpha {
            alpha = score;
        }
        k += 1;
    }
    alpha
}


/// Index of the first highest score among the first `n` of `scores`.
pub open spec fn first_best(scores: Seq<Score>, n: int) -> int
    decreases n,
{
    if n <= 1 {
        0
    } else {
        let b = first_best(scores, n - 1);
        if scores[n - 1] > scores[b] {
            n - 1
        } else {
            b
        }
    }
}

proof fn lemma_first_best_in_range(scores: Seq<Score>, n: int)
    requires
        n >= 1,
    ensures
        0 <= first_best(scores, n) < n,
    decreases n,
{
    if n > 1 {
        lemma_first_best_in_range(scores, n - 1);
    }
}

/// The best score among the first `i` root moves, `Score::MIN` before any.
pub open spec fn alpha_before(scores: Seq<Score>, i: int) -> int {
    if i <= 0 {
        Score::MIN as int
    } else {
        scores[first_best(scores, i)] as int
    }
}

/// Each of the first `n` root moves was searched in the window from the best
/// score before it up to `Score::MAX`, with one ply spent on the move itself.
pub open spec fn root_scores_ok(b: BoardView, max_depth: int, moves: Seq<Action>, scores: Seq<Score>, n: int) -> bool {
    forall|i: int| 0 <= i < n ==> search_value_ok(play(b, moves[i].action_type), max_depth, max_depth - 1,
        alpha_before(scores, i), Score::MAX as int, #[trigger] scores[i] as int)
}

/// `a` is the choice of a root search of `b` to `max_depth` plies that found
/// the legal moves `moves` (each once) with the scores `scores`: the first
/// move with the highest score.
pub open spec fn root_choice(b: BoardView, max_depth: int, moves: Seq<Action>, scores: Seq<Score>, a: Action) -> bool {
    &&& moves.no_duplicates()
    &&& forall|m: Action| #[trigger] moves.contains(m) <==> legal_action(b, m)
    &&& scores.len() == moves.len()
    &&& moves.len() > 0
    &&& root_scores_ok(b, max_depth, moves, scores, moves.len() as int)
    &&& a == moves[first_best(scores, moves.len() as int)]
}

/// A search from the root, one root move at a time, so that a caller can
/// report progress between steps. Black, the maximising side, is to move.
pub struct RootSearch {
    pub board_state: BoardState,
    pub max_depth: u8,
    /// The legal moves of the root position, in generation order.
    pub actions: Vec<Action>,
    /// How many root moves have been searched.
    pub next: usize,
    /// The best score so far.
    pub alpha: Score,
    pub best: Option<Action>,
    /// The score found for each searched root move.
    pub scores: Ghost<Seq<Score>>,
}

impl RootSearch {
    pub open spec fn wf(&self) -> bool {
        &&& 1 <= self.max_depth
        &&& self.next <= self.actions@.len()
        &&& forall|a: Action| #[trigger] self.actions@.contains(a) <==> legal_action(self.board_state@, a)
        &&& self.actions@.no_duplicates()
        &&& self.scores@.len() == self.next
        &&& root_scores_ok(self.board_state@, self.max_depth as int, self.actions@, self.scores@, self.next as int)
        &&& self.next == 0 ==> self.best is None && self.alpha == Score::MIN
        &&& self.next > 0 ==> {
            let i = first_best(self.scores@, self.next as int);
            &&& self.best == Some(self.actions@[i])
            &&& self.alpha == self.scores@[i]
        }
    }

    /// Starts a search of `board_state` to `max_depth` plies.
    pub fn new(board_state: &BoardState, max_depth: u8) -> (r: RootSearch)
        requires
            max_depth >= 1,
        ensures
            r.wf(),
            r.board_state == *board_state,
            r.max_depth == max_depth,
            r.next == 0,
    {
        let (actions, _) = find_legal_actions(board_state, false);
        RootSearch {
            board_state: *board_state,
            max_depth,
            actions,
            next: 0,
            alpha: Score::MIN,
            best: None,
            scores: Ghost(Seq::empty()),
        }
    }

    /// Number of root moves searched so far.
    pub fn completed(&self) -> (r: usize)
        ensures
            r == self.next,
    {
        self.next
    }

    /// Number of root moves.
    pub fn total(&self) -> (r: usize)
        ensures
            r == self.actions@.len(),
    {
        self.actions.len()
    }

    pub fn is_done(&self) -> (r: bool)
        requires
            self.wf(),
        ensures
            r == (self.next == self.actions@.len()),
    {
        self.next == self.actions.len()
    }

    /// Searches the next root move; it becomes the best when its score is
    /// strictly higher than the best so far.
    #[verifier::rlimit(60)]
    pub fn step(&mut self, evaluator: &Evaluator)
        requires
            old(self).wf(),
            old(self).next < old(self).actions@.len(),
        ensures
            final(self).wf(),
            final(self).board_state == old(self).board_state,
            final(self).max_depth == old(self).max_depth,
            final(self).actions@ == old(self).actions@,
            final(self).next == old(self).next + 1,
            final(self).scores@.len() == old(self).scores@.len() + 1,
            final(self).scores@.subrange(0, old(self).next as int) == old(self).scores@,
            search_value_ok(play(old(self).board_state@, old(self).actions@[old(self).next as int].action_type),
                old(self).max_depth as int, old(self).max_depth - 1, old(self).alpha as int, Score::MAX as int,
                final(self).scores@[old(self).next as int] as int),
    {
        let n = self.next;
        let total = self.actions.len();
        assert(n < total);
        let a = self.actions[n];
        assert(self.actions@.contains(a));
        proof {
            lemma_candidate_playable(self.board_state, a);
        }
        let mut child = self.board_state;
        a.play_move(&mut child);
        let score = min_value(evaluator, self.max_depth, &child, self.max_depth - 1, self.alpha, Score::MAX);
        let ghost old_scores = self.scores@;
        proof {
            self.scores@ = old_scores.push(score);
            assert(self.scores@.subrange(0, self.next as int) =~= old_scores);
            assert forall|i: int| 0 <= i <= self.next implies alpha_before(self.scores@, i) == alpha_before(old_scores, i) by {
                if i > 0 {
                    lemma_first_best_prefix(self.scores@, old_scores, i);
                    lemma_first_best_in_range(old_scores, i);
                }
            }
            assert(self.scores@[self.next as int] == score);
            if self.next > 0 {
                lemma_first_best_in_range(old_scores, self.next as int);
                assert(first_best(self.scores@, self.next as int) == first_best(old_scores, self.next as int)) by {
                    lemma_first_best_prefix(self.scores@, old_scores, self.next as int);
                }
            }
            assert(alpha_before(self.scores@, self.next as int) == self.alpha as int);
            let md = self.max_depth as int;
            let b = self.board_state@;
            assert forall|i: int| 0 <= i < self.next + 1 implies search_value_ok(play(b, self.actions@[i].action_type), md,
                md - 1, alpha_before(self.scores@, i), Score::MAX as int, #[trigger] self.scores@[i] as int) by {
                if i < self.next {
                    assert(self.scores@[i] == old_scores[i]);
                }
            }
        }
        if self.best.is_none() || score > self.alpha {
            self.alpha = score;
            self.best = Some(a);
        }
        self.next = n + 1;
    }

    /// The chosen move once every root move is searched: the first one with
    /// the highest score, or an error when there is no legal move.
    pub fn result(&self) -> (r: Result<Action, SearchError>)
        requires
            self.wf(),
            self.next == self.actions@.len(),
        ensures
            r is Err <==> (forall|a: Action| !#[trigger] legal_action(self.board_state@, a)),
            r matches Ok(a) ==> legal_action(self.board_state@, a)
                && a == self.actions@[first_best(self.scores@, self.next as int)]
                && root_choice(self.board_state@, self.max_depth as int, self.actions@, self.scores@, a),
    {
        match self.best {
            Some(a) => {
                proof {
                    lemma_first_best_in_range(self.scores@, self.next as int);
                    assert(self.actions@.contains(a));
                }
                Ok(a)
            },
            None => {
                assert forall|a: Action| !#[trigger] legal_action(self.board_state@, a) by {
                    if legal_action(self.board_state@, a) {
                        assert(self.actions@.contains(a));
                    }
                }
                Err(SearchError::NoLegalMove)
            },
        }
    }
}

/// `first_best` over a prefix depends only on that prefix.
proof fn lemma_first_best_prefix(longer: Seq<Score>, shorter: Seq<Score>, n: int)
    requires
        0 <= n <= shorter.len(),
        shorter.len() <= longer.len(),
        forall|i: int| 0 <= i < shorter.len() ==> longer[i] == shorter[i],
    ensures
        first_best(longer, n) == first_best(shorter, n),
    decreases n,
{
    if n > 1 {
        lemma_first_best_prefix(longer, shorter, n - 1);
        lemma_first_best_in_range(shorter, n - 1);
    }
}

/// The best move for Black, the maximising side, found by an alpha-beta
/// search of `max_depth` plies; an error when there is no legal move.
pub fn find_best_move(evaluator: &Evaluator, board_state: &BoardState, max_depth: u8) -> (r: Result<Action, SearchError>)
    requires
        max_depth >= 1,
    ensures
        r is Err <==> (forall|a: Action| !#[trigger] legal_action(board_state@, a)),
        r matches Ok(a) ==> legal_action(board_state@, a),
        r matches Ok(a) ==> exists|moves: Seq<Action>, scores: Seq<Score>|
            #[trigger] root_choice(board_state@, max_depth as int, moves, scores, a),
{
    let mut search = RootSearch::new(board_state, max_depth);
    while !search.is_done()
        invariant
            search.wf(),
            search.board_state == *board_state,
            search.max_depth == max_depth,
        decreases search.actions@.len() - search.next,
    {
        search.step(evaluator);
    }
    let r = search.result();
    proof {
        if let Ok(a) = r {
            assert(root_choice(board_state@, max_depth as int, search.actions@, search.scores@, a));
        }
    }
    r
}

} // verus!
