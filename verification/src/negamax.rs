//! Negamax search with alpha-beta pruning over the turn-based game model.
//!
//! The algorithm is first written down as the spec functions [`search_node`]
//! and [`search_from`]; the executable [`negamax`] is proved to return
//! exactly their value and to leave the searched state unchanged. The spec
//! functions are the reference for everything the crate proves about the
//! search: score bounds, determinism, the forced-win short-circuit, and the
//! depth-two avoidance of an immediate loss.

use vstd::prelude::*;

use crate::model::{GameState, MiniMaxGameState, MoveIterator, MoveOutcome, Player};

verus! {

/// The sentinel score of a won position. It is chosen below `i64::MAX` with a
/// small guard band, so that every score the search handles stays
/// representable after negation and after widening the window by one.
pub const MAX_SCORE: i64 = i64::MAX - 2;

/// The score a reported win is worth at the node where it is found: the
/// maximal score when the mover itself won, the minimal one when its
/// opponent did.
pub open spec fn win_score(winner: Player, active: Player) -> int {
    if winner == active {
        MAX_SCORE as int
    } else {
        -(MAX_SCORE as int)
    }
}

/// The value of one search node: at depth zero the heuristic value of the
/// state for its active player, otherwise the result of walking the state's
/// moves from the first one with the initial best score `-MAX_SCORE - 1`.
pub open spec fn search_node<GS: MiniMaxGameState>(
    g: GS,
    depth: int,
    alpha: int,
    beta: int,
) -> (int, Option<GS::Move>)
    decreases depth, 1int, 0int,
{
    if depth <= 0 {
        (g.spec_evaluate(g.spec_active_player()), None)
    } else {
        search_from(g, depth, alpha, beta, 0, -(MAX_SCORE as int) - 1, None)
    }
}

/// The remainder of a node's move loop, starting at move index `i` with the
/// accumulated best score, best move and alpha. One step scores move `i`
/// (recursing for `SwitchPlayer` with a negated, flipped window and for
/// `ContinuePlayer` with the same window), takes it as the new best when it
/// strictly improves the best score, stops the node at a reported win, raises
/// alpha, and stops the node when alpha reaches beta.
pub open spec fn search_from<GS: MiniMaxGameState>(
    g: GS,
    depth: int,
    alpha: int,
    beta: int,
    i: int,
    best_score: int,
    best_move: Option<GS::Move>,
) -> (int, Option<GS::Move>)
    decreases depth, 0int, g.spec_moves().len() - i,
{
    if depth <= 0 || i < 0 || i >= g.spec_moves().len() {
        (best_score, best_move)
    } else {
        let m = g.spec_moves()[i];
        let score = match g.spec_outcome(m) {
            MoveOutcome::PlayerWon(p) => win_score(p, g.spec_active_player()),
            MoveOutcome::Tie => 0,
            MoveOutcome::SwitchPlayer(_) => -search_node(
                g.spec_apply(m),
                depth - 1,
                -beta,
                -alpha,
            ).0,
            MoveOutcome::ContinuePlayer(_) => search_node(
                g.spec_apply(m),
                depth - 1,
                alpha,
                beta,
            ).0,
        };
        let new_best = if score > best_score {
            score
        } else {
            best_score
        };
        let new_move = if score > best_score {
            Some(m)
        } else {
            best_move
        };
        if g.spec_outcome(m) is PlayerWon {
            (new_best, new_move)
        } else {
            let new_alpha = if new_best > alpha {
                new_best
            } else {
                alpha
            };
            if new_alpha >= beta {
                (new_alpha, new_move)
            } else {
                search_from(g, depth, new_alpha, beta, i + 1, new_best, new_move)
            }
        }
    }
}

/// No node of the search tree of `g` up to `depth` runs out of moves without
/// a terminal outcome having been reported: every state still searched has at
/// least one move, as the game contract demands of reachable positions.
pub open spec fn no_dead_ends<GS: GameState>(g: GS, depth: int) -> bool
    decreases depth,
{
    depth <= 0 || {
        &&& g.spec_moves().len() > 0
        &&& forall|i: int|
            0 <= i < g.spec_moves().len() ==> match g.spec_outcome(
                #[trigger] g.spec_moves()[i],
            ) {
                MoveOutcome::PlayerWon(_) => true,
                MoveOutcome::Tie => true,
                MoveOutcome::SwitchPlayer(_) => no_dead_ends(
                    g.spec_apply(g.spec_moves()[i]),
                    depth - 1,
                ),
                MoveOutcome::ContinuePlayer(_) => no_dead_ends(
                    g.spec_apply(g.spec_moves()[i]),
                    depth - 1,
                ),
            }
    }
}

/// When the move loop reports a best move, that move is one of the node's
/// moves or the best move it started with.
proof fn lemma_search_from_in_moves<GS: MiniMaxGameState>(
    g: GS,
    depth: int,
    alpha: int,
    beta: int,
    i: int,
    best_score: int,
    best_move: Option<GS::Move>,
)
    requires
        best_move matches Some(m) ==> g.spec_moves().contains(m),
    ensures
        search_from(g, depth, alpha, beta, i, best_score, best_move).1 matches Some(m)
            ==> g.spec_moves().contains(m),
    decreases depth, 0int, g.spec_moves().len() - i,
{
    if depth <= 0 || i < 0 || i >= g.spec_moves().len() {
    } else {
        let m = g.spec_moves()[i];
        assert(g.spec_moves().contains(m));
        let score = match g.spec_outcome(m) {
            MoveOutcome::PlayerWon(p) => win_score(p, g.spec_active_player()),
            MoveOutcome::Tie => 0,
            MoveOutcome::SwitchPlayer(_) => -search_node(g.spec_apply(m), depth - 1, -beta, -alpha).0,
            MoveOutcome::ContinuePlayer(_) => search_node(g.spec_apply(m), depth - 1, alpha, beta).0,
        };
        let new_best = if score > best_score { score } else { best_score };
        let new_move = if score > best_score { Some(m) } else { best_move };
        if !(g.spec_outcome(m) is PlayerWon) {
            let new_alpha = if new_best > alpha { new_best } else { alpha };
            if new_alpha < beta {
                lemma_search_from_in_moves(g, depth, new_alpha, beta, i + 1, new_best, new_move);
            }
        }
    }
}

/// When the search of a node reports a best move, that move is one of the
/// node's legal moves.
pub proof fn lemma_search_move_in_moves<GS: MiniMaxGameState>(
    g: GS,
    depth: int,
    alpha: int,
    beta: int,
)
    ensures
        search_node(g, depth, alpha, beta).1 matches Some(m) ==> g.spec_moves().contains(m),
{
    if depth > 0 {
        lemma_search_from_in_moves(
            g,
            depth,
            alpha,
            beta,
            0,
            -(MAX_SCORE as int) - 1,
            None,
        );
    }
}

/// As long as no node in reach runs out of moves, the move loop keeps its
/// value inside `[-MAX_SCORE, MAX_SCORE]` and always settles on a move.
proof fn lemma_no_dead_ends_from<GS: MiniMaxGameState>(
    g: GS,
    depth: int,
    alpha: int,
    beta: int,
    i: int,
    best_score: int,
    best_move: Option<GS::Move>,
)
    requires
        no_dead_ends(g, depth),
        depth >= 1,
        0 <= i <= g.spec_moves().len(),
        -(MAX_SCORE as int) - 1 <= alpha <= MAX_SCORE as int,
        -(MAX_SCORE as int) <= beta <= MAX_SCORE as int + 1,
        if best_move is Some {
            -(MAX_SCORE as int) <= best_score <= MAX_SCORE as int
        } else {
            best_score == -(MAX_SCORE as int) - 1 && i < g.spec_moves().len()
        },
    ensures
        -(MAX_SCORE as int) <= search_from(g, depth, alpha, beta, i, best_score, best_move).0
            <= MAX_SCORE as int,
        search_from(g, depth, alpha, beta, i, best_score, best_move).1 is Some,
    decreases depth, 0int, g.spec_moves().len() - i,
{
    if i >= g.spec_moves().len() {
    } else {
        let m = g.spec_moves()[i];
        match g.spec_outcome(m) {
            MoveOutcome::SwitchPlayer(_) => {
                lemma_no_dead_ends_node(g.spec_apply(m), depth - 1, -beta, -alpha);
            },
            MoveOutcome::ContinuePlayer(_) => {
                lemma_no_dead_ends_node(g.spec_apply(m), depth - 1, alpha, beta);
            },
            _ => {},
        }
        let score = match g.spec_outcome(m) {
            MoveOutcome::PlayerWon(p) => win_score(p, g.spec_active_player()),
            MoveOutcome::Tie => 0,
            MoveOutcome::SwitchPlayer(_) => -search_node(g.spec_apply(m), depth - 1, -beta, -alpha).0,
            MoveOutcome::ContinuePlayer(_) => search_node(g.spec_apply(m), depth - 1, alpha, beta).0,
        };
        assert(-(MAX_SCORE as int) <= score <= MAX_SCORE as int);
        let new_best = if score > best_score { score } else { best_score };
        let new_move = if score > best_score { Some(m) } else { best_move };
        if !(g.spec_outcome(m) is PlayerWon) {
            let new_alpha = if new_best > alpha { new_best } else { alpha };
            if new_alpha < beta {
                lemma_no_dead_ends_from(g, depth, new_alpha, beta, i + 1, new_best, new_move);
            }
        }
    }
}

/// As long as no node in reach runs out of moves, a node's value lies inside
/// `[-MAX_SCORE, MAX_SCORE]`, and at depth one or more the node settles on a
/// move.
proof fn lemma_no_dead_ends_node<GS: MiniMaxGameState>(g: GS, depth: int, alpha: int, beta: int)
    requires
        no_dead_ends(g, depth),
        depth >= 0,
        -(MAX_SCORE as int) - 1 <= alpha <= MAX_SCORE as int,
        -(MAX_SCORE as int) <= beta <= MAX_SCORE as int + 1,
    ensures
        -(MAX_SCORE as int) <= search_node(g, depth, alpha, beta).0 <= MAX_SCORE as int,
        depth >= 1 ==> search_node(g, depth, alpha, beta).1 is Some,
    decreases depth, 1int, 0int,
{
    if depth <= 0 {
        g.lemma_evaluate_bounded(g.spec_active_player());
    } else {
        lemma_no_dead_ends_from(
            g,
            depth,
            alpha,
            beta,
            0,
            -(MAX_SCORE as int) - 1,
            None,
        );
    }
}

/// Score bound: the score of a full-window search of a state in which the
/// game contract leaves no dead end never exceeds `MAX_SCORE` in magnitude,
/// and any such search at depth one or more finds a move.
pub proof fn lemma_score_bound<GS: MiniMaxGameState>(g: GS, depth: int)
    requires
        depth >= 0,
        no_dead_ends(g, depth),
    ensures
        -(MAX_SCORE as int) <= search_node(
            g,
            depth,
            -(MAX_SCORE as int) - 1,
            MAX_SCORE as int + 1,
        ).0 <= MAX_SCORE as int,
        depth >= 1 ==> search_node(
            g,
            depth,
            -(MAX_SCORE as int) - 1,
            MAX_SCORE as int + 1,
        ).1 is Some,
{
    lemma_no_dead_ends_node(g, depth, -(MAX_SCORE as int) - 1, MAX_SCORE as int + 1);
}

/// Determinism: the result of a search is a function of the state and the
/// depth alone, so two searches of logically identical states return the
/// identical score and move.
pub proof fn lemma_search_deterministic<GS: MiniMaxGameState>(g1: GS, g2: GS, depth: int)
    requires
        g1 == g2,
    ensures
        search_node(g1, depth, -(MAX_SCORE as int) - 1, MAX_SCORE as int + 1) == search_node(
            g2,
            depth,
            -(MAX_SCORE as int) - 1,
            MAX_SCORE as int + 1,
        ),
{
}

/// Some move of `g` wins for the side to move at once, and no move of `g`
/// hands the win to the opponent instead. Under this condition a search of
/// `g` short-circuits into the win.
pub open spec fn forced_win_now<GS: GameState>(g: GS) -> bool {
    &&& exists|i: int|
        0 <= i < g.spec_moves().len() && g.spec_outcome(#[trigger] g.spec_moves()[i])
            == MoveOutcome::PlayerWon(g.spec_active_player())
    &&& forall|i: int|
        0 <= i < g.spec_moves().len() ==> (g.spec_outcome(#[trigger] g.spec_moves()[i])
            matches MoveOutcome::PlayerWon(p) ==> p == g.spec_active_player())
}

/// A move loop that still has a winning move ahead of it either reaches the
/// winning score or stops at a beta cutoff at or above its window's top.
proof fn lemma_forced_win_from<GS: MiniMaxGameState>(
    g: GS,
    depth: int,
    alpha: int,
    beta: int,
    i: int,
    best_score: int,
    best_move: Option<GS::Move>,
)
    requires
        no_dead_ends(g, depth),
        depth >= 1,
        0 <= i < g.spec_moves().len(),
        -(MAX_SCORE as int) - 1 <= alpha <= MAX_SCORE as int,
        -(MAX_SCORE as int) <= beta <= MAX_SCORE as int + 1,
        -(MAX_SCORE as int) - 1 <= best_score <= MAX_SCORE as int,
        exists|j: int|
            i <= j < g.spec_moves().len() && g.spec_outcome(#[trigger] g.spec_moves()[j])
                == MoveOutcome::PlayerWon(g.spec_active_player()),
        forall|j: int|
            i <= j < g.spec_moves().len() ==> (g.spec_outcome(#[trigger] g.spec_moves()[j])
                matches MoveOutcome::PlayerWon(p) ==> p == g.spec_active_player()),
    ensures
        search_from(g, depth, alpha, beta, i, best_score, best_move).0 == MAX_SCORE as int
            || search_from(g, depth, alpha, beta, i, best_score, best_move).0 >= beta,
    decreases g.spec_moves().len() - i,
{
    let m = g.spec_moves()[i];
    if g.spec_outcome(m) is PlayerWon {
    } else {
        match g.spec_outcome(m) {
            MoveOutcome::SwitchPlayer(_) => {
                lemma_no_dead_ends_node(g.spec_apply(m), depth - 1, -beta, -alpha);
            },
            MoveOutcome::ContinuePlayer(_) => {
                lemma_no_dead_ends_node(g.spec_apply(m), depth - 1, alpha, beta);
            },
            _ => {},
        }
        let score = match g.spec_outcome(m) {
            MoveOutcome::PlayerWon(p) => win_score(p, g.spec_active_player()),
            MoveOutcome::Tie => 0,
            MoveOutcome::SwitchPlayer(_) => -search_node(g.spec_apply(m), depth - 1, -beta, -alpha).0,
            MoveOutcome::ContinuePlayer(_) => search_node(g.spec_apply(m), depth - 1, alpha, beta).0,
        };
        assert(-(MAX_SCORE as int) <= score <= MAX_SCORE as int);
        let new_best = if score > best_score { score } else { best_score };
        let new_move = if score > best_score { Some(m) } else { best_move };
        let new_alpha = if new_best > alpha { new_best } else { alpha };
        if new_alpha < beta {
            let j = choose|j: int|
                i <= j < g.spec_moves().len() && g.spec_outcome(#[trigger] g.spec_moves()[j])
                    == MoveOutcome::PlayerWon(g.spec_active_player());
            assert(j != i);
            assert(i + 1 <= j < g.spec_moves().len() && g.spec_outcome(g.spec_moves()[j])
                == MoveOutcome::PlayerWon(g.spec_active_player()));
            lemma_forced_win_from(g, depth, new_alpha, beta, i + 1, new_best, new_move);
        }
    }
}

/// Forced-win short-circuit: when some move of `g` wins at once for the side
/// to move (and no move hands the win to the opponent), a full-window search
/// at depth one or more scores `g` at exactly `MAX_SCORE` and reports a
/// move.
pub proof fn lemma_forced_win<GS: MiniMaxGameState>(g: GS, depth: int)
    requires
        depth >= 1,
        no_dead_ends(g, depth),
        forced_win_now(g),
    ensures
        search_node(g, depth, -(MAX_SCORE as int) - 1, MAX_SCORE as int + 1).0
            == MAX_SCORE as int,
        search_node(g, depth, -(MAX_SCORE as int) - 1, MAX_SCORE as int + 1).1 is Some,
{
    lemma_forced_win_node(g, depth, -(MAX_SCORE as int) - 1, MAX_SCORE as int + 1);
}

/// Step by step up to the first reported win, two nodes that agree on their
/// first `k + 1` moves walk their move loops identically and stop at move
/// `k`, whatever moves follow it.
proof fn lemma_win_short_circuit_from<GS: MiniMaxGameState>(
    g: GS,
    h: GS,
    depth: int,
    alpha: int,
    beta: int,
    i: int,
    k: int,
    best_score: int,
    best_move: Option<GS::Move>,
)
    requires
        depth >= 1,
        g.spec_active_player() == h.spec_active_player(),
        0 <= i <= k < g.spec_moves().len(),
        k < h.spec_moves().len(),
        forall|j: int| 0 <= j <= k ==> #[trigger] g.spec_moves()[j] == h.spec_moves()[j],
        forall|j: int|
            0 <= j <= k ==> g.spec_outcome(#[trigger] g.spec_moves()[j]) == h.spec_outcome(
                h.spec_moves()[j],
            ),
        forall|j: int|
            0 <= j <= k ==> g.spec_apply(#[trigger] g.spec_moves()[j]) == h.spec_apply(
                h.spec_moves()[j],
            ),
        g.spec_outcome(g.spec_moves()[k]) is PlayerWon,
        forall|j: int|
            0 <= j < k ==> !(g.spec_outcome(#[trigger] g.spec_moves()[j]) is PlayerWon),
    ensures
        search_from(g, depth, alpha, beta, i, best_score, best_move) == search_from(
            h,
            depth,
            alpha,
            beta,
            i,
            best_score,
            best_move,
        ),
    decreases k - i,
{
    let m = g.spec_moves()[i];
    assert(h.spec_moves()[i] == m);
    let score = match g.spec_outcome(m) {
        MoveOutcome::PlayerWon(p) => win_score(p, g.spec_active_player()),
        MoveOutcome::Tie => 0,
        MoveOutcome::SwitchPlayer(_) => -search_node(g.spec_apply(m), depth - 1, -beta, -alpha).0,
        MoveOutcome::ContinuePlayer(_) => search_node(g.spec_apply(m), depth - 1, alpha, beta).0,
    };
    if !(g.spec_outcome(m) is PlayerWon) {
        let new_best = if score > best_score { score } else { best_score };
        let new_move = if score > best_score { Some(m) } else { best_move };
        let new_alpha = if new_best > alpha { new_best } else { alpha };
        if new_alpha < beta {
            lemma_win_short_circuit_from(g, h, depth, new_alpha, beta, i + 1, k, new_best, new_move);
        }
    }
}

/// The forced-win short-circuit examines nothing past the win: the value of
/// a node depends only on the moves up to and including the first one whose
/// outcome is a reported win. Two states that agree on the active player and
/// on the values, outcomes and resulting states of their first `k + 1` moves
/// — where move `k` reports a win and no earlier one does — search to the
/// identical score and move under any window, whatever moves follow.
pub proof fn lemma_win_short_circuit<GS: MiniMaxGameState>(
    g: GS,
    h: GS,
    depth: int,
    alpha: int,
    beta: int,
    k: int,
)
    requires
        depth >= 1,
        g.spec_active_player() == h.spec_active_player(),
        0 <= k < g.spec_moves().len(),
        k < h.spec_moves().len(),
        forall|j: int| 0 <= j <= k ==> #[trigger] g.spec_moves()[j] == h.spec_moves()[j],
        forall|j: int|
            0 <= j <= k ==> g.spec_outcome(#[trigger] g.spec_moves()[j]) == h.spec_outcome(
                h.spec_moves()[j],
            ),
        forall|j: int|
            0 <= j <= k ==> g.spec_apply(#[trigger] g.spec_moves()[j]) == h.spec_apply(
                h.spec_moves()[j],
            ),
        g.spec_outcome(g.spec_moves()[k]) is PlayerWon,
        forall|j: int|
            0 <= j < k ==> !(g.spec_outcome(#[trigger] g.spec_moves()[j]) is PlayerWon),
    ensures
        search_node(g, depth, alpha, beta) == search_node(h, depth, alpha, beta),
{
    lemma_win_short_circuit_from(
        g,
        h,
        depth,
        alpha,
        beta,
        0,
        k,
        -(MAX_SCORE as int) - 1,
        None,
    );
}

/// A node's value either reaches `MAX_SCORE` or stops at a beta cutoff at or
/// above the window's top whenever the node holds a forced win, and it stays
/// inside the score band.
proof fn lemma_forced_win_node<GS: MiniMaxGameState>(g: GS, depth: int, alpha: int, beta: int)
    requires
        forced_win_now(g),
        no_dead_ends(g, depth),
        depth >= 1,
        -(MAX_SCORE as int) - 1 <= alpha <= MAX_SCORE as int,
        -(MAX_SCORE as int) <= beta <= MAX_SCORE as int + 1,
    ensures
        search_node(g, depth, alpha, beta).0 == MAX_SCORE as int || search_node(
            g,
            depth,
            alpha,
            beta,
        ).0 >= beta,
        -(MAX_SCORE as int) <= search_node(g, depth, alpha, beta).0 <= MAX_SCORE as int,
        search_node(g, depth, alpha, beta).1 is Some,
{
    lemma_no_dead_ends_node(g, depth, alpha, beta);
    lemma_forced_win_from(
        g,
        depth,
        alpha,
        beta,
        0,
        -(MAX_SCORE as int) - 1,
        None,
    );
}

/// Every reply the opponent state `g1` has scores strictly below the win
/// score for `g1`'s side to move at depth one: no reply wins outright for
/// that side, and no resulting position's heuristic reaches the win score
/// from its perspective.
pub open spec fn replies_below_max<GS: MiniMaxGameState>(g1: GS) -> bool {
    forall|i: int|
        0 <= i < g1.spec_moves().len() ==> match g1.spec_outcome(
            #[trigger] g1.spec_moves()[i],
        ) {
            MoveOutcome::PlayerWon(p) => p != g1.spec_active_player(),
            MoveOutcome::Tie => true,
            MoveOutcome::SwitchPlayer(_) => {
                let g2 = g1.spec_apply(g1.spec_moves()[i]);
                -(MAX_SCORE as int) < g2.spec_evaluate(g2.spec_active_player())
            },
            MoveOutcome::ContinuePlayer(_) => {
                let g2 = g1.spec_apply(g1.spec_moves()[i]);
                g2.spec_evaluate(g2.spec_active_player()) < MAX_SCORE as int
            },
        }
}

/// A depth-one move loop over a state whose replies all score below the win
/// score keeps its value strictly below the win score.
proof fn lemma_depth1_from_below_max<GS: MiniMaxGameState>(
    g1: GS,
    alpha: int,
    beta: int,
    i: int,
    best_score: int,
    best_move: Option<GS::Move>,
)
    requires
        replies_below_max(g1),
        alpha < MAX_SCORE as int,
        best_score < MAX_SCORE as int,
    ensures
        search_from(g1, 1, alpha, beta, i, best_score, best_move).0 < MAX_SCORE as int,
    decreases g1.spec_moves().len() - i,
{
    if i < 0 || i >= g1.spec_moves().len() {
    } else {
        let m = g1.spec_moves()[i];
        let score = match g1.spec_outcome(m) {
            MoveOutcome::PlayerWon(p) => win_score(p, g1.spec_active_player()),
            MoveOutcome::Tie => 0,
            MoveOutcome::SwitchPlayer(_) => -search_node(g1.spec_apply(m), 0, -beta, -alpha).0,
            MoveOutcome::ContinuePlayer(_) => search_node(g1.spec_apply(m), 0, alpha, beta).0,
        };
        assert(score < MAX_SCORE as int);
        let new_best = if score > best_score { score } else { best_score };
        let new_move = if score > best_score { Some(m) } else { best_move };
        if !(g1.spec_outcome(m) is PlayerWon) {
            let new_alpha = if new_best > alpha { new_best } else { alpha };
            if new_alpha < beta {
                lemma_depth1_from_below_max(g1, new_alpha, beta, i + 1, new_best, new_move);
            }
        }
    }
}

/// A depth-one node over a state whose replies all score below the win score
/// has a value strictly below the win score, for any window top.
proof fn lemma_depth1_below_max<GS: MiniMaxGameState>(g1: GS, beta: int)
    requires
        replies_below_max(g1),
    ensures
        search_node(g1, 1, -(MAX_SCORE as int) - 1, beta).0 < MAX_SCORE as int,
{
    lemma_depth1_from_below_max(
        g1,
        -(MAX_SCORE as int) - 1,
        beta,
        0,
        -(MAX_SCORE as int) - 1,
        None,
    );
}

/// Once the safe move `k` has been taken as the best move with a score above
/// the loss score, none of the remaining moves — all of which run into a
/// forced win of the opponent — replaces it.
proof fn lemma_avoid_loss_tail<GS: MiniMaxGameState>(
    g: GS,
    k: int,
    i: int,
    best_score: int,
    best_move: Option<GS::Move>,
)
    requires
        no_dead_ends(g, 2),
        0 <= k < i <= g.spec_moves().len(),
        forall|j: int|
            0 <= j < g.spec_moves().len() ==> g.spec_outcome(
                #[trigger] g.spec_moves()[j],
            ) is SwitchPlayer,
        forall|j: int|
            0 <= j < g.spec_moves().len() && j != k ==> forced_win_now(
                g.spec_apply(#[trigger] g.spec_moves()[j]),
            ),
        -(MAX_SCORE as int) < best_score <= MAX_SCORE as int,
        best_move is Some,
    ensures
        search_from(g, 2, best_score, MAX_SCORE as int + 1, i, best_score, best_move) == (
            best_score,
            best_move,
        ),
    decreases g.spec_moves().len() - i,
{
    if i >= g.spec_moves().len() {
    } else {
        let m = g.spec_moves()[i];
        let child = g.spec_apply(m);
        lemma_forced_win_node(child, 1, -(MAX_SCORE as int) - 1, -best_score);
        let score = -search_node(child, 1, -(MAX_SCORE as int) - 1, -best_score).0;
        assert(score <= best_score);
        lemma_avoid_loss_tail(g, k, i + 1, best_score, best_move);
    }
}

/// Walking the moves up to the safe move `k` never improves on the loss
/// score, and at `k` the search takes the safe move and keeps it.
proof fn lemma_avoid_loss_from<GS: MiniMaxGameState>(
    g: GS,
    k: int,
    i: int,
    alpha: int,
    best_score: int,
    best_move: Option<GS::Move>,
)
    requires
        no_dead_ends(g, 2),
        0 <= i <= k < g.spec_moves().len(),
        forall|j: int|
            0 <= j < g.spec_moves().len() ==> g.spec_outcome(
                #[trigger] g.spec_moves()[j],
            ) is SwitchPlayer,
        forall|j: int|
            0 <= j < g.spec_moves().len() && j != k ==> forced_win_now(
                g.spec_apply(#[trigger] g.spec_moves()[j]),
            ),
        replies_below_max(g.spec_apply(g.spec_moves()[k])),
        if i == 0 {
            alpha == -(MAX_SCORE as int) - 1 && best_score == -(MAX_SCORE as int) - 1
                && best_move is None
        } else {
            alpha == -(MAX_SCORE as int) && best_score == -(MAX_SCORE as int)
                && best_move is Some
        },
    ensures
        search_from(g, 2, alpha, MAX_SCORE as int + 1, i, best_score, best_move).1 == Some(
            g.spec_moves()[k],
        ),
        -(MAX_SCORE as int) < search_from(
            g,
            2,
            alpha,
            MAX_SCORE as int + 1,
            i,
            best_score,
            best_move,
        ).0 <= MAX_SCORE as int,
    decreases k - i,
{
    let m = g.spec_moves()[i];
    let child = g.spec_apply(m);
    if i < k {
        lemma_forced_win_node(child, 1, -(MAX_SCORE as int) - 1, -alpha);
        let score = -search_node(child, 1, -(MAX_SCORE as int) - 1, -alpha).0;
        assert(score == -(MAX_SCORE as int));
        lemma_avoid_loss_from(
            g,
            k,
            i + 1,
            -(MAX_SCORE as int),
            -(MAX_SCORE as int),
            if score > best_score { Some(m) } else { best_move },
        );
    } else {
        lemma_no_dead_ends_node(child, 1, -(MAX_SCORE as int) - 1, -alpha);
        lemma_depth1_below_max(child, -alpha);
        let score = -search_node(child, 1, -(MAX_SCORE as int) - 1, -alpha).0;
        assert(-(MAX_SCORE as int) < score <= MAX_SCORE as int);
        assert(score > best_score);
        lemma_avoid_loss_tail(g, k, i + 1, score, Some(m));
    }
}

/// Depth-two lookahead avoids an immediate loss: when every move of `g`
/// passes the turn, every move but the one at index `k` runs into a forced
/// win of the opponent on the following ply, and the move at `k` leaves the
/// opponent no reply scoring at the win score, then a full-window search of
/// `g` at depth two selects exactly the safe move, with a score above the
/// loss score.
pub proof fn lemma_avoid_immediate_loss<GS: MiniMaxGameState>(g: GS, k: int)
    requires
        no_dead_ends(g, 2),
        0 <= k < g.spec_moves().len(),
        forall|j: int|
            0 <= j < g.spec_moves().len() ==> g.spec_outcome(
                #[trigger] g.spec_moves()[j],
            ) is SwitchPlayer,
        forall|j: int|
            0 <= j < g.spec_moves().len() && j != k ==> forced_win_now(
                g.spec_apply(#[trigger] g.spec_moves()[j]),
            ),
        replies_below_max(g.spec_apply(g.spec_moves()[k])),
    ensures
        search_node(g, 2, -(MAX_SCORE as int) - 1, MAX_SCORE as int + 1).1 == Some(
            g.spec_moves()[k],
        ),
        search_node(g, 2, -(MAX_SCORE as int) - 1, MAX_SCORE as int + 1).0 > -(
        MAX_SCORE as int),
{
    lemma_avoid_loss_from(
        g,
        k,
        0,
        -(MAX_SCORE as int) - 1,
        -(MAX_SCORE as int) - 1,
        None,
    );
}

/// Searches `gs` to the given depth and returns the best reachable score
/// together with a move achieving it (`None` at depth zero). The state is
/// explored strictly in place and is restored exactly before returning; the
/// result is fully determined by the state, the depth and the game's move
/// order, as the postcondition equating it with [`search_node`] states.
pub fn negamax<GS: MiniMaxGameState>(gs: &mut GS, depth: i8) -> (r: (i64, Option<GS::Move>))
    requires
        0 <= depth,
    ensures
        *final(gs) == *old(gs),
        r.0 as int == search_node(
            *old(gs),
            depth as int,
            -(MAX_SCORE as int) - 1,
            MAX_SCORE as int + 1,
        ).0,
        r.1 == search_node(
            *old(gs),
            depth as int,
            -(MAX_SCORE as int) - 1,
            MAX_SCORE as int + 1,
        ).1,
        r.1 matches Some(m) ==> old(gs).spec_moves().contains(m),
        no_dead_ends(*old(gs), depth as int) ==> {
            &&& -(MAX_SCORE as int) <= r.0 as int <= MAX_SCORE as int
            &&& depth >= 1 ==> r.1 is Some
        },
{
    proof {
        lemma_search_move_in_moves(
            *gs,
            depth as int,
            -(MAX_SCORE as int) - 1,
            MAX_SCORE as int + 1,
        );
        if no_dead_ends(*gs, depth as int) {
            lemma_no_dead_ends_node(
                *gs,
                depth as int,
                -(MAX_SCORE as int) - 1,
                MAX_SCORE as int + 1,
            );
        }
    }
    negamax_impl(gs, depth, -MAX_SCORE - 1, MAX_SCORE + 1)
}

/// The recursive negamax worker over an explicit alpha-beta window.
fn negamax_impl<GS: MiniMaxGameState>(
    gs: &mut GS,
    depth: i8,
    alpha: i64,
    beta: i64,
) -> (r: (i64, Option<GS::Move>))
    requires
        0 <= depth,
        -(MAX_SCORE as int) - 1 <= alpha as int <= MAX_SCORE as int + 1,
        -(MAX_SCORE as int) - 1 <= beta as int <= MAX_SCORE as int + 1,
    ensures
        *final(gs) == *old(gs),
        r.0 as int == search_node(*old(gs), depth as int, alpha as int, beta as int).0,
        r.1 == search_node(*old(gs), depth as int, alpha as int, beta as int).1,
        -(MAX_SCORE as int) - 1 <= r.0 as int <= MAX_SCORE as int + 1,
    decreases depth as int,
{
    let ghost g0: GS = *gs;
    let active_player = gs.active_player();

    if depth == 0 {
        let score = gs.evaluate(&active_player);
        proof {
            g0.lemma_evaluate_bounded(g0.spec_active_player());
        }
        return (score, None);
    }

    let mut best_score: i64 = -MAX_SCORE - 1;
    let mut best_move: Option<GS::Move> = None;
    let mut cur_alpha: i64 = alpha;
    let mut move_iterator = gs.move_iterator();

    loop
        invariant
            *gs == g0,
            g0 == *old(gs),
            1 <= depth,
            active_player == g0.spec_active_player(),
            move_iterator.spec_moves() == g0.spec_moves(),
            move_iterator.spec_index() <= g0.spec_moves().len(),
            -(MAX_SCORE as int) - 1 <= alpha as int <= MAX_SCORE as int + 1,
            -(MAX_SCORE as int) - 1 <= beta as int <= MAX_SCORE as int + 1,
            -(MAX_SCORE as int) - 1 <= cur_alpha as int <= MAX_SCORE as int + 1,
            -(MAX_SCORE as int) - 1 <= best_score as int <= MAX_SCORE as int + 1,
            search_from(
                g0,
                depth as int,
                cur_alpha as int,
                beta as int,
                move_iterator.spec_index() as int,
                best_score as int,
                best_move,
            ) == search_node(g0, depth as int, alpha as int, beta as int),
        decreases g0.spec_moves().len() - move_iterator.spec_index(),
    {
        let m_opt = move_iterator.next(gs);
        match m_opt {
            None => {
                return (best_score, best_move);
            },
            Some(m) => {
                let ghost pos = (move_iterator.spec_index() - 1) as int;
                proof {
                    assert(g0.spec_moves()[pos] == m);
                    assert(g0.spec_moves().contains(m));
                }
                let outcome = gs.apply_move(&m);
                let (score, won): (i64, bool) = match outcome {
                    MoveOutcome::PlayerWon(p) => {
                        let s = if p == active_player {
                            MAX_SCORE
                        } else {
                            -MAX_SCORE
                        };
                        (s, true)
                    },
                    MoveOutcome::Tie => (0, false),
                    MoveOutcome::SwitchPlayer(_p) => {
                        let sub = negamax_impl(gs, depth - 1, -beta, -cur_alpha);
                        (-sub.0, false)
                    },
                    MoveOutcome::ContinuePlayer(_p) => {
                        let sub = negamax_impl(gs, depth - 1, cur_alpha, beta);
                        (sub.0, false)
                    },
                };
                gs.reverse_move(&m);
                proof {
                    g0.lemma_reverse_inverse(m);
                }
                if score > best_score {
                    best_score = score;
                    best_move = Some(m);
                }
                if won {
                    return (best_score, best_move);
                }
                if best_score > cur_alpha {
                    cur_alpha = best_score;
                }
                if cur_alpha >= beta {
                    return (cur_alpha, best_move);
                }
            },
        }
    }
}

} // verus!
