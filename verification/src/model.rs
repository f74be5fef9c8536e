//! The contract between a concrete game and the search engine.
//!
//! A conforming game supplies a mutable state type implementing [`GameState`],
//! a lazy move cursor implementing [`MoveIterator`], and — for depth-limited
//! search — a heuristic evaluation through [`MiniMaxGameState`].
//!
//! The contract is stated against a mathematical model that each game defines
//! through the trait's spec functions: the sequence of legal moves of a state
//! (`spec_moves`), the transition a move causes (`spec_apply`), the transition
//! that undoes it (`spec_reverse`), and the outcome a move reports
//! (`spec_outcome`). The central obligation is that reversing a move restores
//! the state that applying it started from.

use vstd::prelude::*;

use crate::negamax::MAX_SCORE;

verus! {

/// All the players of the game. This crate is for turn-based two-player
/// games, so there are exactly two.
#[derive(Copy, Clone, PartialEq, Eq, Hash, Debug, Structural)]
pub enum Player {
    Player1,
    Player2,
}

impl Player {
    /// The opponent of this player.
    pub fn other(self: &Self) -> (p: Player)
        ensures
            p == self.spec_other(),
    {
        match self {
            Player::Player1 => Player::Player2,
            Player::Player2 => Player::Player1,
        }
    }

    /// The opponent of this player, as a spec-level value.
    pub open spec fn spec_other(self) -> Player {
        match self {
            Player::Player1 => Player::Player2,
            Player::Player2 => Player::Player1,
        }
    }
}

/// Taking the opponent of a player twice gives the player back: `other` is
/// its own inverse.
pub proof fn lemma_other_involution(p: Player)
    ensures
        p.spec_other().spec_other() == p,
{
}

/// All the results applying a move can have. This is the only channel through
/// which a move's consequence reaches the search engine.
pub enum MoveOutcome {
    /// A player has won.
    PlayerWon(Player),
    /// The game ended in a tie.
    Tie,
    /// It is the other player's turn now.
    SwitchPlayer(Player),
    /// The same player makes the next move.
    ContinuePlayer(Player),
}

/// The complete state of a game: the board, the side to move, and any
/// auxiliary rights. The engine explores the game in place: it applies a move,
/// recurses, and reverses the move, so that a balanced apply/reverse pair has
/// no net effect on the state.
///
/// The spec functions define the game's mathematical model; the proof
/// function `lemma_reverse_inverse` obliges every implementation to make
/// `spec_reverse` an exact inverse of `spec_apply` on legal moves.
pub trait GameState: Sized {
    /// A duplicable value describing one move. A move must carry enough
    /// snapshot data (for example prior castling rights) to be reversed
    /// without consulting anything else.
    type Move: Clone;

    /// The lazy cursor over the legal moves of a state.
    type MoveIterator: MoveIterator<Move = Self::Move, GameState = Self>;

    /// The side to move in this state.
    spec fn spec_active_player(&self) -> Player;

    /// The legal moves of this state, in the order the cursor yields them.
    spec fn spec_moves(&self) -> Seq<Self::Move>;

    /// The outcome that applying `m` to this state reports.
    spec fn spec_outcome(&self, m: Self::Move) -> MoveOutcome;

    /// The state that applying `m` to this state produces.
    spec fn spec_apply(&self, m: Self::Move) -> Self;

    /// The state that reversing `m` in this state produces.
    spec fn spec_reverse(&self, m: Self::Move) -> Self;

    /// The central correctness obligation: reversing a legal move restores
    /// the exact state that applying it started from.
    proof fn lemma_reverse_inverse(&self, m: Self::Move)
        requires
            self.spec_moves().contains(m),
        ensures
            self.spec_apply(m).spec_reverse(m) == *self,
    ;

    /// The side to move. No side effects.
    fn active_player(self: &Self) -> (p: Player)
        ensures
            p == self.spec_active_player(),
    ;

    /// Builds a fresh cursor over the legal moves of the current state.
    /// Construction must not mutate the state.
    fn move_iterator(self: &Self) -> (it: Self::MoveIterator)
        ensures
            it.spec_index() == 0,
            it.spec_moves() == self.spec_moves(),
    ;

    /// Mutates the state to reflect `m` and reports the move's outcome.
    /// `m` must have been produced by a cursor built from the state's
    /// current value.
    fn apply_move(self: &mut Self, m: &Self::Move) -> (outcome: MoveOutcome)
        requires
            old(self).spec_moves().contains(*m),
        ensures
            *final(self) == old(self).spec_apply(*m),
            outcome == old(self).spec_outcome(*m),
    ;

    /// Exact inverse of the most recent `apply_move` of `m`: restores the
    /// position and all auxiliary rights.
    fn reverse_move(self: &mut Self, m: &Self::Move)
        requires
            exists|pre: Self|
                pre.spec_moves().contains(*m) && *old(self) == pre.spec_apply(*m),
        ensures
            *final(self) == old(self).spec_reverse(*m),
    ;
}

/// A stateful cursor producing the moves of a game state one at a time.
///
/// This is not a std iterator, because the game state is modified while the
/// engine iterates over the moves (moves are applied and reversed between two
/// calls of `next`); the state handed to `next` must hold the exact position
/// the cursor was built from. A cursor is single-pass and not restartable.
pub trait MoveIterator: Sized {
    /// The move type of the game this cursor belongs to.
    type Move;

    /// The game state type this cursor reads.
    type GameState;

    /// The full sequence of moves this cursor enumerates. A cursor built by
    /// `GameState::move_iterator` enumerates exactly the legal moves of the
    /// state it was built from.
    spec fn spec_moves(&self) -> Seq<Self::Move>;

    /// How many moves this cursor has yielded so far.
    spec fn spec_index(&self) -> nat;

    /// Yields the next move, or `None` once all moves have been yielded. The
    /// caller must hand back the state the cursor was built from, restored to
    /// the exact position it held at the cursor's construction.
    fn next(&mut self, gs: &Self::GameState) -> (m: Option<Self::Move>)
        ensures
            final(self).spec_moves() == old(self).spec_moves(),
            old(self).spec_index() < old(self).spec_moves().len() ==> {
                &&& final(self).spec_index() == old(self).spec_index() + 1
                &&& m == Some(old(self).spec_moves()[old(self).spec_index() as int])
            },
            old(self).spec_index() >= old(self).spec_moves().len() ==> {
                &&& final(self).spec_index() == old(self).spec_index()
                &&& m is None
            },
    ;
}

/// Undo invariant: for any state and any of its legal moves, applying the
/// move and then reversing it reproduces the state exactly — the active
/// player, the position, and all auxiliary rights. This holds for every
/// conforming game by the obligation `GameState::lemma_reverse_inverse`.
pub proof fn lemma_undo_invariant<GS: GameState>(g: GS, m: GS::Move)
    requires
        g.spec_moves().contains(m),
    ensures
        g.spec_apply(m).spec_reverse(m) == g,
{
    g.lemma_reverse_inverse(m);
}

/// Allows a game to be searched by the depth-limited engine. The engine cuts
/// the search off at depth zero and scores the position with `evaluate`; the
/// quality of that heuristic is essential for the strength of the resulting
/// play.
pub trait MiniMaxGameState: GameState {
    /// The heuristic value of this state for `player`: higher is better for
    /// `player`.
    spec fn spec_evaluate(&self, player: Player) -> int;

    /// The heuristic never leaves the band `[-MAX_SCORE, MAX_SCORE]`, so a
    /// heuristic score stays distinguishable from the sentinel window bounds
    /// of the search.
    proof fn lemma_evaluate_bounded(&self, player: Player)
        ensures
            -(MAX_SCORE as int) <= self.spec_evaluate(player) <= MAX_SCORE as int,
    ;

    /// The heuristic is zero-sum: one player's score is the exact negation of
    /// the other's, which lets the search negate scores when flipping
    /// perspective.
    proof fn lemma_zero_sum(&self)
        ensures
            self.spec_evaluate(Player::Player1) == -self.spec_evaluate(Player::Player2),
    ;

    /// Evaluates this state for `player`.
    fn evaluate(self: &Self, player: &Player) -> (score: i64)
        ensures
            score as int == self.spec_evaluate(*player),
    ;
}

} // verus!
