// Tests of the negamax engine against a mock game: moves are the numbers 1
// to 19, one designated move path wins outright, and the heuristic rewards
// own moves close to the value 10.

use turn_based_games::model::{GameState, MiniMaxGameState, MoveIterator, MoveOutcome, Player};
use turn_based_games::negamax::{negamax, MAX_SCORE};
use turn_based_games::tournament::ki_battle;
use vstd::prelude::*;

struct CenterScoreWinMovePathGame {
    win_moves: Vec<i32>,
    active_player: Player,
    current_moves: Vec<i32>,
    p1_won: bool,
    p2_won: bool,
    visitor: Option<fn(&Vec<i32>) -> ()>,
}

impl CenterScoreWinMovePathGame {
    fn new(
        win_moves: Vec<i32>,
        visitor: Option<fn(&Vec<i32>) -> ()>,
    ) -> CenterScoreWinMovePathGame {
        CenterScoreWinMovePathGame {
            win_moves,
            active_player: Player::Player1,
            current_moves: vec![0; 0],
            p1_won: false,
            p2_won: false,
            visitor,
        }
    }
}

struct CenterScoreMoveIterator {
    current_move: i32,
}

impl MoveIterator for CenterScoreMoveIterator {
    type Move = i32;
    type GameState = CenterScoreWinMovePathGame;

    // The spec members of the trait are ghost: they are erased from compiled
    // code and these bodies never run.
    fn spec_moves(&self) -> Seq<i32> {
        unreachable!()
    }

    fn spec_index(&self) -> nat {
        unreachable!()
    }

    fn next(&mut self, _gs: &Self::GameState) -> Option<i32> {
        self.current_move += 1;
        if self.current_move >= 20 {
            None
        } else {
            Some(self.current_move)
        }
    }
}

impl GameState for CenterScoreWinMovePathGame {
    type Move = i32;
    type MoveIterator = CenterScoreMoveIterator;

    // Ghost members, erased from compiled code; these bodies never run.
    fn spec_active_player(&self) -> Player {
        unreachable!()
    }

    fn spec_moves(&self) -> Seq<i32> {
        unreachable!()
    }

    fn spec_outcome(&self, _m: i32) -> MoveOutcome {
        unreachable!()
    }

    fn spec_apply(&self, _m: i32) -> Self {
        unreachable!()
    }

    fn spec_reverse(&self, _m: i32) -> Self {
        unreachable!()
    }

    fn lemma_reverse_inverse(&self, _m: i32) {}

    fn active_player(self: &Self) -> Player {
        self.active_player.clone()
    }

    fn move_iterator(self: &Self) -> Self::MoveIterator {
        CenterScoreMoveIterator { current_move: -1 }
    }

    fn apply_move(self: &mut Self, m: &Self::Move) -> MoveOutcome {
        self.current_moves.push(m.clone());
        if let Some(v) = self.visitor {
            v(&self.current_moves);
        }
        return if self.current_moves == self.win_moves {
            match self.active_player {
                Player::Player1 => self.p1_won = true,
                Player::Player2 => self.p2_won = true,
            }
            MoveOutcome::PlayerWon(self.active_player.clone())
        } else {
            self.active_player = self.active_player.other();
            MoveOutcome::SwitchPlayer(self.active_player.clone())
        };
    }

    fn reverse_move(self: &mut Self, _m: &Self::Move) {
        self.current_moves.pop();
        self.p1_won = false;
        self.p2_won = false;
        self.active_player = self.active_player.other();
    }
}

impl MiniMaxGameState for CenterScoreWinMovePathGame {
    // Ghost members, erased from compiled code; these bodies never run.
    fn spec_evaluate(&self, _player: Player) -> int {
        unreachable!()
    }

    fn lemma_evaluate_bounded(&self, _player: Player) {}

    fn lemma_zero_sum(&self) {}

    fn evaluate(self: &Self, _player: &Player) -> i64 {
        let p1_score = if self.p1_won {
            MAX_SCORE
        } else {
            if self.p2_won {
                -MAX_SCORE
            } else {
                i64::from(
                    self.current_moves
                        .iter()
                        .step_by(2)
                        .fold(0, |acc, e| acc + 10 - (10 - e).abs()),
                )
            }
        };
        return match self.active_player {
            Player::Player1 => p1_score,
            Player::Player2 => -p1_score,
        };
    }
}

// A game with an extra-turn rule: the same player keeps moving, adding the
// move value to a running total, and wins as soon as the total reaches five.
struct ExtraTurnGame {
    total: i64,
}

struct ExtraTurnMoveIterator {
    current_move: i64,
}

impl MoveIterator for ExtraTurnMoveIterator {
    type Move = i64;
    type GameState = ExtraTurnGame;

    // Ghost members, erased from compiled code; these bodies never run.
    fn spec_moves(&self) -> Seq<i64> {
        unreachable!()
    }

    fn spec_index(&self) -> nat {
        unreachable!()
    }

    fn next(&mut self, _gs: &Self::GameState) -> Option<i64> {
        self.current_move += 1;
        if self.current_move > 3 {
            None
        } else {
            Some(self.current_move)
        }
    }
}

impl GameState for ExtraTurnGame {
    type Move = i64;
    type MoveIterator = ExtraTurnMoveIterator;

    // Ghost members, erased from compiled code; these bodies never run.
    fn spec_active_player(&self) -> Player {
        unreachable!()
    }

    fn spec_moves(&self) -> Seq<i64> {
        unreachable!()
    }

    fn spec_outcome(&self, _m: i64) -> MoveOutcome {
        unreachable!()
    }

    fn spec_apply(&self, _m: i64) -> Self {
        unreachable!()
    }

    fn spec_reverse(&self, _m: i64) -> Self {
        unreachable!()
    }

    fn lemma_reverse_inverse(&self, _m: i64) {}

    fn active_player(self: &Self) -> Player {
        Player::Player1
    }

    fn move_iterator(self: &Self) -> Self::MoveIterator {
        ExtraTurnMoveIterator { current_move: 0 }
    }

    fn apply_move(self: &mut Self, m: &i64) -> MoveOutcome {
        self.total += m;
        if self.total >= 5 {
            MoveOutcome::PlayerWon(Player::Player1)
        } else {
            MoveOutcome::ContinuePlayer(Player::Player1)
        }
    }

    fn reverse_move(self: &mut Self, m: &i64) {
        self.total -= m;
    }
}

impl MiniMaxGameState for ExtraTurnGame {
    // Ghost members, erased from compiled code; these bodies never run.
    fn spec_evaluate(&self, _player: Player) -> int {
        unreachable!()
    }

    fn lemma_evaluate_bounded(&self, _player: Player) {}

    fn lemma_zero_sum(&self) {}

    fn evaluate(self: &Self, _player: &Player) -> i64 {
        self.total
    }
}

// A broken game that offers no move and signals no terminal outcome; the
// contract forbids searching such a state, and the harness must abort on it.
struct NoMovesGame {}

struct NoMovesIterator {}

impl MoveIterator for NoMovesIterator {
    type Move = i64;
    type GameState = NoMovesGame;

    // Ghost members, erased from compiled code; these bodies never run.
    fn spec_moves(&self) -> Seq<i64> {
        unreachable!()
    }

    fn spec_index(&self) -> nat {
        unreachable!()
    }

    fn next(&mut self, _gs: &Self::GameState) -> Option<i64> {
        None
    }
}

impl GameState for NoMovesGame {
    type Move = i64;
    type MoveIterator = NoMovesIterator;

    // Ghost members, erased from compiled code; these bodies never run.
    fn spec_active_player(&self) -> Player {
        unreachable!()
    }

    fn spec_moves(&self) -> Seq<i64> {
        unreachable!()
    }

    fn spec_outcome(&self, _m: i64) -> MoveOutcome {
        unreachable!()
    }

    fn spec_apply(&self, _m: i64) -> Self {
        unreachable!()
    }

    fn spec_reverse(&self, _m: i64) -> Self {
        unreachable!()
    }

    fn lemma_reverse_inverse(&self, _m: i64) {}

    fn active_player(self: &Self) -> Player {
        Player::Player1
    }

    fn move_iterator(self: &Self) -> Self::MoveIterator {
        NoMovesIterator {}
    }

    fn apply_move(self: &mut Self, _m: &i64) -> MoveOutcome {
        MoveOutcome::SwitchPlayer(Player::Player2)
    }

    fn reverse_move(self: &mut Self, _m: &i64) {}
}

impl MiniMaxGameState for NoMovesGame {
    // Ghost members, erased from compiled code; these bodies never run.
    fn spec_evaluate(&self, _player: Player) -> int {
        unreachable!()
    }

    fn lemma_evaluate_bounded(&self, _player: Player) {}

    fn lemma_zero_sum(&self) {}

    fn evaluate(self: &Self, _player: &Player) -> i64 {
        0
    }
}

/// A search that finds no move although no terminal outcome was reported is
/// a contract violation; the harness aborts instead of playing on.
#[test]
fn battle_aborts_when_no_move_is_found() {
    let mut gs1 = NoMovesGame {};
    let mut gs2 = NoMovesGame {};

    fn identity(m: &i64, _gs: &NoMovesGame) -> Option<i64> {
        Some(*m)
    }

    let outcome = ki_battle(&mut gs1, &mut gs2, 3, 3, identity, identity);

    assert!(outcome.is_none());
}

/// Game model, where one move immediately wins. This move must be returned.
#[test]
fn choose_winning_move() {
    // Setup
    let mut gs = CenterScoreWinMovePathGame::new(vec![5], None);

    // Act
    let (_s, m) = negamax(&mut gs, 1);

    // Test
    assert_eq!(m, Some(5));
}

/// Game model, where at a depth of 2 a move wins.
#[test]
fn dont_choose_opponent_winning_move() {
    // Setup
    let mut gs = CenterScoreWinMovePathGame::new(vec![10, 1], None);

    // Act
    let (s, m) = negamax(&mut gs, 5);

    // Test
    println!("Score {}, move: {:?}", s, m);
    assert_eq!(m, Some(9));
}

#[test]
fn choose_best_move_no_wins() {
    // Setup
    let mut gs = CenterScoreWinMovePathGame::new(vec![], None);

    // Act
    let (_s, m) = negamax(&mut gs, 5);

    // Test
    assert_eq!(m, Some(10));
}

#[test]
fn test_alpha_beta_pruning() {
    // Setup
    let mut gs = CenterScoreWinMovePathGame::new(
        vec![],
        Some(|moves| {
            // If all moves are above the best move (10), the following moves may not be
            // Above it!
            for (index, m) in moves.iter().enumerate() {
                if *m < 11 {
                    return;
                }
                if index > 0 && *m > 11 {
                    panic!("Moves should not be reached: {:?}", moves)
                }
            }
        }),
    );

    // Act
    let (_, m) = negamax(&mut gs, 5);

    // Test
    assert_eq!(m, Some(10));
}

/// A winning move wins regardless of where it sits in the enumeration, and
/// the score of a forced win is exactly the sentinel score.
#[test]
fn winning_score_is_max_score() {
    let mut gs = CenterScoreWinMovePathGame::new(vec![17], None);

    let (s, m) = negamax(&mut gs, 1);

    assert_eq!(s, MAX_SCORE);
    assert_eq!(m, Some(17));
}

/// The state is explored strictly in place: after a search it is restored
/// exactly, and a second identical search returns the identical result.
#[test]
fn search_restores_state_and_is_deterministic() {
    let mut gs = CenterScoreWinMovePathGame::new(vec![], None);

    let (s1, m1) = negamax(&mut gs, 4);

    assert!(gs.current_moves.is_empty());
    assert_eq!(gs.active_player, Player::Player1);
    assert!(!gs.p1_won);
    assert!(!gs.p2_won);

    let (s2, m2) = negamax(&mut gs, 4);
    assert_eq!(s1, s2);
    assert_eq!(m1, m2);
}

/// The score of a search never exceeds the sentinel score in magnitude, at
/// any depth, with or without a win in reach.
#[test]
fn scores_stay_within_the_sentinel_bound() {
    for depth in 0..6i8 {
        let mut with_win = CenterScoreWinMovePathGame::new(vec![10, 1], None);
        let (s, _) = negamax(&mut with_win, depth);
        assert!(s.abs() <= MAX_SCORE);

        let mut without_win = CenterScoreWinMovePathGame::new(vec![], None);
        let (s, _) = negamax(&mut without_win, depth);
        assert!(s.abs() <= MAX_SCORE);
    }
}

/// With an extra-turn rule the same side keeps the perspective: scores of a
/// `ContinuePlayer` subtree are not negated. At depth two, the totals 2 + 3
/// reach the winning total of five, so the first move from which the win is
/// reachable — the value 2 — gets the winning score.
#[test]
fn extra_turn_rule_keeps_perspective() {
    let mut gs = ExtraTurnGame { total: 0 };

    let (s, m) = negamax(&mut gs, 2);

    assert_eq!(s, MAX_SCORE);
    assert_eq!(m, Some(2));
    assert_eq!(gs.total, 0);
}

/// A depth-zero search examines no move and returns the heuristic value of
/// the state itself.
#[test]
fn depth_zero_returns_evaluation() {
    let mut gs = CenterScoreWinMovePathGame::new(vec![], None);

    let (s, m) = negamax(&mut gs, 0);

    assert_eq!(s, 0);
    assert_eq!(m, None);
}
