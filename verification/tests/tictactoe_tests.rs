// Tests of the engine and the battle harness on a real game: tic-tac-toe.

use std::time::Duration;

use turn_based_games::model::{GameState, MiniMaxGameState, MoveIterator, MoveOutcome, Player};
use turn_based_games::negamax::{negamax, MAX_SCORE};
use turn_based_games::tournament::{ki_battle, Statistics};
use vstd::prelude::*;

#[derive(PartialEq, Clone, Copy)]
enum FieldState {
    Empty,
    Cross,
    Circle,
}

#[derive(Clone, Debug)]
struct Move {
    index: usize,
}

struct TttMoveIterator {
    current_index: usize,
}

impl MoveIterator for TttMoveIterator {
    type Move = Move;
    type GameState = TicTacToeGameState;

    // The spec members of the trait are ghost: they are erased from compiled
    // code and these bodies never run.
    fn spec_moves(&self) -> Seq<Move> {
        unreachable!()
    }

    fn spec_index(&self) -> nat {
        unreachable!()
    }

    fn next(&mut self, gs: &Self::GameState) -> Option<Move> {
        for index in self.current_index..9 {
            if gs.field[index] == FieldState::Empty {
                self.current_index = index + 1;
                return Some(Move { index });
            }
        }
        self.current_index = 9;
        None
    }
}

struct TicTacToeGameState {
    active_player: Player,
    field: [FieldState; 9],
}

impl TicTacToeGameState {
    fn new() -> TicTacToeGameState {
        TicTacToeGameState {
            active_player: Player::Player1,
            field: [FieldState::Empty; 9],
        }
    }

    fn field_by_coords(self: &Self, x: usize, y: usize) -> &FieldState {
        &self.field[y * 3 + x]
    }
}

impl GameState for TicTacToeGameState {
    type Move = Move;
    type MoveIterator = TttMoveIterator;

    // Ghost members, erased from compiled code; these bodies never run.
    fn spec_active_player(&self) -> Player {
        unreachable!()
    }

    fn spec_moves(&self) -> Seq<Move> {
        unreachable!()
    }

    fn spec_outcome(&self, _m: Move) -> MoveOutcome {
        unreachable!()
    }

    fn spec_apply(&self, _m: Move) -> Self {
        unreachable!()
    }

    fn spec_reverse(&self, _m: Move) -> Self {
        unreachable!()
    }

    fn lemma_reverse_inverse(&self, _m: Move) {}

    fn active_player(self: &Self) -> Player {
        self.active_player.clone()
    }

    fn move_iterator(self: &Self) -> Self::MoveIterator {
        TttMoveIterator { current_index: 0 }
    }

    fn apply_move(self: &mut Self, m: &Self::Move) -> MoveOutcome {
        // Switch player
        let active_player = self.active_player;
        self.active_player = active_player.other();

        let my_symbol = match active_player {
            Player::Player1 => FieldState::Cross,
            Player::Player2 => FieldState::Circle,
        };
        self.field[m.index] = my_symbol;
        let my_symbol = &self.field[m.index];
        // Winner?
        for x in 0..3 {
            if self.field_by_coords(x, 0) == my_symbol
                && self.field_by_coords(x, 1) == my_symbol
                && self.field_by_coords(x, 2) == my_symbol
            {
                return MoveOutcome::PlayerWon(active_player);
            }
        }
        for y in 0..3 {
            if self.field_by_coords(0, y) == my_symbol
                && self.field_by_coords(1, y) == my_symbol
                && self.field_by_coords(2, y) == my_symbol
            {
                return MoveOutcome::PlayerWon(active_player);
            }
        }
        if self.field_by_coords(0, 0) == my_symbol
            && self.field_by_coords(1, 1) == my_symbol
            && self.field_by_coords(2, 2) == my_symbol
        {
            return MoveOutcome::PlayerWon(active_player);
        }
        if self.field_by_coords(2, 0) == my_symbol
            && self.field_by_coords(1, 1) == my_symbol
            && self.field_by_coords(0, 2) == my_symbol
        {
            return MoveOutcome::PlayerWon(active_player);
        }

        if !self.field.contains(&FieldState::Empty) {
            return MoveOutcome::Tie;
        }
        return MoveOutcome::SwitchPlayer(self.active_player.clone());
    }

    fn reverse_move(self: &mut Self, m: &Self::Move) {
        self.active_player = self.active_player.other();
        self.field[m.index] = FieldState::Empty;
    }
}

impl MiniMaxGameState for TicTacToeGameState {
    // Ghost members, erased from compiled code; these bodies never run.
    fn spec_evaluate(&self, _player: Player) -> int {
        unreachable!()
    }

    fn lemma_evaluate_bounded(&self, _player: Player) {}

    fn lemma_zero_sum(&self) {}

    fn evaluate(self: &Self, _player: &Player) -> i64 {
        return 0;
    }
}

fn find_move(m: &Move, gs: &TicTacToeGameState) -> Option<Move> {
    let mut move_iterator = gs.move_iterator();
    while let Some(cm) = move_iterator.next(gs) {
        if cm.index == m.index {
            return Some(cm);
        }
    }
    None
}

/// Applying a move and then reversing it restores the position exactly: the
/// side to move and every field.
#[test]
fn apply_then_reverse_restores_the_board() {
    let mut g = TicTacToeGameState::new();
    g.apply_move(&Move { index: 0 });

    let player_before = g.active_player();
    let fields_before = g.field;

    let m = Move { index: 4 };
    g.apply_move(&m);
    g.reverse_move(&m);

    assert_eq!(g.active_player(), player_before);
    assert!(g.field == fields_before);
}

/// Tic-tac-toe is a draw under perfect play: the full search of the empty
/// board scores zero.
#[test]
fn empty_board_has_no_winning_move() {
    let mut tictactoe = TicTacToeGameState::new();

    let (s, _best_move) = negamax(&mut tictactoe, 10);

    assert_eq!(s, 0);
}

/// Once the opponent has taken a corner, the center is the only move that
/// does not lose, and the full search takes it.
#[test]
fn corner_reply_takes_center() {
    let mut tictactoe = TicTacToeGameState::new();
    tictactoe.apply_move(&Move { index: 0 });

    let (s, best_move) = negamax(&mut tictactoe, 10);

    assert_eq!(s, 0);
    assert_eq!(best_move.unwrap().index, 4);
}

/// Two fields of a row taken and the third free: the search at depth one
/// finds the winning completion and scores it at the sentinel.
#[test]
fn completes_open_row() {
    let mut tictactoe = TicTacToeGameState::new();
    tictactoe.apply_move(&Move { index: 0 });
    tictactoe.apply_move(&Move { index: 3 });
    tictactoe.apply_move(&Move { index: 1 });
    tictactoe.apply_move(&Move { index: 4 });

    let (s, best_move) = negamax(&mut tictactoe, 1);

    assert_eq!(s, MAX_SCORE);
    assert_eq!(best_move.unwrap().index, 2);
}

/// Two perfect engines battling each other over two separately held boards
/// reach a tie, and both sides report their accumulated search time.
#[test]
fn battle_of_equals_is_a_tie() {
    let mut gs1 = TicTacToeGameState::new();
    let mut gs2 = TicTacToeGameState::new();

    let outcome = ki_battle(&mut gs1, &mut gs2, 10, 10, find_move, find_move);

    let (winner, stats1, stats2) = outcome.expect("the harness must not abort");
    assert_eq!(winner, None);
    // The full searches take measurable time, and the harness accumulates
    // it: the totals have moved away from the zero start.
    assert!(stats1.total_negamax_duration > Duration::from_secs(0));
    assert!(stats2.total_negamax_duration > Duration::from_secs(0));
}

/// A fresh statistics value holds no accumulated time.
#[test]
fn fresh_statistics_hold_zero_time() {
    let stats = Statistics::new();

    assert_eq!(stats.total_negamax_duration, Duration::from_secs(0));
    assert_eq!(stats.total_negamax_duration.as_nanos(), 0);
}

/// A translator that never finds an equivalent move desynchronizes the two
/// representations; the harness reports the abort instead of playing on.
#[test]
fn battle_aborts_on_translation_failure() {
    let mut gs1 = TicTacToeGameState::new();
    let mut gs2 = TicTacToeGameState::new();

    fn no_translation(_m: &Move, _gs: &TicTacToeGameState) -> Option<Move> {
        None
    }

    let outcome = ki_battle(&mut gs1, &mut gs2, 2, 2, no_translation, no_translation);

    assert!(outcome.is_none());
}

/// A battle of unequal depths on a game with a blunder-prone shallow side:
/// the deeper engine never loses tic-tac-toe.
#[test]
fn deeper_engine_does_not_lose() {
    let mut gs1 = TicTacToeGameState::new();
    let mut gs2 = TicTacToeGameState::new();

    let outcome = ki_battle(&mut gs1, &mut gs2, 10, 1, find_move, find_move);

    let (winner, _stats1, _stats2) = outcome.expect("the harness must not abort");
    assert_ne!(winner, Some(Player::Player2));
}
