//! A generic engine for deterministic, perfect-information, two-player
//! turn-based games.
//!
//! The crate separates the rules of a game (supplied by the consumer through
//! the traits in [`model`]) from the search strategy (negamax with alpha-beta
//! pruning, in [`negamax`]), and adds a harness for running two independently
//! modelled instances of a game against each other ([`tournament`]).
//! [`grid_board`] holds a utility for games played on a rectangular grid.

pub mod grid_board;
pub mod model;
pub mod negamax;
pub mod tournament;
