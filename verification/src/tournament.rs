//! A harness for running two search engines against each other.
//!
//! The two sides may represent the same logical game through two different
//! state encodings; the harness keeps them in lockstep by translating each
//! move discovered in one representation into the equivalent move of the
//! other through caller-supplied translator functions. Per side it
//! accumulates the wall-clock time spent searching, for comparative
//! benchmarking.

use vstd::prelude::*;

use crate::model::{GameState, MiniMaxGameState, MoveOutcome, Player};
use crate::negamax::{negamax, search_node, MAX_SCORE};

verus! {

#[verifier::external_type_specification]
#[verifier::external_body]
pub struct ExInstant(std::time::Instant);

/// The duration that `std::time::Duration::from_secs` builds from a whole
/// number of seconds; the result depends on the argument alone.
pub uninterp spec fn duration_of_secs(secs: u64) -> std::time::Duration;

/// The saturating sum of two durations, as
/// `std::time::Duration::saturating_add` computes it; the result depends on
/// the arguments alone.
pub uninterp spec fn duration_sum(
    a: std::time::Duration,
    b: std::time::Duration,
) -> std::time::Duration;

/// Relies on `std::time::Instant::now`: a reading of the monotonic clock.
/// Nothing is assumed of the value.
#[verifier::external_body]
fn instant_now() -> std::time::Instant {
    std::time::Instant::now()
}

/// Relies on `std::time::Instant::elapsed`: the time passed since `start`
/// was taken. Nothing is assumed of the value.
#[verifier::external_body]
fn elapsed_since(start: &std::time::Instant) -> std::time::Duration {
    start.elapsed()
}

/// Relies on `std::time::Duration::saturating_add`: the sum of two
/// durations, clamped at the largest representable duration; it depends on
/// the arguments alone.
#[verifier::external_body]
fn duration_add(a: std::time::Duration, b: std::time::Duration) -> (r: std::time::Duration)
    ensures
        r == duration_sum(a, b),
{
    a.saturating_add(b)
}

/// Relies on `std::time::Duration::from_secs`: the duration of the given
/// number of whole seconds; it depends on the argument alone.
#[verifier::external_body]
fn duration_zero() -> (r: std::time::Duration)
    ensures
        r == duration_of_secs(0),
{
    std::time::Duration::from_secs(0)
}

/// Aggregated observations about one side of a battle. The recorded time is
/// exposed for benchmarking only; no control flow depends on it.
#[derive(Debug)]
pub struct Statistics {
    /// Total wall-clock time this side's search calls took.
    pub total_negamax_duration: std::time::Duration,
}

impl Statistics {
    /// Fresh statistics: no time has been recorded yet, so the total is the
    /// zero duration.
    pub fn new() -> (s: Statistics)
        ensures
            s.total_negamax_duration == duration_of_secs(0),
    {
        Statistics { total_negamax_duration: duration_zero() }
    }
}

/// The game outcome a battle result reports: the winner layer of the
/// result, without the statistics. `None` of the outer option is the
/// harness's abort.
pub open spec fn reported_outcome(
    r: Option<(Option<Player>, Statistics, Statistics)>,
) -> Option<Option<Player>> {
    match r {
        Some(t) => Some(t.0),
        None => None,
    }
}

/// The battle harness's loop, transcribed as a relation: starting from the
/// states `g1` and `g2` with `active` to move and `fuel` turns left, the
/// battle can end with the reported outcome `outcome` and the final states
/// `end1` and `end2`.
///
/// Each turn, the active side's full-window search of its own state decides
/// the move (exactly [`search_node`], as `negamax` is proved to return); the
/// matching translator turns it into a move of the other representation, and
/// both states apply the pair. A win or tie outcome on the driving side ends
/// the battle with exactly that result; the harness aborts (`outcome` is
/// `None`) precisely when the search reports no move, when the translator
/// finds none, or when the fuel is spent, each time leaving both states as
/// they stood. The translators are the only source of nondeterminism: any
/// return value their contract (`call_ensures`) admits may occur.
pub open spec fn battle_reaches<GS1, GS2, F2To1, F1To2>(
    find_gs1_move: F2To1,
    find_gs2_move: F1To2,
    g1: GS1,
    g2: GS2,
    active: Player,
    fuel: nat,
    ki1_depth: i8,
    ki2_depth: i8,
    outcome: Option<Option<Player>>,
    end1: GS1,
    end2: GS2,
) -> bool where
    GS1: MiniMaxGameState,
    GS2: MiniMaxGameState,
    F1To2: Fn(&GS1::Move, &GS2) -> Option<GS2::Move>,
    F2To1: Fn(&GS2::Move, &GS1) -> Option<GS1::Move>,

    decreases fuel,
{
    if fuel == 0 {
        outcome is None && end1 == g1 && end2 == g2
    } else if active == Player::Player1 {
        match search_node(
            g1,
            ki1_depth as int,
            -(MAX_SCORE as int) - 1,
            MAX_SCORE as int + 1,
        ).1 {
            None => outcome is None && end1 == g1 && end2 == g2,
            Some(m) => exists|t: Option<GS2::Move>|
                #[trigger] call_ensures(find_gs2_move, (&m, &g2), t) && match t {
                    None => outcome is None && end1 == g1 && end2 == g2,
                    Some(tm) => match g1.spec_outcome(m) {
                        MoveOutcome::PlayerWon(p) => outcome == Some(Some(p)) && end1
                            == g1.spec_apply(m) && end2 == g2.spec_apply(tm),
                        MoveOutcome::Tie => outcome == Some(None::<Player>) && end1
                            == g1.spec_apply(m) && end2 == g2.spec_apply(tm),
                        MoveOutcome::SwitchPlayer(_) => battle_reaches(
                            find_gs1_move,
                            find_gs2_move,
                            g1.spec_apply(m),
                            g2.spec_apply(tm),
                            Player::Player2,
                            (fuel - 1) as nat,
                            ki1_depth,
                            ki2_depth,
                            outcome,
                            end1,
                            end2,
                        ),
                        MoveOutcome::ContinuePlayer(_) => battle_reaches(
                            find_gs1_move,
                            find_gs2_move,
                            g1.spec_apply(m),
                            g2.spec_apply(tm),
                            Player::Player1,
                            (fuel - 1) as nat,
                            ki1_depth,
                            ki2_depth,
                            outcome,
                            end1,
                            end2,
                        ),
                    },
                },
        }
    } else {
        match search_node(
            g2,
            ki2_depth as int,
            -(MAX_SCORE as int) - 1,
            MAX_SCORE as int + 1,
        ).1 {
            None => outcome is None && end1 == g1 && end2 == g2,
            Some(m) => exists|t: Option<GS1::Move>|
                #[trigger] call_ensures(find_gs1_move, (&m, &g1), t) && match t {
                    None => outcome is None && end1 == g1 && end2 == g2,
                    Some(tm) => match g2.spec_outcome(m) {
                        MoveOutcome::PlayerWon(p) => outcome == Some(Some(p)) && end1
                            == g1.spec_apply(tm) && end2 == g2.spec_apply(m),
                        MoveOutcome::Tie => outcome == Some(None::<Player>) && end1
                            == g1.spec_apply(tm) && end2 == g2.spec_apply(m),
                        MoveOutcome::SwitchPlayer(_) => battle_reaches(
                            find_gs1_move,
                            find_gs2_move,
                            g1.spec_apply(tm),
                            g2.spec_apply(m),
                            Player::Player1,
                            (fuel - 1) as nat,
                            ki1_depth,
                            ki2_depth,
                            outcome,
                            end1,
                            end2,
                        ),
                        MoveOutcome::ContinuePlayer(_) => battle_reaches(
                            find_gs1_move,
                            find_gs2_move,
                            g1.spec_apply(tm),
                            g2.spec_apply(m),
                            Player::Player2,
                            (fuel - 1) as nat,
                            ki1_depth,
                            ki2_depth,
                            outcome,
                            end1,
                            end2,
                        ),
                    },
                },
        }
    }
}

/// Plays two engines against each other until one side wins or the game
/// ties, starting with player one.
///
/// `gs1` and `gs2` are two representations of the same logical game, kept in
/// lockstep: each turn, the active side searches its own state at its own
/// depth, the discovered move is translated into the other representation by
/// the matching translator, and both states apply it. The translators must
/// return legal moves of the state they are handed.
///
/// Returns the winner (or `None` of the inner option for a tie) together
/// with both sides' accumulated search times. The outer option is `None`
/// when the harness had to abort: the search returned no move although no
/// terminal outcome had been reported, a translator found no equivalent move
/// (the two representations have desynchronized), or the game outlasted the
/// harness's turn budget; in each case continuing would corrupt the states.
///
/// The main postcondition states that the reported outcome and the final
/// states are exactly one admitted by [`battle_reaches`] from the given
/// states: the turn-by-turn transcription of this loop, which ends with a
/// winner or a tie exactly as the last applied move's outcome on the driving
/// side reported it, and aborts only for the three reasons above.
pub fn ki_battle<GS1, GS2, F2To1, F1To2>(
    gs1: &mut GS1,
    gs2: &mut GS2,
    ki1_depth: i8,
    ki2_depth: i8,
    find_gs1_move: F2To1,
    find_gs2_move: F1To2,
) -> (r: Option<(Option<Player>, Statistics, Statistics)>) where
    GS1: MiniMaxGameState,
    GS2: MiniMaxGameState,
    F1To2: Fn(&GS1::Move, &GS2) -> Option<GS2::Move>,
    F2To1: Fn(&GS2::Move, &GS1) -> Option<GS1::Move>,

    requires
        0 <= ki1_depth,
        0 <= ki2_depth,
        forall|m: &GS1::Move, g: &GS2| call_requires(find_gs2_move, (m, g)),
        forall|m: &GS2::Move, g: &GS1| call_requires(find_gs1_move, (m, g)),
        forall|m: &GS1::Move, g: &GS2, t: Option<GS2::Move>|
            call_ensures(find_gs2_move, (m, g), t) ==> (t matches Some(tm)
                ==> g.spec_moves().contains(tm)),
        forall|m: &GS2::Move, g: &GS1, t: Option<GS1::Move>|
            call_ensures(find_gs1_move, (m, g), t) ==> (t matches Some(tm)
                ==> g.spec_moves().contains(tm)),
    ensures
        battle_reaches(
            find_gs1_move,
            find_gs2_move,
            *old(gs1),
            *old(gs2),
            Player::Player1,
            u64::MAX as nat,
            ki1_depth,
            ki2_depth,
            reported_outcome(r),
            *final(gs1),
            *final(gs2),
        ),
        r matches Some(res) ==> match res.0 {
            Some(p) => (exists|g: GS1, m: GS1::Move|
                g.spec_moves().contains(m) && g.spec_outcome(m) == MoveOutcome::PlayerWon(p)
                    && *final(gs1) == g.spec_apply(m)) || (exists|g: GS2, m: GS2::Move|
                g.spec_moves().contains(m) && g.spec_outcome(m) == MoveOutcome::PlayerWon(p)
                    && *final(gs2) == g.spec_apply(m)),
            None => (exists|g: GS1, m: GS1::Move|
                g.spec_moves().contains(m) && g.spec_outcome(m) == MoveOutcome::Tie
                    && *final(gs1) == g.spec_apply(m)) || (exists|g: GS2, m: GS2::Move|
                g.spec_moves().contains(m) && g.spec_outcome(m) == MoveOutcome::Tie
                    && *final(gs2) == g.spec_apply(m)),
        },
{
    let mut active_player = Player::Player1;
    let mut p1_statistics = Statistics::new();
    let mut p2_statistics = Statistics::new();
    // A turn budget keeps the loop provably finite; it cannot be exhausted
    // by any game that ever terminates within a machine's lifetime.
    let mut turns_left: u64 = u64::MAX;
    loop
        invariant
            0 <= ki1_depth,
            0 <= ki2_depth,
            forall|m: &GS1::Move, g: &GS2| call_requires(find_gs2_move, (m, g)),
            forall|m: &GS2::Move, g: &GS1| call_requires(find_gs1_move, (m, g)),
            forall|m: &GS1::Move, g: &GS2, t: Option<GS2::Move>|
                call_ensures(find_gs2_move, (m, g), t) ==> (t matches Some(tm)
                    ==> g.spec_moves().contains(tm)),
            forall|m: &GS2::Move, g: &GS1, t: Option<GS1::Move>|
                call_ensures(find_gs1_move, (m, g), t) ==> (t matches Some(tm)
                    ==> g.spec_moves().contains(tm)),
            forall|oc: Option<Option<Player>>, e1: GS1, e2: GS2|
                #[trigger] battle_reaches(
                    find_gs1_move,
                    find_gs2_move,
                    *gs1,
                    *gs2,
                    active_player,
                    turns_left as nat,
                    ki1_depth,
                    ki2_depth,
                    oc,
                    e1,
                    e2,
                ) ==> battle_reaches(
                    find_gs1_move,
                    find_gs2_move,
                    *old(gs1),
                    *old(gs2),
                    Player::Player1,
                    u64::MAX as nat,
                    ki1_depth,
                    ki2_depth,
                    oc,
                    e1,
                    e2,
                ),
        decreases turns_left,
    {
        let ghost h1: GS1 = *gs1;
        let ghost h2: GS2 = *gs2;
        let ghost fuel0: nat = turns_left as nat;
        if turns_left == 0 {
            proof {
                assert(battle_reaches(
                    find_gs1_move,
                    find_gs2_move,
                    h1,
                    h2,
                    active_player,
                    fuel0,
                    ki1_depth,
                    ki2_depth,
                    None::<Option<Player>>,
                    h1,
                    h2,
                ));
            }
            return None;
        }
        turns_left = turns_left - 1;
        match active_player {
            Player::Player1 => {
                let start = instant_now();
                let search_result = negamax(gs1, ki1_depth);
                p1_statistics.total_negamax_duration = duration_add(
                    p1_statistics.total_negamax_duration,
                    elapsed_since(&start),
                );
                match search_result.1 {
                    Some(the_move) => {
                        let translated_opt = find_gs2_move(&the_move, &*gs2);
                        proof {
                            assert(call_ensures(
                                find_gs2_move,
                                (&the_move, &h2),
                                translated_opt,
                            ));
                        }
                        match translated_opt {
                            Some(translated) => {
                                let _mirrored_outcome = gs2.apply_move(&translated);
                                let ghost pre1: GS1 = *gs1;
                                let outcome = gs1.apply_move(&the_move);
                                match outcome {
                                    MoveOutcome::PlayerWon(p) => {
                                        proof {
                                            assert(pre1.spec_moves().contains(the_move)
                                                && pre1.spec_outcome(the_move)
                                                == MoveOutcome::PlayerWon(p) && *gs1
                                                == pre1.spec_apply(the_move));
                                            assert(battle_reaches(
                                                find_gs1_move,
                                                find_gs2_move,
                                                h1,
                                                h2,
                                                Player::Player1,
                                                fuel0,
                                                ki1_depth,
                                                ki2_depth,
                                                Some(Some(p)),
                                                *gs1,
                                                *gs2,
                                            ));
                                        }
                                        return Some((Some(p), p1_statistics, p2_statistics));
                                    },
                                    MoveOutcome::Tie => {
                                        proof {
                                            assert(pre1.spec_moves().contains(the_move)
                                                && pre1.spec_outcome(the_move) == MoveOutcome::Tie
                                                && *gs1 == pre1.spec_apply(the_move));
                                            assert(battle_reaches(
                                                find_gs1_move,
                                                find_gs2_move,
                                                h1,
                                                h2,
                                                Player::Player1,
                                                fuel0,
                                                ki1_depth,
                                                ki2_depth,
                                                Some(None::<Player>),
                                                *gs1,
                                                *gs2,
                                            ));
                                        }
                                        return Some((None, p1_statistics, p2_statistics));
                                    },
                                    MoveOutcome::SwitchPlayer(_) => {
                                        active_player = active_player.other();
                                        proof {
                                            assert forall|
                                                oc: Option<Option<Player>>,
                                                e1: GS1,
                                                e2: GS2,
                                            |
                                                battle_reaches(
                                                    find_gs1_move,
                                                    find_gs2_move,
                                                    *gs1,
                                                    *gs2,
                                                    active_player,
                                                    turns_left as nat,
                                                    ki1_depth,
                                                    ki2_depth,
                                                    oc,
                                                    e1,
                                                    e2,
                                                ) implies battle_reaches(
                                                find_gs1_move,
                                                find_gs2_move,
                                                *old(gs1),
                                                *old(gs2),
                                                Player::Player1,
                                                u64::MAX as nat,
                                                ki1_depth,
                                                ki2_depth,
                                                oc,
                                                e1,
                                                e2,
                                            ) by {
                                                assert(active_player == Player::Player2);
                                                assert(turns_left as nat == fuel0 - 1);
                                                assert(call_ensures(
                                                    find_gs2_move,
                                                    (&the_move, &h2),
                                                    Some(translated),
                                                ));
                                                assert(battle_reaches(
                                                    find_gs1_move,
                                                    find_gs2_move,
                                                    h1,
                                                    h2,
                                                    Player::Player1,
                                                    fuel0,
                                                    ki1_depth,
                                                    ki2_depth,
                                                    oc,
                                                    e1,
                                                    e2,
                                                ));
                                            }
                                        }
                                    },
                                    MoveOutcome::ContinuePlayer(_) => {
                                        proof {
                                            assert forall|
                                                oc: Option<Option<Player>>,
                                                e1: GS1,
                                                e2: GS2,
                                            |
                                                battle_reaches(
                                                    find_gs1_move,
                                                    find_gs2_move,
                                                    *gs1,
                                                    *gs2,
                                                    active_player,
                                                    turns_left as nat,
                                                    ki1_depth,
                                                    ki2_depth,
                                                    oc,
                                                    e1,
                                                    e2,
                                                ) implies battle_reaches(
                                                find_gs1_move,
                                                find_gs2_move,
                                                *old(gs1),
                                                *old(gs2),
                                                Player::Player1,
                                                u64::MAX as nat,
                                                ki1_depth,
                                                ki2_depth,
                                                oc,
                                                e1,
                                                e2,
                                            ) by {
                                                assert(active_player == Player::Player1);
                                                assert(turns_left as nat == fuel0 - 1);
                                                assert(call_ensures(
                                                    find_gs2_move,
                                                    (&the_move, &h2),
                                                    Some(translated),
                                                ));
                                                assert(battle_reaches(
                                                    find_gs1_move,
                                                    find_gs2_move,
                                                    h1,
                                                    h2,
                                                    Player::Player1,
                                                    fuel0,
                                                    ki1_depth,
                                                    ki2_depth,
                                                    oc,
                                                    e1,
                                                    e2,
                                                ));
                                            }
                                        }
                                    },
                                }
                            },
                            None => {
                                proof {
                                    assert(battle_reaches(
                                        find_gs1_move,
                                        find_gs2_move,
                                        h1,
                                        h2,
                                        Player::Player1,
                                        fuel0,
                                        ki1_depth,
                                        ki2_depth,
                                        None::<Option<Player>>,
                                        h1,
                                        h2,
                                    ));
                                }
                                return None;
                            },
                        }
                    },
                    None => {
                        proof {
                            assert(battle_reaches(
                                find_gs1_move,
                                find_gs2_move,
                                h1,
                                h2,
                                Player::Player1,
                                fuel0,
                                ki1_depth,
                                ki2_depth,
                                None::<Option<Player>>,
                                h1,
                                h2,
                            ));
                        }
                        return None;
                    },
                }
            },
            Player::Player2 => {
                let start = instant_now();
                let search_result = negamax(gs2, ki2_depth);
                p2_statistics.total_negamax_duration = duration_add(
                    p2_statistics.total_negamax_duration,
                    elapsed_since(&start),
                );
                match search_result.1 {
                    Some(the_move) => {
                        let translated_opt = find_gs1_move(&the_move, &*gs1);
                        proof {
                            assert(call_ensures(
                                find_gs1_move,
                                (&the_move, &h1),
                                translated_opt,
                            ));
                        }
                        match translated_opt {
                            Some(translated) => {
                                let _mirrored_outcome = gs1.apply_move(&translated);
                                let ghost pre2: GS2 = *gs2;
                                let outcome = gs2.apply_move(&the_move);
                                match outcome {
                                    MoveOutcome::PlayerWon(p) => {
                                        proof {
                                            assert(pre2.spec_moves().contains(the_move)
                                                && pre2.spec_outcome(the_move)
                                                == MoveOutcome::PlayerWon(p) && *gs2
                                                == pre2.spec_apply(the_move));
                                            assert(battle_reaches(
                                                find_gs1_move,
                                                find_gs2_move,
                                                h1,
                                                h2,
                                                Player::Player2,
                                                fuel0,
                                                ki1_depth,
                                                ki2_depth,
                                                Some(Some(p)),
                                                *gs1,
                                                *gs2,
                                            ));
                                        }
                                        return Some((Some(p), p1_statistics, p2_statistics));
                                    },
                                    MoveOutcome::Tie => {
                                        proof {
                                            assert(pre2.spec_moves().contains(the_move)
                                                && pre2.spec_outcome(the_move) == MoveOutcome::Tie
                                                && *gs2 == pre2.spec_apply(the_move));
                                            assert(battle_reaches(
                                                find_gs1_move,
                                                find_gs2_move,
                                                h1,
                                                h2,
                                                Player::Player2,
                                                fuel0,
                                                ki1_depth,
                                                ki2_depth,
                                                Some(None::<Player>),
                                                *gs1,
                                                *gs2,
                                            ));
                                        }
                                        return Some((None, p1_statistics, p2_statistics));
                                    },
                                    MoveOutcome::SwitchPlayer(_) => {
                                        active_player = active_player.other();
                                        proof {
                                            assert forall|
                                                oc: Option<Option<Player>>,
                                                e1: GS1,
                                                e2: GS2,
                                            |
                                                battle_reaches(
                                                    find_gs1_move,
                                                    find_gs2_move,
                                                    *gs1,
                                                    *gs2,
                                                    active_player,
                                                    turns_left as nat,
                                                    ki1_depth,
                                                    ki2_depth,
                                                    oc,
                                                    e1,
                                                    e2,
                                                ) implies battle_reaches(
                                                find_gs1_move,
                                                find_gs2_move,
                                                *old(gs1),
                                                *old(gs2),
                                                Player::Player1,
                                                u64::MAX as nat,
                                                ki1_depth,
                                                ki2_depth,
                                                oc,
                                                e1,
                                                e2,
                                            ) by {
                                                assert(active_player == Player::Player1);
                                                assert(turns_left as nat == fuel0 - 1);
                                                assert(call_ensures(
                                                    find_gs1_move,
                                                    (&the_move, &h1),
                                                    Some(translated),
                                                ));
                                                assert(battle_reaches(
                                                    find_gs1_move,
                                                    find_gs2_move,
                                                    h1,
                                                    h2,
                                                    Player::Player2,
                                                    fuel0,
                                                    ki1_depth,
                                                    ki2_depth,
                                                    oc,
                                                    e1,
                                                    e2,
                                                ));
                                            }
                                        }
                                    },
                                    MoveOutcome::ContinuePlayer(_) => {
                                        proof {
                                            assert forall|
                                                oc: Option<Option<Player>>,
                                                e1: GS1,
                                                e2: GS2,
                                            |
                                                battle_reaches(
                                                    find_gs1_move,
                                                    find_gs2_move,
                                                    *gs1,
                                                    *gs2,
                                                    active_player,
                                                    turns_left as nat,
                                                    ki1_depth,
                                                    ki2_depth,
                                                    oc,
                                                    e1,
                                                    e2,
                                                ) implies battle_reaches(
                                                find_gs1_move,
                                                find_gs2_move,
                                                *old(gs1),
                                                *old(gs2),
                                                Player::Player1,
                                                u64::MAX as nat,
                                                ki1_depth,
                                                ki2_depth,
                                                oc,
                                                e1,
                                                e2,
                                            ) by {
                                                assert(active_player == Player::Player2);
                                                assert(turns_left as nat == fuel0 - 1);
                                                assert(call_ensures(
                                                    find_gs1_move,
                                                    (&the_move, &h1),
                                                    Some(translated),
                                                ));
                                                assert(battle_reaches(
                                                    find_gs1_move,
                                                    find_gs2_move,
                                                    h1,
                                                    h2,
                                                    Player::Player2,
                                                    fuel0,
                                                    ki1_depth,
                                                    ki2_depth,
                                                    oc,
                                                    e1,
                                                    e2,
                                                ));
                                            }
                                        }
                                    },
                                }
                            },
                            None => {
                                proof {
                                    assert(battle_reaches(
                                        find_gs1_move,
                                        find_gs2_move,
                                        h1,
                                        h2,
                                        Player::Player2,
                                        fuel0,
                                        ki1_depth,
                                        ki2_depth,
                                        None::<Option<Player>>,
                                        h1,
                                        h2,
                                    ));
                                }
                                return None;
                            },
                        }
                    },
                    None => {
                        proof {
                            assert(battle_reaches(
                                find_gs1_move,
                                find_gs2_move,
                                h1,
                                h2,
                                Player::Player2,
                                fuel0,
                                ki1_depth,
                                ki2_depth,
                                None::<Option<Player>>,
                                h1,
                                h2,
                            ));
                        }
                        return None;
                    },
                }
            },
        }
    }
}

} // verus!
