//! How the game gets harder as the score grows: spikes come more often and
//! move faster. Scores are in millionths of a frame, intervals in millionths
//! of a tick, speeds in billionths of a unit per tick.
use vstd::prelude::*;

use crate::units::{FRAMES_PER_SECOND, UNIT};

verus! {

/// Longest gap between spawns (100 ticks), in millionths of a tick.
pub const START_INTERVAL: u64 = 100_000_000;

/// Shortest gap between spawns (30 ticks), in millionths of a tick.
pub const MIN_INTERVAL: u64 = 30_000_000;

/// Speed of a spike spawned at score zero (3 units per tick).
pub const BASE_SPEED: i64 = 3 * UNIT;

/// Most that the score can add to a spike's speed (5 units per tick).
pub const MAX_SPEED_BOOST: i64 = 5 * UNIT;

/// `max(100 - score / 50, 30)` ticks, where the score is counted in frames:
/// with both sides scaled by a million, the score divides by 50.
pub open spec fn spawn_interval_spec(score: int) -> int {
    let linear = START_INTERVAL - score / 50;
    if linear >= MIN_INTERVAL { linear } else { MIN_INTERVAL as int }
}

/// `3 + min(score / 1000, 5)` units per tick, where the score is counted in
/// frames: in this scale the score itself is the boost.
pub open spec fn spike_speed_spec(score: int) -> int {
    BASE_SPEED + if score <= MAX_SPEED_BOOST { score } else { MAX_SPEED_BOOST as int }
}

/// A spawn is due once the timer (in ticks) reaches the spawn interval.
pub open spec fn spawn_due_spec(timer: int, score: int) -> bool {
    timer * 1_000_000 >= spawn_interval_spec(score)
}

/// The score after `dt` microseconds: sixty frames per second, saturating
/// at the largest representable score.
pub open spec fn accrued_score_spec(score: u64, dt: u64) -> u64 {
    let s = score + dt * FRAMES_PER_SECOND;
    if s <= u64::MAX { s as u64 } else { u64::MAX }
}

pub fn spawn_interval(score: u64) -> (r: u64)
    ensures
        r == spawn_interval_spec(score as int),
{
    let drop = score / 50;
    if drop <= START_INTERVAL - MIN_INTERVAL {
        START_INTERVAL - drop
    } else {
        MIN_INTERVAL
    }
}

pub fn spike_speed(score: u64) -> (r: i64)
    ensures
        r == spike_speed_spec(score as int),
{
    if score <= MAX_SPEED_BOOST as u64 {
        BASE_SPEED + score as i64
    } else {
        BASE_SPEED + MAX_SPEED_BOOST
    }
}

pub fn spawn_due(timer: u64, score: u64) -> (r: bool)
    ensures
        r == spawn_due_spec(timer as int, score as int),
{
    let interval = spawn_interval(score);
    (timer as u128) * 1_000_000 >= interval as u128
}

pub fn accrued_score(score: u64, dt: u64) -> (r: u64)
    ensures
        r == accrued_score_spec(score, dt),
{
    let gain = (dt as u128) * 60;
    let total = (score as u128) + gain;
    if total <= u64::MAX as u128 {
        total as u64
    } else {
        u64::MAX
    }
}

/// The game only gets harder: a higher score never lengthens the spawn
/// interval, which never drops below its floor, and never slows a new spike,
/// whose speed never exceeds the base speed plus the largest boost.
pub proof fn lemma_difficulty_ramp(a: int, b: int)
    requires
        0 <= a <= b,
    ensures
        spawn_interval_spec(b) <= spawn_interval_spec(a),
        MIN_INTERVAL <= spawn_interval_spec(a) <= START_INTERVAL,
        spike_speed_spec(a) <= spike_speed_spec(b),
        BASE_SPEED <= spike_speed_spec(a) <= BASE_SPEED + MAX_SPEED_BOOST,
{
    assert(a / 50 <= b / 50) by (nonlinear_arith)
        requires
            0 <= a <= b,
    ;
    assert(a / 50 >= 0) by (nonlinear_arith)
        requires
            0 <= a,
    ;
}

} // verus!
