//! Turn expiration: how long a turn lasts and the timeout record armed for it.
//!
//! Armed timeouts are never cancelled. Each carries the turn number it was
//! armed for, and a match ignores a timeout whose turn has already passed.

use vstd::prelude::*;

verus! {

/// The length of the first turn, in microseconds.
pub const BASE_TURN_MICROS: i64 = 5_000_000;

/// The latest instant, in microseconds since the Unix epoch, from which a
/// timeout can be armed without leaving the range of a timestamp.
pub const LATEST_ARMING_MICROS: i64 = 0x7fff_ffff_ffff_ffff - BASE_TURN_MICROS;

/// An instant, in microseconds since the Unix epoch.
#[derive(Clone, Copy, Debug, PartialEq, Eq, Hash, Structural)]
pub struct Timestamp {
    pub micros_since_unix_epoch: i64,
}

/// 1 once turn `n` has reached turn `k`, else 0.
pub open spec fn reached(n: u8, k: u8) -> int {
    if n >= k {
        1
    } else {
        0
    }
}

/// The length of turn `n` in microseconds: five seconds, less one second at
/// each of turns 1, 2 and 4, and less half a second at each of turns 6 and 8.
pub open spec fn turn_duration(n: u8) -> int {
    5_000_000 - 1_000_000 * (reached(n, 1) + reached(n, 2) + reached(n, 4)) - 500_000 * (reached(
        n,
        6,
    ) + reached(n, 8))
}

/// A timeout can be armed at `now`: its due time stays in range.
pub open spec fn schedulable(now: Timestamp) -> bool {
    now.micros_since_unix_epoch <= LATEST_ARMING_MICROS
}

/// A pending timeout: at `scheduled_at`, turn `turn` of match `game_id`
/// expires unless the match has moved on.
#[derive(Clone, Debug)]
pub struct GameDurationTimeSchedule {
    pub scheduled_at: Timestamp,
    pub game_id: String,
    pub turn: u8,
}

/// The length of turn `n`, in microseconds.
pub fn duration_from_turn(n: u8) -> (r: i64)
    ensures
        r == turn_duration(n),
{
    let decrement_1: i64 = (if n >= 1 {
        1
    } else {
        0
    }) + (if n >= 2 {
        1
    } else {
        0
    }) + (if n >= 4 {
        1
    } else {
        0
    });
    let decrement_half: i64 = (if n >= 6 {
        1
    } else {
        0
    }) + (if n >= 8 {
        1
    } else {
        0
    });
    BASE_TURN_MICROS - decrement_1 * 1_000_000 - decrement_half * 500_000
}

/// The timeout for turn `turn` of match `game_id`, due one turn length after
/// `now`.
pub fn set_turn_expiration_schedule(game_id: String, turn: u8, now: Timestamp) -> (s:
    GameDurationTimeSchedule)
    requires
        schedulable(now),
    ensures
        s.game_id == game_id,
        s.turn == turn,
        s.scheduled_at.micros_since_unix_epoch == now.micros_since_unix_epoch + turn_duration(turn),
{
    let turn_time = duration_from_turn(turn);
    GameDurationTimeSchedule {
        scheduled_at: Timestamp { micros_since_unix_epoch: now.micros_since_unix_epoch + turn_time },
        game_id,
        turn,
    }
}

/// Turn lengths never grow as a match goes on.
pub proof fn lemma_turn_duration_non_increasing(a: u8, b: u8)
    requires
        a <= b,
    ensures
        turn_duration(b) <= turn_duration(a),
{
}

/// Turn lengths are 5, 4, 3, 3, 2, 2, 1.5, 1.5 seconds for turns 0 to 7,
/// and one second from turn 8 on.
pub proof fn lemma_turn_duration_values(n: u8)
    ensures
        n == 0 ==> turn_duration(n) == 5_000_000,
        n == 1 ==> turn_duration(n) == 4_000_000,
        2 <= n <= 3 ==> turn_duration(n) == 3_000_000,
        4 <= n <= 5 ==> turn_duration(n) == 2_000_000,
        6 <= n <= 7 ==> turn_duration(n) == 1_500_000,
        8 <= n ==> turn_duration(n) == 1_000_000,
{
}

} // verus!
