//! Angles, counted in millionths of a half turn.
//!
//! A heading is measured clockwise from the reference axis and lies in one
//! full turn, zero included and the full turn excluded. A bearing is a signed
//! angle of at most half a turn, positive counter-clockwise.

use vstd::prelude::*;

verus! {

/// Half a turn: the angle that a circle's diameter subtends.
pub const HALF_TURN: i64 = 1_000_000;

/// One full turn.
pub const FULL_TURN: i64 = 2_000_000;

/// `angle` is a clockwise heading within one turn.
pub open spec fn is_heading(angle: int) -> bool {
    0 <= angle < FULL_TURN
}

/// `angle` is a signed angle of at most half a turn.
pub open spec fn is_bearing(angle: int) -> bool {
    -HALF_TURN <= angle <= HALF_TURN
}

/// The clockwise heading that a signed bearing stands for: a negative bearing
/// is carried one full turn forward.
pub open spec fn clockwise(bearing: int) -> int {
    if bearing < 0 {
        FULL_TURN + bearing
    } else {
        bearing
    }
}

/// The angle between two directions, taken the short way round.
pub open spec fn separation(a: int, b: int) -> int {
    let apart = if a >= b {
        a - b
    } else {
        b - a
    };
    if FULL_TURN - apart <= apart {
        FULL_TURN - apart
    } else {
        apart
    }
}

/// Converts a signed bearing to a clockwise heading.
pub fn to_clockwise(bearing: i64) -> (heading: i64)
    requires
        is_bearing(bearing as int),
    ensures
        heading == clockwise(bearing as int),
        is_heading(heading as int),
{
    if bearing < 0 {
        FULL_TURN + bearing
    } else {
        bearing
    }
}

/// Measures the angle between two directions the short way round.
pub fn angular_separation(a: i64, b: i64) -> (apart: i64)
    requires
        0 <= a <= FULL_TURN,
        0 <= b <= FULL_TURN,
    ensures
        apart == separation(a as int, b as int),
        0 <= apart <= HALF_TURN,
{
    let apart: i64 = if a >= b {
        a - b
    } else {
        b - a
    };
    if FULL_TURN - apart <= apart {
        FULL_TURN - apart
    } else {
        apart
    }
}

} // verus!
