//! The orientation updater: an agent faces the way it moves.
//!
//! The direction of the velocity is measured outside this library and comes
//! in as a bearing: the signed angle from the reference axis to the velocity's
//! projection on the plane. A velocity counts as still exactly when it is
//! zero: the least squared speed that these vectors can express, a millionth
//! of a squared unit, is already more than a rounding error.

use vstd::prelude::*;
use crate::agent::KinematicState;
use crate::angle::{clockwise, is_bearing, is_heading, to_clockwise};
use crate::vector::lemma_component_within_reach;
use crate::vector::Vector;

verus! {

/// The velocity has a direction.
pub open spec fn is_moving(velocity: Vector) -> bool {
    velocity.norm_sq() > 0
}

/// The orientation of an agent after the update: the clockwise heading of its
/// velocity where it moves, and the orientation it had where it is still.
pub open spec fn facing(orientation: int, velocity: Vector, bearing: int) -> int {
    if is_moving(velocity) {
        clockwise(bearing)
    } else {
        orientation
    }
}

/// The orientation of a moving agent lies within one turn, whatever it was
/// before.
pub proof fn law_facing_is_heading(orientation: int, velocity: Vector, bearing: int)
    requires
        is_bearing(bearing),
        velocity != Vector::zero(),
    ensures
        is_heading(facing(orientation, velocity, bearing)),
        facing(orientation, velocity, bearing) == clockwise(bearing),
{
    lemma_component_within_reach(velocity);
}

/// Computes the orientation of an agent in `state` whose velocity has the
/// given bearing.
pub fn face_velocity(state: &KinematicState, bearing: i64) -> (orientation: i64)
    requires
        state.wf(),
        is_bearing(bearing as int),
    ensures
        orientation == facing(state.transform.orientation as int, state.velocity@, bearing as int),
        is_heading(orientation as int),
{
    proof {
        lemma_component_within_reach(state.velocity@);
    }
    if state.velocity.x != 0 || state.velocity.y != 0 || state.velocity.z != 0 {
        to_clockwise(bearing)
    } else {
        state.transform.orientation
    }
}

} // verus!
