//! What an agent is made of: its handle, its placement and its motion.

use vstd::prelude::*;
use crate::angle::is_heading;
use crate::angle::FULL_TURN;
use crate::vector::Vec3;
use crate::vector::WORLD_EXTENT;

verus! {

/// A non-owning reference to an entity of a world. It names a slot and the
/// generation of the occupant it was issued for, and resolves only while that
/// occupant lives.
#[derive(Clone, Copy, Debug, PartialEq, Eq, Structural)]
pub struct AgentRef {
    pub index: usize,
    pub generation: u64,
}

/// Where an entity is and which way it faces.
#[derive(Clone, Copy, Debug, PartialEq, Eq, Structural)]
pub struct Transform {
    pub position: Vec3,
    /// Clockwise heading about the forward axis.
    pub orientation: i64,
}

impl Transform {
    /// The position lies in the world and the orientation within one turn.
    pub open spec fn wf(self) -> bool {
        &&& self.position.in_world()
        &&& is_heading(self.orientation as int)
    }

    /// Tells whether the transform is well formed.
    pub fn is_valid(&self) -> (b: bool)
        ensures
            b == self.wf(),
    {
        self.position.is_in_world() && 0 <= self.orientation && self.orientation < FULL_TURN
    }

    /// A transform at `position`, facing along the reference axis.
    pub fn at(position: Vec3) -> (t: Transform)
        ensures
            t == (Transform { position, orientation: 0 }),
    {
        Transform { position, orientation: 0 }
    }
}

/// `limit` is an admissible cap on a speed or on an acceleration.
pub open spec fn is_limit(limit: int) -> bool {
    0 <= limit <= WORLD_EXTENT
}

/// An optional cap is admissible where it is present.
pub open spec fn is_optional_limit(limit: Option<i64>) -> bool {
    limit matches Some(l) ==> is_limit(l as int)
}

/// The cap that applies: the declared one, or `fallback` where none is
/// declared.
pub open spec fn limit_or(limit: Option<i64>, fallback: int) -> int {
    match limit {
        Some(l) => l as int,
        None => fallback,
    }
}

/// The kinematic state of an agent: placement, motion and optional caps.
#[derive(Clone, Copy, Debug, PartialEq, Eq, Structural)]
pub struct KinematicState {
    pub transform: Transform,
    pub velocity: Vec3,
    pub acceleration: Vec3,
    pub max_velocity: Option<i64>,
    pub max_acceleration: Option<i64>,
}

impl KinematicState {
    /// Every vector lies in the world and every declared cap is admissible.
    pub open spec fn wf(self) -> bool {
        &&& self.transform.wf()
        &&& self.velocity.in_world()
        &&& self.acceleration.in_world()
        &&& is_optional_limit(self.max_velocity)
        &&& is_optional_limit(self.max_acceleration)
    }

    /// The same state with another acceleration.
    pub open spec fn with_acceleration(self, acceleration: Vec3) -> KinematicState {
        KinematicState { acceleration, ..self }
    }

    /// The same state with another orientation.
    pub open spec fn with_orientation(self, orientation: i64) -> KinematicState {
        KinematicState {
            transform: Transform { position: self.transform.position, orientation },
            ..self
        }
    }

    /// Tells whether the state is well formed.
    pub fn is_valid(&self) -> (b: bool)
        ensures
            b == self.wf(),
    {
        self.transform.is_valid() && self.velocity.is_in_world() && self.acceleration.is_in_world()
            && limit_is_valid(self.max_velocity) && limit_is_valid(self.max_acceleration)
    }

    /// A state at rest at `position`, with no caps declared.
    pub fn at_rest(position: Vec3) -> (state: KinematicState)
        ensures
            state == (KinematicState {
                transform: Transform { position, orientation: 0 },
                velocity: Vec3 { x: 0, y: 0, z: 0 },
                acceleration: Vec3 { x: 0, y: 0, z: 0 },
                max_velocity: None,
                max_acceleration: None,
            }),
    {
        KinematicState {
            transform: Transform { position, orientation: 0 },
            velocity: Vec3 { x: 0, y: 0, z: 0 },
            acceleration: Vec3 { x: 0, y: 0, z: 0 },
            max_velocity: None,
            max_acceleration: None,
        }
    }
}

/// Tells whether an optional cap is admissible.
pub fn limit_is_valid(limit: Option<i64>) -> (b: bool)
    ensures
        b == is_optional_limit(limit),
{
    match limit {
        Some(l) => 0 <= l && l <= WORLD_EXTENT,
        None => true,
    }
}

/// The cap that applies: the declared one, or `fallback`.
pub fn limit_or_default(limit: Option<i64>, fallback: i64) -> (l: i64)
    ensures
        l == limit_or(limit, fallback as int),
{
    match limit {
        Some(l) => l,
        None => fallback,
    }
}

} // verus!
