//! Steering behaviours and their control laws.
//!
//! A control law turns the kinematic state of an agent and the transform of
//! its target into the acceleration that the agent asks for. Two laws are
//! defined, seek and arrive; the other behaviours are declared and carry
//! their parameters, but evaluating them changes nothing.

use vstd::prelude::*;
use crate::agent::{limit_or, limit_or_default};
use crate::agent::{AgentRef, KinematicState, Transform};
use crate::vector::{lemma_component_within_reach, lemma_length_within, lemma_limited_bound};
use crate::vector::{lemma_limited_zero, lemma_quot_bounds};
use crate::vector::{magnitude, quot};
use crate::vector::{Vec3, Vector};
use crate::vector::{REACH_EXTENT, UNIT, WORLD_EXTENT};

verus! {

/// The speed that a seeking agent aims for where it declares no cap.
pub const SEEK_MAX_VELOCITY: i64 = 1_000_000;

/// The acceleration that bounds a seeking agent where it declares no cap.
pub const SEEK_MAX_ACCELERATION: i64 = 100_000;

/// The speed that an arriving agent aims for where it declares no cap.
pub const ARRIVE_MAX_VELOCITY: i64 = 5_000_000;

/// The acceleration that bounds an arriving agent where it declares no cap.
pub const ARRIVE_MAX_ACCELERATION: i64 = 200_000;

/// How strongly the closing speed weighs in the braking of an arriving agent.
pub const CLOSING_GAIN: i64 = 10;

/// The policy that assigns an agent its acceleration.
#[derive(Debug, PartialEq, Eq)]
pub enum SteeringBehaviour {
    /// Go to the target at full speed.
    Seek { target: AgentRef },
    /// Go to the target, braking on the approach. The final angle is carried
    /// for a terminal heading and is not read by the law.
    Arrive { target: AgentRef, final_angle: Option<i64> },
    /// Go to the target at full speed, predicting its movement.
    Pursue { target: AgentRef, min_distance: Option<i64> },
    /// Go away from the target at full speed.
    Flee { target: AgentRef },
    /// Go away from the target while it is closer than a minimum distance.
    Evade { target: AgentRef, min_distance: Option<i64> },
    /// Follow a path of waypoints.
    FollowPath { path: Vec<Vec3>, current_index: usize },
    /// Go between two targets.
    Interpose { from_target: AgentRef, to_target: AgentRef },
    /// Hide from the target behind an obstacle.
    Hide { target: AgentRef },
}

/// A range that a steering quantity is held to.
#[derive(Clone, Copy, Debug, PartialEq, Eq)]
pub enum SteeringLimit {
    LinearVelocity { min: i64, max: i64 },
    LinearAcceleration { min: i64, max: i64 },
    AngularVelocity { min: i64, max: i64 },
    AngularAcceleration { min: i64, max: i64 },
}

/// Why the steering of one agent was skipped for one tick.
#[derive(Clone, Copy, Debug, PartialEq, Eq, Structural)]
pub enum SteeringError {
    /// The behaviour refers to an entity that no longer lives.
    DanglingTargetReference,
    /// The behaviour has no control law.
    UnimplementedBehaviourVariant,
}

/// The velocity that an agent at `position` wants in order to reach `target`:
/// towards the target at `max_velocity`, and none at the target itself.
pub open spec fn desired_velocity(position: Vector, target: Vector, max_velocity: int) -> Vector {
    target.minus(position).with_length(max_velocity)
}

/// The seek law: the change from the present velocity to the desired one,
/// limited to `max_acceleration`.
pub open spec fn seek_law(
    position: Vector,
    velocity: Vector,
    target: Vector,
    max_velocity: int,
    max_acceleration: int,
) -> Vector {
    desired_velocity(position, target, max_velocity).minus(velocity).limited(max_acceleration)
}

/// The factor, in thousandths, by which an arriving agent weighs its present
/// velocity: one, plus ten times its speed for each unit of distance left,
/// a distance under one unit counting as one.
pub open spec fn closing_factor(velocity: Vector, difference: Vector) -> int {
    let distance = if difference.length() >= UNIT {
        difference.length()
    } else {
        UNIT as int
    };
    UNIT + velocity.length() * CLOSING_GAIN * UNIT / distance
}

/// The arrive law: as the seek law, but against the present velocity weighed
/// by the closing factor, so that a fast and close agent brakes.
pub open spec fn arrive_law(
    position: Vector,
    velocity: Vector,
    target: Vector,
    max_velocity: int,
    max_acceleration: int,
) -> Vector {
    let difference = target.minus(position);
    let braking = velocity.scaled(closing_factor(velocity, difference), UNIT as int);
    desired_velocity(position, target, max_velocity).minus(braking).limited(max_acceleration)
}

/// The acceleration that the seek law gives an agent in `state`, its caps
/// defaulted where it declares none.
pub open spec fn seek_of(state: KinematicState, target: Transform) -> Vector {
    seek_law(
        state.transform.position@,
        state.velocity@,
        target.position@,
        limit_or(state.max_velocity, SEEK_MAX_VELOCITY as int),
        limit_or(state.max_acceleration, SEEK_MAX_ACCELERATION as int),
    )
}

/// The acceleration that the arrive law gives an agent in `state`, its caps
/// defaulted where it declares none.
pub open spec fn arrive_of(state: KinematicState, target: Transform) -> Vector {
    arrive_law(
        state.transform.position@,
        state.velocity@,
        target.position@,
        limit_or(state.max_velocity, ARRIVE_MAX_VELOCITY as int),
        limit_or(state.max_acceleration, ARRIVE_MAX_ACCELERATION as int),
    )
}

impl SteeringBehaviour {
    /// The behaviour has a control law.
    pub open spec fn is_implemented(self) -> bool {
        self is Seek || self is Arrive
    }

    /// The entity whose transform the behaviour's law reads, for a behaviour
    /// that has a law.
    pub open spec fn law_target(self) -> Option<AgentRef> {
        match self {
            SteeringBehaviour::Seek { target } => Some(target),
            SteeringBehaviour::Arrive { target, .. } => Some(target),
            _ => None,
        }
    }

    /// Names the entity whose transform the behaviour's law reads.
    pub fn target_of_law(&self) -> (target: Option<AgentRef>)
        ensures
            target == self.law_target(),
            target is Some <==> self.is_implemented(),
    {
        match self {
            SteeringBehaviour::Seek { target } => Some(*target),
            SteeringBehaviour::Arrive { target, .. } => Some(*target),
            _ => None,
        }
    }
}

/// What evaluating `behaviour` gives an agent in `state`, where `target` is
/// what the law's target resolved to: the acceleration of the law, or the
/// reason why the agent keeps the acceleration it has.
pub open spec fn steering_of(
    behaviour: SteeringBehaviour,
    state: KinematicState,
    target: Option<Transform>,
) -> Result<Vector, SteeringError> {
    match behaviour {
        SteeringBehaviour::Seek { .. } => match target {
            Some(t) => Ok(seek_of(state, t)),
            None => Err(SteeringError::DanglingTargetReference),
        },
        SteeringBehaviour::Arrive { .. } => match target {
            Some(t) => Ok(arrive_of(state, t)),
            None => Err(SteeringError::DanglingTargetReference),
        },
        _ => Err(SteeringError::UnimplementedBehaviourVariant),
    }
}

/// Evaluates `behaviour` for an agent in `state`. `target` is what the law's
/// target resolved to, `None` where it no longer lives.
pub fn steer(behaviour: &SteeringBehaviour, state: &KinematicState, target: Option<Transform>) -> (result:
    Result<Vec3, SteeringError>)
    requires
        state.wf(),
        target matches Some(t) ==> t.wf(),
    ensures
        match result {
            Ok(steering) => steering_of(*behaviour, *state, target) == Ok::<Vector, SteeringError>(
                steering@,
            ) && steering.in_world(),
            Err(reason) => steering_of(*behaviour, *state, target) == Err::<Vector, SteeringError>(
                reason,
            ),
        },
{
    match behaviour {
        SteeringBehaviour::Seek { .. } => match target {
            Some(t) => Ok(seek(state, &t)),
            None => Err(SteeringError::DanglingTargetReference),
        },
        SteeringBehaviour::Arrive { .. } => match target {
            Some(t) => Ok(arrive(state, &t)),
            None => Err(SteeringError::DanglingTargetReference),
        },
        _ => Err(SteeringError::UnimplementedBehaviourVariant),
    }
}

/// The velocity of an arriving agent weighed by its closing factor.
pub open spec fn arrive_braking(velocity: Vector, difference: Vector) -> Vector {
    velocity.scaled(closing_factor(velocity, difference), UNIT as int)
}

/// The seek law never asks for more than the acceleration cap.
pub proof fn law_seek_within_limit(
    position: Vector,
    velocity: Vector,
    target: Vector,
    max_velocity: int,
    max_acceleration: int,
)
    requires
        max_acceleration >= 0,
    ensures
        seek_law(position, velocity, target, max_velocity, max_acceleration).norm_sq()
            <= max_acceleration * max_acceleration,
{
    lemma_limited_bound(
        desired_velocity(position, target, max_velocity).minus(velocity),
        max_acceleration,
    );
}

/// The arrive law never asks for more than the acceleration cap.
pub proof fn law_arrive_within_limit(
    position: Vector,
    velocity: Vector,
    target: Vector,
    max_velocity: int,
    max_acceleration: int,
)
    requires
        max_acceleration >= 0,
    ensures
        arrive_law(position, velocity, target, max_velocity, max_acceleration).norm_sq()
            <= max_acceleration * max_acceleration,
{
    let braking = arrive_braking(velocity, target.minus(position));
    lemma_limited_bound(
        desired_velocity(position, target, max_velocity).minus(braking),
        max_acceleration,
    );
}

/// An agent that sits on its target and seeks it asks for the opposite of
/// its velocity, limited. So a resting agent asks for nothing, and a moving
/// one asks for nothing only where the limit rounds its whole velocity away.
pub proof fn law_seek_at_target(
    position: Vector,
    velocity: Vector,
    max_velocity: int,
    max_acceleration: int,
)
    requires
        max_acceleration >= 0,
    ensures
        seek_law(position, velocity, position, max_velocity, max_acceleration)
            == velocity.negated().limited(max_acceleration),
        velocity == Vector::zero() ==> seek_law(
            position,
            velocity,
            position,
            max_velocity,
            max_acceleration,
        ) == Vector::zero(),
        seek_law(position, velocity, position, max_velocity, max_acceleration) == Vector::zero()
            <==> velocity == Vector::zero() || (velocity.norm_sq() > max_acceleration
            * max_acceleration && velocity.fades_under(max_acceleration)),
{
    let difference = position.minus(position);
    assert(difference == Vector::zero());
    assert(difference.norm_sq() == 0) by (nonlinear_arith)
        requires
            difference == Vector::zero(),
    ;
    assert(Vector::zero().minus(velocity) == velocity.negated());
    lemma_negated_same_length(velocity);
    lemma_limited_zero(velocity.negated(), max_acceleration);
}

/// An agent that sits on its target and arrives at it asks for the opposite
/// of its weighed velocity, limited. So a resting agent asks for nothing, and
/// a moving one asks for nothing only where the limit rounds its whole
/// weighed velocity away.
pub proof fn law_arrive_at_target(
    position: Vector,
    velocity: Vector,
    max_velocity: int,
    max_acceleration: int,
)
    requires
        max_acceleration >= 0,
    ensures
        arrive_law(position, velocity, position, max_velocity, max_acceleration) == arrive_braking(
            velocity,
            Vector::zero(),
        ).negated().limited(max_acceleration),
        velocity == Vector::zero() ==> arrive_law(
            position,
            velocity,
            position,
            max_velocity,
            max_acceleration,
        ) == Vector::zero(),
        arrive_law(position, velocity, position, max_velocity, max_acceleration) == Vector::zero()
            <==> velocity == Vector::zero() || (arrive_braking(velocity, Vector::zero()).norm_sq()
            > max_acceleration * max_acceleration && arrive_braking(
            velocity,
            Vector::zero(),
        ).fades_under(max_acceleration)),
{
    let difference = position.minus(position);
    assert(difference == Vector::zero());
    assert(difference.norm_sq() == 0) by (nonlinear_arith)
        requires
            difference == Vector::zero(),
    ;
    let braking = arrive_braking(velocity, Vector::zero());
    assert(Vector::zero().minus(braking) == braking.negated());
    lemma_negated_same_length(braking);
    lemma_limited_zero(braking.negated(), max_acceleration);
    lemma_braking_zero(velocity, Vector::zero());
}

/// A vector and its opposite have the same length and fade alike.
proof fn lemma_negated_same_length(v: Vector)
    ensures
        v.negated().norm_sq() == v.norm_sq(),
        v.negated().reach() == v.reach(),
        forall|max: int| v.negated().fades_under(max) == v.fades_under(max),
        v.negated() == Vector::zero() <==> v == Vector::zero(),
{
    assert((-v.x) * (-v.x) == v.x * v.x) by (nonlinear_arith);
    assert((-v.y) * (-v.y) == v.y * v.y) by (nonlinear_arith);
    assert((-v.z) * (-v.z) == v.z * v.z) by (nonlinear_arith);
}

/// Weighing by the closing factor, which is at least one, brings no velocity
/// to rest but the zero velocity.
proof fn lemma_braking_zero(velocity: Vector, difference: Vector)
    ensures
        arrive_braking(velocity, difference) == Vector::zero() <==> velocity == Vector::zero(),
{
    let factor = closing_factor(velocity, difference);
    lemma_component_within_reach(velocity);
    lemma_component_within_reach(difference);
    let distance = if difference.length() >= UNIT {
        difference.length()
    } else {
        UNIT as int
    };
    assert(velocity.length() * CLOSING_GAIN * UNIT / distance >= 0) by (nonlinear_arith)
        requires
            velocity.length() >= 0,
            distance >= 1000,
    ;
    lemma_weighing_keeps_sign(velocity.x, factor);
    lemma_weighing_keeps_sign(velocity.y, factor);
    lemma_weighing_keeps_sign(velocity.z, factor);
}

/// A component weighed by a factor of at least one comes to zero only if it
/// was zero.
proof fn lemma_weighing_keeps_sign(c: int, factor: int)
    requires
        factor >= UNIT,
    ensures
        quot(c * factor, UNIT as int) == 0 <==> c == 0,
{
    lemma_quot_bounds(c * factor, UNIT as int);
    assert(magnitude(c * factor) >= magnitude(c) * UNIT) by (nonlinear_arith)
        requires
            factor >= UNIT,
            UNIT == 1000,
            magnitude(c) == c || magnitude(c) == -c,
            magnitude(c) >= 0,
            magnitude(c * factor) == c * factor || magnitude(c * factor) == -(c * factor),
            magnitude(c * factor) >= 0,
    ;
    if c == 0 {
        assert(c * factor == 0) by (nonlinear_arith)
            requires
                c == 0,
        ;
    }
}

/// Computes the seek law for an agent in `state`.
pub fn seek(state: &KinematicState, target: &Transform) -> (steering: Vec3)
    requires
        state.wf(),
        target.wf(),
    ensures
        steering@ == seek_of(*state, *target),
        steering@.norm_sq() <= limit_or(state.max_acceleration, SEEK_MAX_ACCELERATION as int)
            * limit_or(state.max_acceleration, SEEK_MAX_ACCELERATION as int),
        steering.in_world(),
{
    let max_velocity: i64 = limit_or_default(state.max_velocity, SEEK_MAX_VELOCITY);
    let max_acceleration: i64 = limit_or_default(state.max_acceleration, SEEK_MAX_ACCELERATION);
    let difference: Vec3 = target.position.minus(state.transform.position);
    let desired: Vec3 = difference.with_length(max_velocity);
    desired.minus(state.velocity).limited(max_acceleration)
}

/// Computes the closing factor of an arriving agent, in thousandths.
pub fn closing(velocity: Vec3, difference: Vec3) -> (factor: i64)
    requires
        velocity.in_world(),
        difference@.within(2 * WORLD_EXTENT),
    ensures
        factor == closing_factor(velocity@, difference@),
        UNIT <= factor <= UNIT + 2 * WORLD_EXTENT * CLOSING_GAIN,
{
    proof {
        lemma_length_within(velocity@, WORLD_EXTENT as int);
        lemma_length_within(difference@, 2 * WORLD_EXTENT);
    }
    let speed: i64 = velocity.length();
    let length: i64 = difference.length();
    let distance: i64 = if length >= UNIT {
        length
    } else {
        UNIT
    };
    let weighed: i64 = speed * CLOSING_GAIN * UNIT;
    proof {
        lemma_quotient_within(weighed as int, distance as int, speed * CLOSING_GAIN);
    }
    UNIT + weighed / distance
}

/// Computes the arrive law for an agent in `state`.
pub fn arrive(state: &KinematicState, target: &Transform) -> (steering: Vec3)
    requires
        state.wf(),
        target.wf(),
    ensures
        steering@ == arrive_of(*state, *target),
        steering@.norm_sq() <= limit_or(state.max_acceleration, ARRIVE_MAX_ACCELERATION as int)
            * limit_or(state.max_acceleration, ARRIVE_MAX_ACCELERATION as int),
        steering.in_world(),
{
    let max_velocity: i64 = limit_or_default(state.max_velocity, ARRIVE_MAX_VELOCITY);
    let max_acceleration: i64 = limit_or_default(state.max_acceleration, ARRIVE_MAX_ACCELERATION);
    let difference: Vec3 = target.position.minus(state.transform.position);
    let desired: Vec3 = difference.with_length(max_velocity);
    let factor: i64 = closing(state.velocity, difference);
    let braking: Vec3 = weighed(state.velocity, factor);
    desired.minus(braking).limited(max_acceleration)
}

/// Weighs a velocity by a factor given in thousandths.
fn weighed(velocity: Vec3, factor: i64) -> (braking: Vec3)
    requires
        velocity.in_world(),
        UNIT <= factor <= UNIT + 2 * WORLD_EXTENT * CLOSING_GAIN,
    ensures
        braking@ == velocity@.scaled(factor as int, UNIT as int),
        braking@.within(REACH_EXTENT - WORLD_EXTENT),
{
    let wide: i128 = factor as i128;
    let unit: i128 = UNIT as i128;
    proof {
        lemma_weighed_within(velocity.x as int, factor as int);
        lemma_weighed_within(velocity.y as int, factor as int);
        lemma_weighed_within(velocity.z as int, factor as int);
    }
    let x: i128 = (velocity.x as i128) * wide / unit;
    let y: i128 = (velocity.y as i128) * wide / unit;
    let z: i128 = (velocity.z as i128) * wide / unit;
    Vec3 { x: x as i64, y: y as i64, z: z as i64 }
}

/// A component of a velocity, weighed by a closing factor, stays in range.
proof fn lemma_weighed_within(c: int, factor: int)
    requires
        -WORLD_EXTENT <= c <= WORLD_EXTENT,
        UNIT <= factor <= UNIT + 2 * WORLD_EXTENT * CLOSING_GAIN,
    ensures
        -(WORLD_EXTENT * (UNIT + 2 * WORLD_EXTENT * CLOSING_GAIN)) <= c * factor <= WORLD_EXTENT * (
        UNIT + 2 * WORLD_EXTENT * CLOSING_GAIN),
        WORLD_EXTENT * (UNIT + 2 * WORLD_EXTENT * CLOSING_GAIN) == 2_000_000_010_000_000_000_000int,
        -(REACH_EXTENT - WORLD_EXTENT) <= quot(c * factor, UNIT as int) <= REACH_EXTENT
            - WORLD_EXTENT,
{
    let top = UNIT + 2 * WORLD_EXTENT * CLOSING_GAIN;
    assert(-(WORLD_EXTENT * top) <= c * factor <= WORLD_EXTENT * top) by (nonlinear_arith)
        requires
            -WORLD_EXTENT <= c <= WORLD_EXTENT,
            0 <= factor <= top,
    ;
    lemma_quot_bounds(c * factor, UNIT as int);
}

/// A quotient by a divisor of at least one unit is bounded by the dividend's
/// count of units.
proof fn lemma_quotient_within(a: int, d: int, bound: int)
    requires
        a == bound * UNIT,
        bound >= 0,
        d >= UNIT,
    ensures
        0 <= a / d <= bound,
{
    assert(0 <= a / d <= bound) by (nonlinear_arith)
        requires
            a == bound * 1000,
            bound >= 0,
            d >= 1000,
    ;
}

} // verus!
