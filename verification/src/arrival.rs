//! Timed arrival: an agent goes to the target and stops there.
//!
//! Each tick the agent is in one of five phases, decided from how far it is,
//! how fast it moves, how far it would still travel while braking, and how
//! well its velocity points at the target. The angle between the way to the
//! target and the velocity is measured outside this library and comes in as
//! the spread, between zero and half a turn.

use vstd::prelude::*;
use crate::agent::{limit_or, limit_or_default};
use crate::agent::{KinematicState, Transform};
use crate::angle::HALF_TURN;
use crate::steering::{ARRIVE_MAX_ACCELERATION, ARRIVE_MAX_VELOCITY};
use crate::vector::{lemma_component_within_reach, lemma_length_within, lemma_limited_bound};
use crate::vector::magnitude;
use crate::vector::{Vec3, Vector};
use crate::vector::{UNIT, WORLD_EXTENT};

verus! {

/// The distance under which the target counts as reached: thirty units.
pub const ARRIVAL_RADIUS: i64 = 30_000;

/// The misalignment above which the agent first turns its velocity towards
/// the target: two percent, in thousandths of a percent.
pub const ALIGNMENT_TOLERANCE: i64 = 2_000;

/// How strongly the present velocity is held against the way to the target
/// while the agent aligns.
pub const ALIGNING_GAIN: i64 = 15;

/// What an arriving agent does in one tick.
#[derive(Clone, Copy, Debug, PartialEq, Eq, Structural)]
pub enum ArrivalPhase {
    /// The agent is on the target: it asks for no acceleration.
    Arrived,
    /// The agent decelerates before it is too late to stop at the target.
    Brake,
    /// The target is reached: the agent kills its velocity.
    Stop,
    /// The agent turns its velocity towards the target.
    Align,
    /// The agent goes towards the target as fast as it may.
    Cruise,
}

/// What there is to say about one tick of an arriving agent.
#[derive(Clone, Copy, Debug, PartialEq, Eq, Structural)]
pub struct ArrivalReport {
    pub phase: ArrivalPhase,
    /// The speed of the agent.
    pub speed: i64,
    /// The length of the acceleration that the agent had before this tick.
    pub acceleration: i64,
    /// The misalignment of the velocity, in thousandths of a percent.
    pub misalignment: i64,
}

/// How badly the velocity is aligned with the way to the target, in
/// thousandths of a percent: nothing where it points straight at the target
/// or straight away from it, a hundred percent where it points across.
pub open spec fn misalignment(spread: int) -> int {
    magnitude(HALF_TURN - magnitude(2 * spread - HALF_TURN)) / 10
}

/// The distance that an agent at `speed` travels while it brakes with
/// `max_acceleration`, which is not zero.
pub open spec fn stopping_distance(speed: int, max_acceleration: int) -> int {
    speed * speed / (2 * max_acceleration)
}

/// The phase of an agent that is `distance` away from its target, which is
/// more than nothing. `elapsed` is the duration of the tick in thousandths of
/// a second. An agent that cannot accelerate never stops in time, and brakes.
pub open spec fn arrival_phase(
    distance: int,
    speed: int,
    max_acceleration: int,
    elapsed: int,
    spread: int,
) -> ArrivalPhase {
    if max_acceleration == 0 || distance - stopping_distance(speed, max_acceleration) < speed
        * elapsed / (UNIT as int) {
        ArrivalPhase::Brake
    } else if distance < ARRIVAL_RADIUS {
        ArrivalPhase::Stop
    } else if misalignment(spread) > ALIGNMENT_TOLERANCE {
        ArrivalPhase::Align
    } else {
        ArrivalPhase::Cruise
    }
}

/// The acceleration that an agent asks for in `phase`, before it is limited.
pub open spec fn arrival_demand(
    phase: ArrivalPhase,
    difference: Vector,
    velocity: Vector,
    max_velocity: int,
) -> Vector {
    match phase {
        ArrivalPhase::Arrived => Vector::zero(),
        ArrivalPhase::Brake => difference.with_length(max_velocity).scaled(1, 2).minus(
            velocity.with_length(max_velocity),
        ),
        ArrivalPhase::Stop => velocity.negated(),
        ArrivalPhase::Align => difference.minus(velocity.scaled(ALIGNING_GAIN as int, 1)).with_length(
            max_velocity,
        ),
        ArrivalPhase::Cruise => difference.with_length(max_velocity).minus(velocity),
    }
}

/// The phase of an agent in `state` that arrives at `target`.
pub open spec fn phase_of(state: KinematicState, target: Transform, elapsed: int, spread: int)
    -> ArrivalPhase {
    let difference = target.position@.minus(state.transform.position@);
    if difference.norm_sq() == 0 {
        ArrivalPhase::Arrived
    } else {
        arrival_phase(
            difference.length(),
            state.velocity@.length(),
            limit_or(state.max_acceleration, ARRIVE_MAX_ACCELERATION as int),
            elapsed,
            spread,
        )
    }
}

/// The acceleration of an agent in `state` that arrives at `target`: what
/// its phase demands, limited to its acceleration cap.
pub open spec fn arrival_of(state: KinematicState, target: Transform, elapsed: int, spread: int)
    -> Vector {
    arrival_demand(
        phase_of(state, target, elapsed, spread),
        target.position@.minus(state.transform.position@),
        state.velocity@,
        limit_or(state.max_velocity, ARRIVE_MAX_VELOCITY as int),
    ).limited(limit_or(state.max_acceleration, ARRIVE_MAX_ACCELERATION as int))
}

impl ArrivalReport {
    /// The report is the one on an agent in `state` that arrives at `target`:
    /// it names the agent's phase, its speed, the length of the acceleration
    /// it had, and the misalignment of its velocity.
    pub open spec fn describes(
        self,
        state: KinematicState,
        target: Transform,
        elapsed: int,
        spread: int,
    ) -> bool {
        &&& self.phase == phase_of(state, target, elapsed, spread)
        &&& self.speed == state.velocity@.length()
        &&& self.acceleration == state.acceleration@.length()
        &&& self.misalignment == misalignment(spread)
    }
}

/// An arriving agent never asks for more than its acceleration cap, and an
/// agent on its target asks for nothing.
pub proof fn law_arrival_within_limit(
    state: KinematicState,
    target: Transform,
    elapsed: int,
    spread: int,
)
    requires
        state.wf(),
    ensures
        arrival_of(state, target, elapsed, spread).norm_sq() <= limit_or(
            state.max_acceleration,
            ARRIVE_MAX_ACCELERATION as int,
        ) * limit_or(state.max_acceleration, ARRIVE_MAX_ACCELERATION as int),
        target.position == state.transform.position ==> arrival_of(state, target, elapsed, spread)
            == Vector::zero(),
{
    let max_acceleration = limit_or(state.max_acceleration, ARRIVE_MAX_ACCELERATION as int);
    let difference = target.position@.minus(state.transform.position@);
    lemma_limited_bound(
        arrival_demand(
            phase_of(state, target, elapsed, spread),
            difference,
            state.velocity@,
            limit_or(state.max_velocity, ARRIVE_MAX_VELOCITY as int),
        ),
        max_acceleration,
    );
    if target.position == state.transform.position {
        assert(difference == Vector::zero());
        lemma_component_within_reach(difference);
        assert(max_acceleration * max_acceleration >= 0) by (nonlinear_arith);
    }
}

/// Computes the misalignment for a spread, in thousandths of a percent.
pub fn misalign(spread: i64) -> (m: i64)
    requires
        0 <= spread <= HALF_TURN,
    ensures
        m == misalignment(spread as int),
        0 <= m <= 100_000,
{
    let doubled: i64 = 2 * spread - HALF_TURN;
    let folded: i64 = HALF_TURN - if doubled >= 0 {
        doubled
    } else {
        -doubled
    };
    folded / 10
}

/// Decides the phase of an agent that is `distance` away from its target.
pub fn decide_phase(distance: i64, speed: i64, max_acceleration: i64, elapsed: u64, spread: i64) -> (phase:
    ArrivalPhase)
    requires
        0 < distance <= 4 * WORLD_EXTENT,
        0 <= speed <= 2 * WORLD_EXTENT,
        0 <= max_acceleration <= WORLD_EXTENT,
        0 <= spread <= HALF_TURN,
    ensures
        phase == arrival_phase(
            distance as int,
            speed as int,
            max_acceleration as int,
            elapsed as int,
            spread as int,
        ),
{
    if max_acceleration == 0 {
        return ArrivalPhase::Brake;
    }
    let fast: i128 = speed as i128;
    proof {
        lemma_travel_within(speed as int, elapsed as int, max_acceleration as int);
    }
    let stopping: i128 = fast * fast / (2 * (max_acceleration as i128));
    let travelled: i128 = fast * (elapsed as i128) / (UNIT as i128);
    if (distance as i128) - stopping < travelled {
        ArrivalPhase::Brake
    } else if distance < ARRIVAL_RADIUS {
        ArrivalPhase::Stop
    } else if misalign(spread) > ALIGNMENT_TOLERANCE {
        ArrivalPhase::Align
    } else {
        ArrivalPhase::Cruise
    }
}

/// Computes the acceleration of an agent in `state` that arrives at
/// `target`, and the report on the tick. `elapsed` is the duration of the
/// tick in thousandths of a second, `spread` the angle between the way to the
/// target and the velocity.
pub fn arrive_to_marker(state: &KinematicState, target: &Transform, elapsed: u64, spread: i64) -> (result:
    (Vec3, ArrivalReport))
    requires
        state.wf(),
        target.wf(),
        0 <= spread <= HALF_TURN,
    ensures
        result.0@ == arrival_of(*state, *target, elapsed as int, spread as int),
        result.0.in_world(),
        result.1.describes(*state, *target, elapsed as int, spread as int),
{
    let max_velocity: i64 = limit_or_default(state.max_velocity, ARRIVE_MAX_VELOCITY);
    let max_acceleration: i64 = limit_or_default(state.max_acceleration, ARRIVE_MAX_ACCELERATION);
    let difference: Vec3 = target.position.minus(state.transform.position);
    let velocity: Vec3 = state.velocity;
    proof {
        lemma_length_within(difference@, 2 * WORLD_EXTENT);
        lemma_length_within(velocity@, WORLD_EXTENT as int);
        lemma_length_within(state.acceleration@, WORLD_EXTENT as int);
        lemma_component_within_reach(difference@);
    }
    let speed: i64 = velocity.length();
    let before: i64 = state.acceleration.length();
    let missed: i64 = misalign(spread);
    if difference.x == 0 && difference.y == 0 && difference.z == 0 {
        let report = ArrivalReport {
            phase: ArrivalPhase::Arrived,
            speed,
            acceleration: before,
            misalignment: missed,
        };
        assert(max_acceleration * max_acceleration >= 0) by (nonlinear_arith);
        return (Vec3::zero(), report);
    }
    let distance: i64 = difference.length();
    let phase: ArrivalPhase = decide_phase(distance, speed, max_acceleration, elapsed, spread);
    let demand: Vec3 = match phase {
        ArrivalPhase::Arrived => Vec3::zero(),
        ArrivalPhase::Brake => {
            let towards: Vec3 = difference.with_length(max_velocity);
            let half = Vec3 { x: towards.x / 2, y: towards.y / 2, z: towards.z / 2 };
            half.minus(velocity.with_length(max_velocity))
        },
        ArrivalPhase::Stop => Vec3 { x: -velocity.x, y: -velocity.y, z: -velocity.z },
        ArrivalPhase::Align => {
            let held = Vec3 {
                x: velocity.x * ALIGNING_GAIN,
                y: velocity.y * ALIGNING_GAIN,
                z: velocity.z * ALIGNING_GAIN,
            };
            difference.minus(held).with_length(max_velocity)
        },
        ArrivalPhase::Cruise => difference.with_length(max_velocity).minus(velocity),
    };
    let report = ArrivalReport { phase, speed, acceleration: before, misalignment: missed };
    (demand.limited(max_acceleration), report)
}

/// The products behind the stopping distance and the distance travelled in
/// one tick stay in range.
proof fn lemma_travel_within(speed: int, elapsed: int, max_acceleration: int)
    requires
        0 <= speed <= 2 * WORLD_EXTENT,
        0 <= elapsed <= u64::MAX,
        0 < max_acceleration,
    ensures
        0 <= speed * speed <= 400_000_000_000_000_000_000int,
        0 <= speed * elapsed <= 368_934_881_474_191_032_300_000_000_000int,
        0 <= speed * speed / (2 * max_acceleration) <= 400_000_000_000_000_000_000int,
        0 <= speed * elapsed / (UNIT as int),
{
    assert(0 <= speed * speed <= 400_000_000_000_000_000_000int) by (nonlinear_arith)
        requires
            0 <= speed <= 20_000_000_000int,
    ;
    assert(0 <= speed * elapsed <= 368_934_881_474_191_032_300_000_000_000int)
        by (nonlinear_arith)
        requires
            0 <= speed <= 20_000_000_000int,
            0 <= elapsed <= 18_446_744_073_709_551_615int,
    ;
    let square = speed * speed;
    let divisor = 2 * max_acceleration;
    assert(0 <= square / divisor <= square) by (nonlinear_arith)
        requires
            square >= 0,
            divisor > 0,
    ;
}

} // verus!
