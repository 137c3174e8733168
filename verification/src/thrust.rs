//! The thrust mapper: how strongly each nozzle of an agent emits.
//!
//! A nozzle emits in proportion to the power that the agent accelerates
//! with, to how well the nozzle is aligned with the thrust, and to its size.
//! The direction of the acceleration is measured outside this library and
//! comes in as a bearing, as the direction of the velocity does for the
//! orientation.

use vstd::prelude::*;
use crate::agent::KinematicState;
use crate::angle::{angular_separation, is_bearing, is_heading, separation};
use crate::angle::{FULL_TURN, HALF_TURN};
use crate::vector::lemma_length_within;
use crate::vector::Vector;
use crate::vector::{UNIT, WORLD_EXTENT};

verus! {

/// Particles per second that a nozzle of full size emits at full power and
/// at an alignment of one.
pub const EMISSION_SCALE: i64 = 200;

/// The alignment of a nozzle that points exactly along the thrust, in
/// thousandths.
pub const ALIGNMENT_MAX: i64 = 5_000;

/// What is taken off the inverse misalignment, in thousandths.
pub const ALIGNMENT_OFFSET: i64 = 1_500;

/// An emission point fixed on an agent.
#[derive(Clone, Copy, Debug, PartialEq, Eq, Structural)]
pub struct ThrusterNozzle {
    /// The mount angle, a clockwise heading.
    pub angle: i64,
    /// The size factor in thousandths, above zero and at most one.
    pub size: i64,
}

impl ThrusterNozzle {
    /// The mount angle lies within one turn and the size in `(0, 1]`.
    pub open spec fn wf(self) -> bool {
        &&& is_heading(self.angle as int)
        &&& 0 < self.size <= UNIT
    }

    /// Tells whether the nozzle is well formed.
    pub fn is_valid(&self) -> (b: bool)
        ensures
            b == self.wf(),
    {
        0 <= self.angle && self.angle < FULL_TURN && 0 < self.size && self.size <= UNIT
    }
}

/// The power of the thrust, in thousandths: the length of the acceleration
/// over the cap. An agent without a cap is measured against its own
/// acceleration and always runs at full power. A cap of zero admits no
/// acceleration, and the power is zero.
pub open spec fn thrust_power(acceleration: Vector, cap: Option<i64>) -> int {
    match cap {
        None => UNIT as int,
        Some(max) => if max > 0 {
            acceleration.length() * UNIT / (max as int)
        } else {
            0
        },
    }
}

/// The angle between the agent's heading and the side that the acceleration
/// pushes from, which is half a turn from the acceleration's bearing.
pub open spec fn thrust_angle(orientation: int, bearing: int) -> int {
    separation(orientation, bearing + HALF_TURN)
}

/// How well a nozzle mounted at `mount` is aligned with a thrust at
/// `thrust_angle`, in thousandths: the inverse of their difference in half
/// turns, less one and a half, kept between zero and five. A nozzle that
/// points exactly along the thrust has the highest alignment.
pub open spec fn alignment(thrust_angle: int, mount: int) -> int {
    let apart = if thrust_angle >= mount {
        thrust_angle - mount
    } else {
        mount - thrust_angle
    };
    if apart == 0 {
        ALIGNMENT_MAX as int
    } else {
        let raw = UNIT * HALF_TURN / apart - ALIGNMENT_OFFSET;
        if raw < 0 {
            0
        } else if raw > ALIGNMENT_MAX {
            ALIGNMENT_MAX as int
        } else {
            raw
        }
    }
}

/// The emission rate in thousandths of a particle per second.
pub open spec fn emission_rate(power: int, alignment: int, size: int) -> int {
    power * alignment * size * EMISSION_SCALE / (UNIT * UNIT)
}

/// The emission rate of `nozzle` on an agent in `state` whose acceleration
/// has the given bearing.
pub open spec fn emission_of(state: KinematicState, nozzle: ThrusterNozzle, bearing: int) -> int {
    emission_rate(
        thrust_power(state.acceleration@, state.max_acceleration),
        alignment(thrust_angle(state.transform.orientation as int, bearing), nozzle.angle as int),
        nozzle.size as int,
    )
}

/// Computes the power of the thrust, in thousandths.
pub fn power(state: &KinematicState) -> (p: i64)
    requires
        state.wf(),
    ensures
        p == thrust_power(state.acceleration@, state.max_acceleration),
        0 <= p <= 2 * WORLD_EXTENT * UNIT,
{
    match state.max_acceleration {
        None => UNIT,
        Some(max) => {
            if max > 0 {
                proof {
                    lemma_length_within(state.acceleration@, WORLD_EXTENT as int);
                }
                let length: i64 = state.acceleration.length();
                let scaled: i64 = length * UNIT;
                proof {
                    lemma_ratio_within(scaled as int, max as int);
                }
                scaled / max
            } else {
                0
            }
        },
    }
}

/// Computes the alignment of a nozzle with a thrust, in thousandths.
pub fn align(thrust_angle: i64, mount: i64) -> (a: i64)
    requires
        0 <= thrust_angle <= HALF_TURN,
        is_heading(mount as int),
    ensures
        a == alignment(thrust_angle as int, mount as int),
        0 <= a <= ALIGNMENT_MAX,
{
    let apart: i64 = if thrust_angle >= mount {
        thrust_angle - mount
    } else {
        mount - thrust_angle
    };
    if apart == 0 {
        ALIGNMENT_MAX
    } else {
        let inverse: i64 = UNIT * HALF_TURN / apart;
        proof {
            lemma_ratio_within(UNIT * HALF_TURN, apart as int);
        }
        let raw: i64 = inverse - ALIGNMENT_OFFSET;
        if raw < 0 {
            0
        } else if raw > ALIGNMENT_MAX {
            ALIGNMENT_MAX
        } else {
            raw
        }
    }
}

/// Computes the emission rate of `nozzle` on an agent in `state`, in
/// thousandths of a particle per second. `bearing` is the signed angle from
/// the reference axis to the acceleration's projection on the plane.
pub fn emission(state: &KinematicState, nozzle: &ThrusterNozzle, bearing: i64) -> (rate: u64)
    requires
        state.wf(),
        nozzle.wf(),
        is_bearing(bearing as int),
    ensures
        rate == emission_of(*state, *nozzle, bearing as int),
{
    let p: i64 = power(state);
    let angle: i64 = angular_separation(state.transform.orientation, bearing + HALF_TURN);
    let a: i64 = align(angle, nozzle.angle);
    proof {
        lemma_emission_within(p as int, a as int, nozzle.size as int);
    }
    let product: i128 = (p as i128) * (a as i128) * (nozzle.size as i128) * (EMISSION_SCALE as i128);
    let scale: i128 = (UNIT as i128) * (UNIT as i128);
    (product / scale) as u64
}

/// A non-negative dividend over a positive divisor gives a quotient between
/// zero and the dividend.
proof fn lemma_ratio_within(a: int, d: int)
    requires
        a >= 0,
        d > 0,
    ensures
        0 <= a / d <= a,
{
    assert(0 <= a / d <= a) by (nonlinear_arith)
        requires
            a >= 0,
            d > 0,
    ;
}

/// The product behind an emission rate and the rate itself stay in range.
proof fn lemma_emission_within(p: int, a: int, size: int)
    requires
        0 <= p <= 2 * WORLD_EXTENT * UNIT,
        0 <= a <= ALIGNMENT_MAX,
        0 < size <= UNIT,
    ensures
        0 <= p * a <= 100_000_000_000_000_000int,
        0 <= p * a * size <= 100_000_000_000_000_000_000int,
        0 <= p * a * size * EMISSION_SCALE <= 20_000_000_000_000_000_000_000int,
        0 <= p * a * size * EMISSION_SCALE / (UNIT * UNIT) <= 20_000_000_000_000_000int,
{
    assert(0 <= p * a <= 100_000_000_000_000_000int) by (nonlinear_arith)
        requires
            0 <= p <= 20_000_000_000_000int,
            0 <= a <= 5_000,
    ;
    let pa = p * a;
    assert(0 <= pa * size <= 100_000_000_000_000_000_000int) by (nonlinear_arith)
        requires
            0 <= pa <= 100_000_000_000_000_000int,
            0 < size <= 1_000,
    ;
}

} // verus!
