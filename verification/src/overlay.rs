//! Where the debug overlays are drawn: one segment for the velocity and one
//! for the acceleration of each agent, and a crosshair on the marker.

use vstd::prelude::*;
use crate::agent::{KinematicState, Transform};
use crate::vector::{Vec3, Vector};

verus! {

/// Half the width of the marker's crosshair: ten world units.
pub const CROSSHAIR_ARM: i64 = 10_000;

/// A straight line between two points.
#[derive(Clone, Copy, Debug, PartialEq, Eq, Structural)]
pub struct Segment {
    pub start: Vec3,
    pub end: Vec3,
}

/// The segment from an agent to where its velocity carries it in a second.
pub fn velocity_segment(state: &KinematicState) -> (segment: Segment)
    requires
        state.wf(),
    ensures
        segment.start == state.transform.position,
        segment.end@ == state.transform.position@.plus(state.velocity@),
{
    Segment {
        start: state.transform.position,
        end: state.transform.position.plus(state.velocity),
    }
}

/// The segment from an agent to the side that its acceleration pushes from,
/// as long as the acceleration.
pub fn acceleration_segment(state: &KinematicState) -> (segment: Segment)
    requires
        state.wf(),
    ensures
        segment.start == state.transform.position,
        segment.end@ == state.transform.position@.minus(state.acceleration@),
{
    Segment {
        start: state.transform.position,
        end: state.transform.position.minus(state.acceleration),
    }
}

/// The two segments of the crosshair on the marker: the first along the
/// first axis, the second along the second, each of ten units to either
/// side.
pub fn marker_crosshair(marker: &Transform) -> (cross: (Segment, Segment))
    requires
        marker.wf(),
    ensures
        cross.0.start@ == marker.position@.minus(Vector { x: CROSSHAIR_ARM as int, y: 0, z: 0 }),
        cross.0.end@ == marker.position@.plus(Vector { x: CROSSHAIR_ARM as int, y: 0, z: 0 }),
        cross.1.start@ == marker.position@.minus(Vector { x: 0, y: CROSSHAIR_ARM as int, z: 0 }),
        cross.1.end@ == marker.position@.plus(Vector { x: 0, y: CROSSHAIR_ARM as int, z: 0 }),
{
    let across = Vec3 { x: CROSSHAIR_ARM, y: 0, z: 0 };
    let along = Vec3 { x: 0, y: CROSSHAIR_ARM, z: 0 };
    (
        Segment { start: marker.position.minus(across), end: marker.position.plus(across) },
        Segment { start: marker.position.minus(along), end: marker.position.plus(along) },
    )
}

} // verus!
