//! The order of the phases of one simulation tick.
//!
//! A tick runs its phases in one fixed order. The loop that drives the
//! simulation asks this module which phase comes next, runs it, and for the
//! phases that belong to the host hands over to the host.

use vstd::prelude::*;

verus! {

/// One phase of a tick.
#[derive(Clone, Copy, Debug, PartialEq, Eq, Structural)]
pub enum Phase {
    /// The target marker follows the pointer.
    MarkerUpdate,
    /// Every behaviour is evaluated and the accelerations are written.
    Steering,
    /// The host integrates acceleration into velocity and position.
    Integration,
    /// Every agent is turned the way it moves.
    Orientation,
    /// Every nozzle gets its emission rate.
    ThrustMapping,
    /// The host draws the overlays.
    Overlays,
}

impl Phase {
    /// The place of the phase in the tick, from zero.
    pub open spec fn rank(self) -> int {
        match self {
            Phase::MarkerUpdate => 0,
            Phase::Steering => 1,
            Phase::Integration => 2,
            Phase::Orientation => 3,
            Phase::ThrustMapping => 4,
            Phase::Overlays => 5,
        }
    }

    /// The phase that follows; after the last phase of a tick, the first of
    /// the next tick.
    pub open spec fn successor(self) -> Phase {
        match self {
            Phase::MarkerUpdate => Phase::Steering,
            Phase::Steering => Phase::Integration,
            Phase::Integration => Phase::Orientation,
            Phase::Orientation => Phase::ThrustMapping,
            Phase::ThrustMapping => Phase::Overlays,
            Phase::Overlays => Phase::MarkerUpdate,
        }
    }

    /// The phase is carried out by the host, not by this library.
    pub open spec fn is_external(self) -> bool {
        self is Integration || self is Overlays
    }

    /// The phase that a tick begins with.
    pub fn first() -> (phase: Phase)
        ensures
            phase == Phase::MarkerUpdate,
            phase.rank() == 0,
    {
        Phase::MarkerUpdate
    }

    /// The phase that follows this one.
    pub fn next(self) -> (phase: Phase)
        ensures
            phase == self.successor(),
    {
        match self {
            Phase::MarkerUpdate => Phase::Steering,
            Phase::Steering => Phase::Integration,
            Phase::Integration => Phase::Orientation,
            Phase::Orientation => Phase::ThrustMapping,
            Phase::ThrustMapping => Phase::Overlays,
            Phase::Overlays => Phase::MarkerUpdate,
        }
    }

    /// Tells whether the host carries the phase out.
    pub fn runs_in_host(self) -> (b: bool)
        ensures
            b == self.is_external(),
    {
        match self {
            Phase::Integration => true,
            Phase::Overlays => true,
            _ => false,
        }
    }

    /// Tells whether the phase closes a tick.
    pub fn ends_tick(self) -> (b: bool)
        ensures
            b == (self.rank() == 5),
            b == (self.successor().rank() == 0),
    {
        match self {
            Phase::Overlays => true,
            _ => false,
        }
    }
}

/// The phases of one tick, in the order in which they run.
pub open spec fn tick_order() -> Seq<Phase> {
    seq![
        Phase::MarkerUpdate,
        Phase::Steering,
        Phase::Integration,
        Phase::Orientation,
        Phase::ThrustMapping,
        Phase::Overlays,
    ]
}

/// Within a tick each phase is followed by the phase of the next rank, and
/// the last phase by the first: steering never runs before the marker has
/// moved, nor the orientation before the integration.
pub proof fn law_phases_in_order(phase: Phase)
    ensures
        0 <= phase.rank() < 6,
        tick_order()[phase.rank()] == phase,
        phase.successor().rank() == (phase.rank() + 1) % 6,
        phase.successor().successor().successor().successor().successor().successor() == phase,
{
}

/// Lists the phases of one tick in the order in which they run.
pub fn phases() -> (order: Vec<Phase>)
    ensures
        order@ == tick_order(),
{
    let mut order: Vec<Phase> = Vec::new();
    order.push(Phase::MarkerUpdate);
    order.push(Phase::Steering);
    order.push(Phase::Integration);
    order.push(Phase::Orientation);
    order.push(Phase::ThrustMapping);
    order.push(Phase::Overlays);
    assert(order@ =~= tick_order());
    order
}

} // verus!
