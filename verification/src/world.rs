//! The world: an arena of entities with exactly one target marker.
//!
//! Entities are referred to by `AgentRef` handles. A handle resolves while
//! the entity it was issued for lives; once the entity is removed the handle
//! is retired and never resolves again, whatever takes the slot afterwards.

use vstd::prelude::*;
use crate::agent::{AgentRef, KinematicState, Transform};
use crate::angle::is_bearing;
use crate::angle::HALF_TURN;
use crate::arrival::{arrival_of, arrive_to_marker};
use crate::arrival::ArrivalReport;
use crate::marker::{marker_after_click, move_marker_on_click};
use crate::marker::MouseState;
use crate::orientation::{face_velocity, facing};
use crate::steering::{steer, steering_of};
use crate::steering::{SteeringBehaviour, SteeringError};
use crate::thrust::{emission, emission_of};
use crate::thrust::ThrusterNozzle;
use crate::vector::{Vec3, Vector};

verus! {

/// A simulated entity with a kinematic state, at most one steering
/// behaviour, and the nozzles mounted on it.
#[derive(Debug, PartialEq, Eq)]
pub struct Agent {
    pub state: KinematicState,
    pub behaviour: Option<SteeringBehaviour>,
    pub nozzles: Vec<ThrusterNozzle>,
}

impl Agent {
    /// The state and every nozzle are well formed.
    pub open spec fn wf(self) -> bool {
        &&& self.state.wf()
        &&& forall|i: int| 0 <= i < self.nozzles@.len() ==> (#[trigger] self.nozzles@[i]).wf()
    }

    /// The same agent in another kinematic state.
    pub open spec fn with_state(self, state: KinematicState) -> Agent {
        Agent { state, ..self }
    }

    /// Tells whether the agent is well formed.
    pub fn is_valid(&self) -> (b: bool)
        ensures
            b == self.wf(),
    {
        if !self.state.is_valid() {
            return false;
        }
        let mut i: usize = 0;
        while i < self.nozzles.len()
            invariant
                i <= self.nozzles@.len(),
                forall|j: int| 0 <= j < i ==> (#[trigger] self.nozzles@[j]).wf(),
            decreases self.nozzles@.len() - i,
        {
            if !self.nozzles[i].is_valid() {
                return false;
            }
            i += 1;
        }
        true
    }
}

/// What a slot of the world may hold.
#[derive(Debug, PartialEq, Eq)]
pub enum Entity {
    /// The destination that the player designates.
    Marker(Transform),
    /// Anything that moves.
    Agent(Agent),
}

impl Entity {
    /// The entity is well formed.
    pub open spec fn wf(self) -> bool {
        match self {
            Entity::Marker(transform) => transform.wf(),
            Entity::Agent(agent) => agent.wf(),
        }
    }

    /// Where the entity is and which way it faces.
    pub open spec fn transform(self) -> Transform {
        match self {
            Entity::Marker(transform) => transform,
            Entity::Agent(agent) => agent.state.transform,
        }
    }

    /// Tells whether the entity is well formed.
    pub fn is_valid(&self) -> (b: bool)
        ensures
            b == self.wf(),
    {
        match self {
            Entity::Marker(transform) => transform.is_valid(),
            Entity::Agent(agent) => agent.is_valid(),
        }
    }

    /// Reads where the entity is and which way it faces.
    pub fn placement(&self) -> (t: Transform)
        ensures
            t == self.transform(),
    {
        match self {
            Entity::Marker(transform) => *transform,
            Entity::Agent(agent) => agent.state.transform,
        }
    }
}

/// What one steering tick did to one slot of the world.
#[derive(Clone, Copy, Debug, PartialEq, Eq, Structural)]
pub enum SteeringOutcome {
    /// The slot holds no agent with a behaviour.
    Idle,
    /// The agent's acceleration is now what its behaviour's law gives.
    Steered,
    /// The agent keeps the acceleration it had.
    Skipped(SteeringError),
}

/// Why a world could not be built.
#[derive(Clone, Copy, Debug, PartialEq, Eq, Structural)]
pub enum WorldError {
    /// The entities hold no target marker, or more than one.
    MissingSingleton { found: usize },
}

/// The number of target markers among `entities`.
pub open spec fn marker_count(entities: Seq<Entity>) -> nat
    decreases entities.len(),
{
    if entities.len() == 0 {
        0
    } else {
        marker_count(entities.drop_last()) + if entities.last() is Marker {
            1nat
        } else {
            0nat
        }
    }
}

/// One place of the arena: the generation of its present or next occupant,
/// and the occupant.
struct Slot {
    generation: u64,
    occupant: Option<Entity>,
}

/// An arena of entities among which exactly one is the target marker.
pub struct World {
    slots: Vec<Slot>,
    marker: usize,
}

impl View for World {
    type V = Map<AgentRef, Entity>;

    /// The living entities, each under the handle that resolves to it.
    closed spec fn view(&self) -> Map<AgentRef, Entity> {
        Map::new(
            |r: AgentRef| self.holds(r),
            |r: AgentRef| self.slots@[r.index as int].occupant->0,
        )
    }
}

impl World {
    /// The slot that `r` names holds the occupant that `r` was issued for.
    spec fn holds(&self, r: AgentRef) -> bool {
        &&& r.index < self.slots@.len()
        &&& self.slots@[r.index as int].generation == r.generation
        &&& self.slots@[r.index as int].occupant is Some
    }

    /// The number of slots, occupied or not.
    pub closed spec fn capacity(&self) -> nat {
        self.slots@.len()
    }

    /// The handle of the target marker.
    pub closed spec fn marker_ref(&self) -> AgentRef {
        AgentRef {
            index: self.marker,
            generation: self.slots@[self.marker as int].generation,
        }
    }

    /// `r` was issued for an entity that has since been removed: it names a
    /// past generation of its slot.
    pub closed spec fn is_spent(&self, r: AgentRef) -> bool {
        &&& r.index < self.slots@.len()
        &&& r.generation < self.slots@[r.index as int].generation
    }

    /// The handle of the entity in the slot `index`, if one lives there.
    pub closed spec fn ref_at(&self, index: int) -> Option<AgentRef> {
        if 0 <= index < self.slots@.len() && self.slots@[index].occupant is Some {
            Some(AgentRef { index: index as usize, generation: self.slots@[index].generation })
        } else {
            None
        }
    }

    /// Exactly one living entity is a target marker, the one that
    /// `marker_ref` names, and every living entity is well formed. No living
    /// entity has the last generation, so that removing it can retire its
    /// handle.
    pub closed spec fn wf(&self) -> bool {
        &&& self.marker < self.slots@.len()
        &&& self.slots@[self.marker as int].occupant matches Some(Entity::Marker(_))
        &&& forall|i: int|
            0 <= i < self.slots@.len() && i != self.marker ==> !((
            #[trigger] self.slots@[i]).occupant matches Some(Entity::Marker(_)))
        &&& forall|i: int|
            0 <= i < self.slots@.len() ==> ((#[trigger] self.slots@[i]).occupant matches Some(e)
                ==> e.wf() && self.slots@[i].generation < u64::MAX)
    }

    /// What `r` resolves to: the transform of the entity, or nothing where
    /// the reference dangles.
    pub open spec fn transform_of(&self, r: AgentRef) -> Option<Transform> {
        if self@.contains_key(r) {
            Some(self@[r].transform())
        } else {
            None
        }
    }

    /// In a well-formed world the marker lives, no other entity is a marker,
    /// every living entity is well formed, and no living handle is spent.
    pub proof fn lemma_wf(&self)
        requires
            self.wf(),
        ensures
            self@.contains_key(self.marker_ref()),
            self@[self.marker_ref()] is Marker,
            forall|r: AgentRef| #[trigger]
                self@.contains_key(r) ==> (self@[r] is Marker <==> r == self.marker_ref()),
            forall|r: AgentRef| #[trigger] self@.contains_key(r) ==> self@[r].wf(),
            forall|r: AgentRef| #[trigger] self@.contains_key(r) ==> !self.is_spent(r),
            forall|r: AgentRef| #[trigger]
                self@.contains_key(r) ==> r.index < self.capacity() && self.ref_at(r.index as int)
                    == Some(r),
            forall|i: int|
                (#[trigger] self.ref_at(i)) matches Some(r) ==> r.index == i && self@.contains_key(
                    r,
                ),
    {
        assert(self.slots@.len() == self.slots.len());
    }

    /// Builds a world from its entities. The entity at place `i` gets the
    /// handle of index `i` and generation zero.
    pub fn build(entities: Vec<Entity>) -> (result: Result<World, WorldError>)
        requires
            forall|i: int| 0 <= i < entities@.len() ==> (#[trigger] entities@[i]).wf(),
        ensures
            match result {
                Ok(world) => {
                    &&& marker_count(entities@) == 1
                    &&& world.wf()
                    &&& world.capacity() == entities@.len()
                    &&& world@ =~= Map::new(
                        |r: AgentRef| r.generation == 0 && r.index < entities@.len(),
                        |r: AgentRef| entities@[r.index as int],
                    )
                    &&& forall|r: AgentRef| !world.is_spent(r)
                },
                Err(error) => {
                    &&& marker_count(entities@) != 1
                    &&& error == (WorldError::MissingSingleton {
                        found: marker_count(entities@) as usize,
                    })
                },
            },
    {
        let ghost all = entities@;
        let mut found: usize = 0;
        let mut marker: usize = 0;
        let mut i: usize = 0;
        assert(all.take(0) =~= Seq::<Entity>::empty());
        while i < entities.len()
            invariant
                all == entities@,
                i <= all.len(),
                found == marker_count(all.take(i as int)),
                found <= i,
                found == 0 ==> forall|j: int| 0 <= j < i ==> !((#[trigger] all[j]) is Marker),
                found == 1 ==> marker < i && forall|j: int|
                    0 <= j < i ==> ((#[trigger] all[j]) is Marker <==> j == marker),
            decreases all.len() - i,
        {
            assert(all.take(i as int + 1).drop_last() =~= all.take(i as int));
            assert(all.take(i as int + 1).last() == all[i as int]);
            match &entities[i] {
                Entity::Marker(_) => {
                    found = found + 1;
                    marker = i;
                },
                Entity::Agent(_) => {},
            }
            i += 1;
        }
        assert(all.take(all.len() as int) =~= all);
        if found != 1 {
            return Err(WorldError::MissingSingleton { found });
        }
        let mut slots: Vec<Slot> = Vec::new();
        for entity in iter: entities
            invariant
                iter.seq() == all,
                slots@.len() == iter.index(),
                forall|j: int|
                    0 <= j < slots@.len() ==> (#[trigger] slots@[j]).generation == 0
                        && slots@[j].occupant == Some(all[j]),
        {
            slots.push(Slot { generation: 0, occupant: Some(entity) });
        }
        let world = World { slots, marker };
        assert(world@ =~= Map::new(
            |r: AgentRef| r.generation == 0 && r.index < all.len(),
            |r: AgentRef| all[r.index as int],
        ));
        Ok(world)
    }

    /// The two worlds have the same slots, the same living and spent handles
    /// and the same marker handle; their entities may differ.
    pub open spec fn same_handles(&self, other: &World) -> bool {
        &&& self.capacity() == other.capacity()
        &&& self.marker_ref() == other.marker_ref()
        &&& self@.dom() =~= other@.dom()
        &&& forall|r: AgentRef| self.is_spent(r) == other.is_spent(r)
        &&& forall|i: int| self.ref_at(i) == other.ref_at(i)
    }

    /// What evaluating the behaviour of `entity` gives in this world: nothing
    /// for a marker and for an agent without a behaviour, else the result of
    /// the behaviour on the agent's state and on what its target resolves to.
    pub open spec fn evaluation(&self, entity: Entity) -> Option<Result<Vector, SteeringError>> {
        match entity {
            Entity::Marker(_) => None,
            Entity::Agent(agent) => match agent.behaviour {
                None => None,
                Some(behaviour) => Some(
                    steering_of(
                        behaviour,
                        agent.state,
                        match behaviour.law_target() {
                            Some(target) => self.transform_of(target),
                            None => None,
                        },
                    ),
                ),
            },
        }
    }

    /// `after` is `entity` once its behaviour was evaluated in this world: an
    /// agent whose law gave an acceleration has that acceleration and is
    /// otherwise the same; any other entity is the same.
    pub open spec fn steered(&self, entity: Entity, after: Entity) -> bool {
        match self.evaluation(entity) {
            Some(Ok(steering)) => {
                &&& entity is Agent
                &&& after is Agent
                &&& after->Agent_0.state.acceleration@ == steering
                &&& after->Agent_0 == entity->Agent_0.with_state(
                    entity->Agent_0.state.with_acceleration(after->Agent_0.state.acceleration),
                )
            },
            _ => after == entity,
        }
    }

    /// What a steering tick reports for the slot `index`.
    pub open spec fn outcome_at(&self, index: int) -> SteeringOutcome {
        match self.ref_at(index) {
            None => SteeringOutcome::Idle,
            Some(r) => match self.evaluation(self@[r]) {
                None => SteeringOutcome::Idle,
                Some(Ok(_)) => SteeringOutcome::Steered,
                Some(Err(reason)) => SteeringOutcome::Skipped(reason),
            },
        }
    }

    /// The number of slots, occupied or not.
    pub fn slot_count(&self) -> (n: usize)
        ensures
            n == self.capacity(),
    {
        self.slots.len()
    }

    /// The handle of the entity that lives in the slot `index`, if any.
    pub fn live_ref(&self, index: usize) -> (r: Option<AgentRef>)
        ensures
            r == self.ref_at(index as int),
    {
        if index < self.slots.len() && self.slots[index].occupant.is_some() {
            Some(AgentRef { index, generation: self.slots[index].generation })
        } else {
            None
        }
    }

    /// The handle of the target marker.
    pub fn marker(&self) -> (r: AgentRef)
        requires
            self.wf(),
        ensures
            r == self.marker_ref(),
            self@.contains_key(r),
            self@[r] is Marker,
    {
        AgentRef { index: self.marker, generation: self.slots[self.marker].generation }
    }

    /// Tells whether `r` resolves.
    pub fn contains(&self, r: AgentRef) -> (b: bool)
        ensures
            b == self@.contains_key(r),
    {
        r.index < self.slots.len() && self.slots[r.index].generation == r.generation
            && self.slots[r.index].occupant.is_some()
    }

    /// The entity that `r` refers to, or nothing where `r` dangles.
    pub fn entity(&self, r: AgentRef) -> (e: Option<&Entity>)
        ensures
            match e {
                Some(entity) => self@.contains_key(r) && *entity == self@[r],
                None => !self@.contains_key(r),
            },
    {
        if r.index < self.slots.len() && self.slots[r.index].generation == r.generation {
            self.slots[r.index].occupant.as_ref()
        } else {
            None
        }
    }

    /// Resolves `r` to the transform of the entity it refers to, or to
    /// nothing where `r` dangles.
    pub fn resolve(&self, r: AgentRef) -> (t: Option<Transform>)
        ensures
            t == self.transform_of(r),
    {
        match self.entity(r) {
            Some(entity) => Some(entity.placement()),
            None => None,
        }
    }

    /// Adds an agent and issues the handle that resolves to it. The handle
    /// has never been issued by this world before.
    pub fn spawn(&mut self, agent: Agent) -> (r: AgentRef)
        requires
            old(self).wf(),
            agent.wf(),
        ensures
            final(self).wf(),
            !old(self)@.contains_key(r),
            !old(self).is_spent(r),
            final(self)@ == old(self)@.insert(r, Entity::Agent(agent)),
            final(self).marker_ref() == old(self).marker_ref(),
            forall|q: AgentRef| final(self).is_spent(q) == old(self).is_spent(q),
            old(self).capacity() <= final(self).capacity() <= old(self).capacity() + 1,
    {
        let mut i: usize = 0;
        while i < self.slots.len()
            invariant
                *self == *old(self),
                old(self).wf(),
                agent.wf(),
                i <= self.slots@.len(),
            decreases self.slots@.len() - i,
        {
            if self.slots[i].occupant.is_none() && self.slots[i].generation < u64::MAX {
                let r = AgentRef { index: i, generation: self.slots[i].generation };
                self.slots[i].occupant = Some(Entity::Agent(agent));
                assert(final(self)@ =~= old(self)@.insert(r, Entity::Agent(agent)));
                return r;
            }
            i += 1;
        }
        let r = AgentRef { index: self.slots.len(), generation: 0 };
        self.slots.push(Slot { generation: 0, occupant: Some(Entity::Agent(agent)) });
        assert(final(self)@ =~= old(self)@.insert(r, Entity::Agent(agent)));
        r
    }

    /// Removes the agent that `r` refers to and retires the handle. The
    /// marker is never removed, and a dangling handle removes nothing.
    pub fn despawn(&mut self, r: AgentRef) -> (removed: bool)
        requires
            old(self).wf(),
        ensures
            final(self).wf(),
            removed == (old(self)@.contains_key(r) && old(self)@[r] is Agent),
            removed ==> final(self)@ == old(self)@.remove(r) && final(self).is_spent(r),
            !removed ==> final(self)@ == old(self)@ && final(self).is_spent(r) == old(self).is_spent(
                r,
            ),
            final(self).marker_ref() == old(self).marker_ref(),
            final(self).capacity() == old(self).capacity(),
            forall|q: AgentRef| q != r ==> final(self).is_spent(q) == old(self).is_spent(q),
    {
        if !self.contains(r) || r.index == self.marker {
            return false;
        }
        self.slots[r.index].occupant = None;
        self.slots[r.index].generation = r.generation + 1;
        assert(final(self)@ =~= old(self)@.remove(r));
        true
    }

    /// Takes in where the integrator has put the agent that `r` refers to and
    /// how fast it now moves. Nothing changes where `r` is not an agent.
    pub fn set_motion(&mut self, r: AgentRef, position: Vec3, velocity: Vec3) -> (moved: bool)
        requires
            old(self).wf(),
            position.in_world(),
            velocity.in_world(),
        ensures
            final(self).wf(),
            final(self).same_handles(old(self)),
            moved == (old(self)@.contains_key(r) && old(self)@[r] is Agent),
            moved ==> final(self)@ == old(self)@.insert(
                r,
                Entity::Agent(
                    old(self)@[r]->Agent_0.with_state(
                        KinematicState {
                            transform: Transform {
                                position,
                                orientation: old(self)@[r]->Agent_0.state.transform.orientation,
                            },
                            velocity,
                            ..old(self)@[r]->Agent_0.state
                        },
                    ),
                ),
            ),
            !moved ==> final(self)@ == old(self)@,
    {
        if !self.contains(r) {
            return false;
        }
        match &mut self.slots[r.index].occupant {
            Some(Entity::Agent(agent)) => {
                agent.state.transform.position = position;
                agent.state.velocity = velocity;
            },
            _ => {
                return false;
            },
        }
        assert(final(self)@ =~= old(self)@.insert(
            r,
            Entity::Agent(
                old(self)@[r]->Agent_0.with_state(
                    KinematicState {
                        transform: Transform {
                            position,
                            orientation: old(self)@[r]->Agent_0.state.transform.orientation,
                        },
                        velocity,
                        ..old(self)@[r]->Agent_0.state
                    },
                ),
            ),
        ));
        true
    }

    /// Moves the marker under the cursor when the secondary button is
    /// released; without a release, or without a known cursor, nothing
    /// changes.
    pub fn move_marker_on_click(&mut self, released: bool, mouse: &MouseState)
        requires
            old(self).wf(),
            mouse.wf(),
        ensures
            final(self).wf(),
            final(self).same_handles(old(self)),
            final(self)@ == old(self)@.insert(
                old(self).marker_ref(),
                Entity::Marker(
                    marker_after_click(
                        old(self)@[old(self).marker_ref()].transform(),
                        released,
                        mouse.world,
                    ),
                ),
            ),
    {
        let index: usize = self.marker;
        match &mut self.slots[index].occupant {
            Some(Entity::Marker(transform)) => {
                move_marker_on_click(transform, released, mouse);
            },
            _ => {},
        }
        assert(final(self)@ =~= old(self)@.insert(
            old(self).marker_ref(),
            Entity::Marker(
                marker_after_click(
                    old(self)@[old(self).marker_ref()].transform(),
                    released,
                    mouse.world,
                ),
            ),
        ));
    }

    /// Turns the agent that `r` refers to the way it moves. `bearing` is the
    /// signed angle from the reference axis to its velocity. Nothing changes
    /// where `r` is not an agent.
    pub fn orient(&mut self, r: AgentRef, bearing: i64) -> (turned: bool)
        requires
            old(self).wf(),
            is_bearing(bearing as int),
        ensures
            final(self).wf(),
            final(self).same_handles(old(self)),
            turned == (old(self)@.contains_key(r) && old(self)@[r] is Agent),
            turned ==> {
                let agent = old(self)@[r]->Agent_0;
                &&& final(self)@[r] is Agent
                &&& final(self)@[r]->Agent_0.state.transform.orientation == facing(
                    agent.state.transform.orientation as int,
                    agent.state.velocity@,
                    bearing as int,
                )
                &&& final(self)@ == old(self)@.insert(
                    r,
                    Entity::Agent(
                        agent.with_state(
                            agent.state.with_orientation(
                                final(self)@[r]->Agent_0.state.transform.orientation,
                            ),
                        ),
                    ),
                )
            },
            !turned ==> final(self)@ == old(self)@,
    {
        if !self.contains(r) {
            return false;
        }
        match &mut self.slots[r.index].occupant {
            Some(Entity::Agent(agent)) => {
                let orientation: i64 = face_velocity(&agent.state, bearing);
                agent.state.transform.orientation = orientation;
            },
            _ => {
                return false;
            },
        }
        assert(final(self)@ =~= old(self)@.insert(
            r,
            Entity::Agent(
                old(self)@[r]->Agent_0.with_state(
                    old(self)@[r]->Agent_0.state.with_orientation(
                        final(self)@[r]->Agent_0.state.transform.orientation,
                    ),
                ),
            ),
        ));
        true
    }

    /// The emission rate of every nozzle of the agent that `r` refers to, in
    /// the order of its nozzles and in thousandths of a particle per second.
    /// `bearing` is the signed angle from the reference axis to the agent's
    /// acceleration. Gives nothing where `r` is not an agent.
    pub fn emission_rates(&self, r: AgentRef, bearing: i64) -> (rates: Option<Vec<u64>>)
        requires
            self.wf(),
            is_bearing(bearing as int),
        ensures
            rates is Some <==> self@.contains_key(r) && self@[r] is Agent,
            rates matches Some(list) ==> {
                let agent = self@[r]->Agent_0;
                &&& list@.len() == agent.nozzles@.len()
                &&& forall|i: int|
                    0 <= i < list@.len() ==> (#[trigger] list@[i]) == emission_of(
                        agent.state,
                        agent.nozzles@[i],
                        bearing as int,
                    )
            },
    {
        match self.entity(r) {
            Some(Entity::Agent(agent)) => {
                proof {
                    self.lemma_wf();
                }
                let mut list: Vec<u64> = Vec::new();
                let mut i: usize = 0;
                while i < agent.nozzles.len()
                    invariant
                        agent.wf(),
                        is_bearing(bearing as int),
                        i <= agent.nozzles@.len(),
                        list@.len() == i,
                        forall|j: int|
                            0 <= j < i ==> (#[trigger] list@[j]) == emission_of(
                                agent.state,
                                agent.nozzles@[j],
                                bearing as int,
                            ),
                    decreases agent.nozzles@.len() - i,
                {
                    let rate: u64 = emission(&agent.state, &agent.nozzles[i], bearing);
                    list.push(rate);
                    i += 1;
                }
                Some(list)
            },
            _ => None,
        }
    }

    /// Steers the agent that `r` refers to towards the marker by timed
    /// arrival, and reports on the tick. `elapsed` is the duration of the
    /// tick in thousandths of a second, `spread` the angle between the way to
    /// the marker and the agent's velocity. Nothing changes where `r` is not
    /// an agent.
    pub fn arrive_to_marker(&mut self, r: AgentRef, elapsed: u64, spread: i64) -> (report: Option<
        ArrivalReport,
    >)
        requires
            old(self).wf(),
            0 <= spread <= HALF_TURN,
        ensures
            final(self).wf(),
            final(self).same_handles(old(self)),
            report is Some <==> old(self)@.contains_key(r) && old(self)@[r] is Agent,
            report matches Some(told) ==> {
                let agent = old(self)@[r]->Agent_0;
                let marker = old(self)@[old(self).marker_ref()].transform();
                &&& told.describes(agent.state, marker, elapsed as int, spread as int)
                &&& final(self)@[r] is Agent
                &&& final(self)@[r]->Agent_0.state.acceleration@ == arrival_of(
                    agent.state,
                    marker,
                    elapsed as int,
                    spread as int,
                )
                &&& final(self)@ == old(self)@.insert(
                    r,
                    Entity::Agent(
                        agent.with_state(
                            agent.state.with_acceleration(
                                final(self)@[r]->Agent_0.state.acceleration,
                            ),
                        ),
                    ),
                )
            },
            report is None ==> final(self)@ == old(self)@,
    {
        if !self.contains(r) {
            return None;
        }
        let marker: Transform = match &self.slots[self.marker].occupant {
            Some(entity) => entity.placement(),
            None => {
                return None;
            },
        };
        let told: ArrivalReport;
        match &mut self.slots[r.index].occupant {
            Some(Entity::Agent(agent)) => {
                let (steering, report) = arrive_to_marker(&agent.state, &marker, elapsed, spread);
                agent.state.acceleration = steering;
                told = report;
            },
            _ => {
                return None;
            },
        }
        assert(final(self)@ =~= old(self)@.insert(
            r,
            Entity::Agent(
                old(self)@[r]->Agent_0.with_state(
                    old(self)@[r]->Agent_0.state.with_acceleration(
                        final(self)@[r]->Agent_0.state.acceleration,
                    ),
                ),
            ),
        ));
        Some(told)
    }

    /// Evaluates the behaviour of every agent against the world as it stands
    /// when the tick begins, and gives each agent whose law applies its new
    /// acceleration. An agent whose target dangles, or whose behaviour has no
    /// law, keeps its acceleration, and the others are steered all the same.
    /// The report holds one outcome for each slot.
    pub fn steer(&mut self) -> (report: Vec<SteeringOutcome>)
        requires
            old(self).wf(),
        ensures
            final(self).wf(),
            final(self).same_handles(old(self)),
            forall|r: AgentRef| #[trigger]
                old(self)@.contains_key(r) ==> old(self).steered(old(self)@[r], final(self)@[r]),
            report@.len() == old(self).capacity(),
            forall|i: int|
                0 <= i < report@.len() ==> (#[trigger] report@[i]) == old(self).outcome_at(i),
    {
        let mut report: Vec<SteeringOutcome> = Vec::new();
        let count: usize = self.slots.len();
        let mut i: usize = 0;
        while i < count
            invariant
                old(self).wf(),
                self.wf(),
                count == self.slots@.len(),
                i <= count,
                self.same_handles(old(self)),
                self.marker == old(self).marker,
                forall|j: int|
                    0 <= j < count ==> (#[trigger] self.slots@[j]).generation == old(
                        self,
                    ).slots@[j].generation,
                forall|j: int|
                    0 <= j < count ==> ((#[trigger] self.slots@[j]).occupant is Some) == (old(
                        self,
                    ).slots@[j].occupant is Some),
                forall|j: int|
                    0 <= j < count && self.slots@[j].occupant is Some ==> (
                    #[trigger] self.slots@[j]).occupant->0.transform() == old(
                        self,
                    ).slots@[j].occupant->0.transform(),
                forall|j: int| i <= j < count ==> (#[trigger] self.slots@[j]) == old(self).slots@[j],
                forall|j: int|
                    0 <= j < i && old(self).slots@[j].occupant is Some ==> old(self).steered(
                        old(self).slots@[j].occupant->0,
                        (#[trigger] self.slots@[j]).occupant->0,
                    ),
                report@.len() == i,
                forall|j: int| 0 <= j < i ==> (#[trigger] report@[j]) == old(self).outcome_at(j),
            decreases count - i,
        {
            let evaluated: Option<Result<Vec3, SteeringError>> = self.evaluate(i);
            assert(forall|r: AgentRef| self.transform_of(r) == old(self).transform_of(r));
            match evaluated {
                None => {
                    report.push(SteeringOutcome::Idle);
                },
                Some(Err(reason)) => {
                    report.push(SteeringOutcome::Skipped(reason));
                },
                Some(Ok(steering)) => {
                    match &mut self.slots[i].occupant {
                        Some(Entity::Agent(agent)) => {
                            agent.state.acceleration = steering;
                        },
                        _ => {},
                    }
                    report.push(SteeringOutcome::Steered);
                },
            }
            i += 1;
        }
        report
    }

    /// Evaluates the behaviour of the occupant of the slot `index` against
    /// the world as it stands.
    fn evaluate(&self, index: usize) -> (evaluated: Option<Result<Vec3, SteeringError>>)
        requires
            self.wf(),
            index < self.slots@.len(),
        ensures
            match evaluated {
                None => self.slots@[index as int].occupant matches Some(entity)
                    ==> self.evaluation(entity) is None,
                Some(Err(reason)) => self.slots@[index as int].occupant matches Some(entity)
                    && self.evaluation(entity) == Some(Err::<Vector, SteeringError>(reason)),
                Some(Ok(steering)) => self.slots@[index as int].occupant matches Some(entity)
                    && self.evaluation(entity) == Some(Ok::<Vector, SteeringError>(steering@))
                    && steering.in_world(),
            },
    {
        match &self.slots[index].occupant {
            Some(Entity::Agent(agent)) => match &agent.behaviour {
                Some(behaviour) => {
                    let target: Option<Transform> = match behaviour.target_of_law() {
                        Some(r) => self.resolve(r),
                        None => None,
                    };
                    proof {
                        self.lemma_wf();
                    }
                    Some(steer(behaviour, &agent.state, target))
                },
                None => None,
            },
            _ => None,
        }
    }
}

} // verus!
