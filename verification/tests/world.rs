use sebaka::agent::{AgentRef, KinematicState, Transform};
use sebaka::marker::{move_marker_on_click, MouseState, ScreenPoint};
use sebaka::overlay::{acceleration_segment, marker_crosshair, velocity_segment, Segment};
use sebaka::schedule::{phases, Phase};
use sebaka::steering::{SteeringBehaviour, SteeringError};
use sebaka::thrust::ThrusterNozzle;
use sebaka::vector::{Vec3, WORLD_EXTENT};
use sebaka::world::{Agent, Entity, SteeringOutcome, World, WorldError};

fn marker_at(x: i64, y: i64) -> Entity {
    Entity::Marker(Transform::at(Vec3::new(x, y, 0)))
}

fn agent_at(x: i64, y: i64, behaviour: Option<SteeringBehaviour>) -> Agent {
    Agent { state: KinematicState::at_rest(Vec3::new(x, y, 0)), behaviour, nozzles: Vec::new() }
}

fn handle(index: usize, generation: u64) -> AgentRef {
    AgentRef { index, generation }
}

fn acceleration_of(world: &World, r: AgentRef) -> Vec3 {
    match world.entity(r) {
        Some(Entity::Agent(agent)) => agent.state.acceleration,
        _ => panic!("not an agent"),
    }
}

fn state_of(world: &World, r: AgentRef) -> KinematicState {
    match world.entity(r) {
        Some(Entity::Agent(agent)) => agent.state,
        _ => panic!("not an agent"),
    }
}

fn cursor_at(x: i64, y: i64) -> MouseState {
    MouseState { screen: Some(ScreenPoint { x: 1, y: 2 }), world: Some(Vec3::new(x, y, 0)) }
}

#[test]
fn a_click_moves_the_marker_under_the_cursor() {
    let mut marker = Transform::at(Vec3::new(100_000, 100_000, 0));
    move_marker_on_click(&mut marker, true, &cursor_at(50_000, 50_000));
    assert_eq!(marker.position, Vec3::new(50_000, 50_000, 0));
    assert_eq!(marker.orientation, 0);
}

#[test]
fn a_click_without_a_cursor_leaves_the_marker() {
    let mut marker = Transform::at(Vec3::new(100_000, 100_000, 0));
    move_marker_on_click(&mut marker, true, &MouseState::outside());
    assert_eq!(marker, Transform::at(Vec3::new(100_000, 100_000, 0)));
}

#[test]
fn a_cursor_without_a_click_leaves_the_marker() {
    let mut marker = Transform { position: Vec3::new(100_000, 100_000, 0), orientation: 77 };
    move_marker_on_click(&mut marker, false, &cursor_at(50_000, 50_000));
    assert_eq!(marker, Transform { position: Vec3::new(100_000, 100_000, 0), orientation: 77 });
}

#[test]
fn the_world_marker_follows_the_click() {
    let mut world = World::build(vec![marker_at(100_000, 100_000)]).unwrap();
    let marker = world.marker();
    world.move_marker_on_click(true, &cursor_at(50_000, 50_000));
    assert_eq!(world.resolve(marker), Some(Transform::at(Vec3::new(50_000, 50_000, 0))));
    world.move_marker_on_click(true, &MouseState::outside());
    assert_eq!(world.resolve(marker), Some(Transform::at(Vec3::new(50_000, 50_000, 0))));
    world.move_marker_on_click(false, &cursor_at(1, 2));
    assert_eq!(world.resolve(marker), Some(Transform::at(Vec3::new(50_000, 50_000, 0))));
    assert_eq!(world.marker(), marker);
}

#[test]
fn the_mouse_state_tracks_the_cursor() {
    let mut mouse = MouseState::outside();
    assert_eq!(mouse, MouseState { screen: None, world: None });
    mouse.track(Some((ScreenPoint { x: 10, y: 20 }, Vec3::new(1, 2, 0))));
    assert_eq!(mouse.screen, Some(ScreenPoint { x: 10, y: 20 }));
    assert_eq!(mouse.world, Some(Vec3::new(1, 2, 0)));
    mouse.track(None);
    assert_eq!(mouse, MouseState::outside());
}

#[test]
fn a_world_needs_a_marker() {
    assert_eq!(World::build(Vec::new()).err(), Some(WorldError::MissingSingleton { found: 0 }));
    let only_agents = vec![Entity::Agent(agent_at(0, 0, None)), Entity::Agent(agent_at(1, 1, None))];
    assert_eq!(World::build(only_agents).err(), Some(WorldError::MissingSingleton { found: 0 }));
}

#[test]
fn a_world_takes_one_marker_only() {
    let two = vec![marker_at(0, 0), Entity::Agent(agent_at(0, 0, None)), marker_at(5, 5)];
    assert_eq!(World::build(two).err(), Some(WorldError::MissingSingleton { found: 2 }));
    let three = vec![marker_at(0, 0), marker_at(1, 1), marker_at(2, 2)];
    assert_eq!(World::build(three).err(), Some(WorldError::MissingSingleton { found: 3 }));
}

#[test]
fn a_built_world_hands_out_handles_in_order() {
    let world = World::build(vec![
        Entity::Agent(agent_at(1000, 0, None)),
        marker_at(7000, 8000),
        Entity::Agent(agent_at(2000, 0, None)),
    ])
    .unwrap();
    assert_eq!(world.slot_count(), 3);
    assert_eq!(world.marker(), handle(1, 0));
    assert_eq!(world.live_ref(0), Some(handle(0, 0)));
    assert_eq!(world.live_ref(1), Some(handle(1, 0)));
    assert_eq!(world.live_ref(2), Some(handle(2, 0)));
    assert_eq!(world.live_ref(3), None);
    assert_eq!(world.resolve(handle(0, 0)), Some(Transform::at(Vec3::new(1000, 0, 0))));
    assert_eq!(world.resolve(handle(1, 0)), Some(Transform::at(Vec3::new(7000, 8000, 0))));
    assert_eq!(world.resolve(handle(2, 0)), Some(Transform::at(Vec3::new(2000, 0, 0))));
    assert_eq!(world.resolve(handle(3, 0)), None);
    assert_eq!(world.resolve(handle(0, 1)), None);
    assert!(world.contains(handle(2, 0)));
    assert!(!world.contains(handle(2, 1)));
    assert!(matches!(world.entity(handle(1, 0)), Some(Entity::Marker(_))));
    assert!(matches!(world.entity(handle(0, 0)), Some(Entity::Agent(_))));
    assert!(world.entity(handle(9, 0)).is_none());
}

#[test]
fn a_removed_handle_never_resolves_again() {
    let mut world = World::build(vec![marker_at(0, 0)]).unwrap();
    let first = world.spawn(agent_at(1000, 1000, None));
    assert_eq!(first, handle(1, 0));
    assert!(world.contains(first));
    assert!(world.despawn(first));
    assert!(!world.contains(first));
    assert_eq!(world.resolve(first), None);
    assert!(!world.despawn(first));
    let second = world.spawn(agent_at(2000, 2000, None));
    assert_eq!(second, handle(1, 1));
    assert_ne!(second, first);
    assert!(!world.contains(first));
    assert_eq!(world.resolve(first), None);
    assert_eq!(world.resolve(second), Some(Transform::at(Vec3::new(2000, 2000, 0))));
    assert_eq!(world.slot_count(), 2);
    assert_eq!(world.live_ref(1), Some(second));
}

#[test]
fn spawning_fills_the_first_free_slot_or_a_new_one() {
    let mut world = World::build(vec![marker_at(0, 0)]).unwrap();
    let a = world.spawn(agent_at(1, 0, None));
    let b = world.spawn(agent_at(2, 0, None));
    let c = world.spawn(agent_at(3, 0, None));
    assert_eq!((a, b, c), (handle(1, 0), handle(2, 0), handle(3, 0)));
    assert!(world.despawn(b));
    assert_eq!(world.live_ref(2), None);
    let d = world.spawn(agent_at(4, 0, None));
    assert_eq!(d, handle(2, 1));
    let e = world.spawn(agent_at(5, 0, None));
    assert_eq!(e, handle(4, 0));
    assert_eq!(world.slot_count(), 5);
    assert_eq!(world.resolve(a), Some(Transform::at(Vec3::new(1, 0, 0))));
    assert_eq!(world.resolve(c), Some(Transform::at(Vec3::new(3, 0, 0))));
    assert_eq!(world.resolve(d), Some(Transform::at(Vec3::new(4, 0, 0))));
}

#[test]
fn the_marker_is_never_removed() {
    let mut world = World::build(vec![marker_at(3, 4)]).unwrap();
    let marker = world.marker();
    assert!(!world.despawn(marker));
    assert!(world.contains(marker));
    assert_eq!(world.marker(), marker);
    assert_eq!(world.resolve(marker), Some(Transform::at(Vec3::new(3, 4, 0))));
}

#[test]
fn a_seeking_agent_is_steered_to_the_marker() {
    let marker = handle(0, 0);
    let mut world = World::build(vec![
        marker_at(0, 1_000_000),
        Entity::Agent(agent_at(0, 0, Some(SteeringBehaviour::Seek { target: marker }))),
    ])
    .unwrap();
    let report = world.steer();
    assert_eq!(report, vec![SteeringOutcome::Idle, SteeringOutcome::Steered]);
    assert_eq!(acceleration_of(&world, handle(1, 0)), Vec3::new(0, 100_000, 0));
    assert_eq!(world.resolve(marker), Some(Transform::at(Vec3::new(0, 1_000_000, 0))));
}

#[test]
fn a_dangling_target_skips_one_agent_and_no_other() {
    let marker = handle(0, 0);
    let mut world = World::build(vec![marker_at(0, 1_000_000)]).unwrap();
    let prey = world.spawn(agent_at(500_000, 0, None));
    let mut hunter = agent_at(0, 0, Some(SteeringBehaviour::Seek { target: prey }));
    hunter.state.acceleration = Vec3::new(11, 22, 33);
    let hunter = world.spawn(hunter);
    let seeker = world.spawn(agent_at(0, 0, Some(SteeringBehaviour::Seek { target: marker })));
    let arriver = world.spawn(agent_at(
        0,
        0,
        Some(SteeringBehaviour::Arrive { target: marker, final_angle: None }),
    ));
    assert!(world.despawn(prey));
    let report = world.steer();
    assert_eq!(
        report,
        vec![
            SteeringOutcome::Idle,
            SteeringOutcome::Idle,
            SteeringOutcome::Skipped(SteeringError::DanglingTargetReference),
            SteeringOutcome::Steered,
            SteeringOutcome::Steered,
        ]
    );
    assert_eq!(acceleration_of(&world, hunter), Vec3::new(11, 22, 33));
    assert_eq!(acceleration_of(&world, seeker), Vec3::new(0, 100_000, 0));
    assert_eq!(acceleration_of(&world, arriver), Vec3::new(0, 200_000, 0));
    let report = world.steer();
    assert_eq!(report[2], SteeringOutcome::Skipped(SteeringError::DanglingTargetReference));
    assert_eq!(acceleration_of(&world, hunter), Vec3::new(11, 22, 33));
}

#[test]
fn a_target_that_never_lived_dangles_too() {
    let mut world = World::build(vec![
        marker_at(0, 0),
        Entity::Agent(agent_at(0, 0, Some(SteeringBehaviour::Seek { target: handle(40, 0) }))),
        Entity::Agent(agent_at(0, 0, Some(SteeringBehaviour::Seek { target: handle(0, 9) }))),
    ])
    .unwrap();
    let report = world.steer();
    assert_eq!(
        report,
        vec![
            SteeringOutcome::Idle,
            SteeringOutcome::Skipped(SteeringError::DanglingTargetReference),
            SteeringOutcome::Skipped(SteeringError::DanglingTargetReference),
        ]
    );
}

#[test]
fn a_reused_slot_does_not_revive_an_old_target() {
    let mut world = World::build(vec![marker_at(0, 0)]).unwrap();
    let prey = world.spawn(agent_at(500_000, 0, None));
    let hunter = world.spawn(agent_at(0, 0, Some(SteeringBehaviour::Seek { target: prey })));
    assert!(world.despawn(prey));
    let newcomer = world.spawn(agent_at(0, 900_000, None));
    assert_eq!(newcomer.index, prey.index);
    let report = world.steer();
    assert_eq!(report[hunter.index], SteeringOutcome::Skipped(SteeringError::DanglingTargetReference));
    assert_eq!(acceleration_of(&world, hunter), Vec3::zero());
}

#[test]
fn behaviours_without_a_law_change_nothing() {
    let marker = handle(0, 0);
    let behaviours = vec![
        SteeringBehaviour::Pursue { target: marker, min_distance: None },
        SteeringBehaviour::Flee { target: marker },
        SteeringBehaviour::Evade { target: marker, min_distance: Some(1000) },
        SteeringBehaviour::FollowPath { path: vec![Vec3::new(1, 1, 0)], current_index: 0 },
        SteeringBehaviour::Interpose { from_target: marker, to_target: marker },
        SteeringBehaviour::Hide { target: marker },
    ];
    let mut entities = vec![marker_at(0, 1_000_000)];
    for behaviour in behaviours {
        let mut agent = agent_at(0, 0, Some(behaviour));
        agent.state.acceleration = Vec3::new(-5, 6, -7);
        entities.push(Entity::Agent(agent));
    }
    let mut world = World::build(entities).unwrap();
    let report = world.steer();
    assert_eq!(report.len(), 7);
    assert_eq!(report[0], SteeringOutcome::Idle);
    for index in 1..7 {
        assert_eq!(
            report[index],
            SteeringOutcome::Skipped(SteeringError::UnimplementedBehaviourVariant)
        );
        assert_eq!(acceleration_of(&world, handle(index, 0)), Vec3::new(-5, 6, -7));
    }
}

#[test]
fn agents_steer_by_the_state_at_the_start_of_the_tick() {
    let mut world = World::build(vec![marker_at(0, 0)]).unwrap();
    let a = handle(1, 0);
    let b = handle(2, 0);
    let first = world.spawn(agent_at(0, 0, Some(SteeringBehaviour::Seek { target: b })));
    let second = world.spawn(agent_at(0, 1_000_000, Some(SteeringBehaviour::Seek { target: a })));
    assert_eq!((first, second), (a, b));
    let report = world.steer();
    assert_eq!(report[1], SteeringOutcome::Steered);
    assert_eq!(report[2], SteeringOutcome::Steered);
    assert_eq!(acceleration_of(&world, a), Vec3::new(0, 100_000, 0));
    assert_eq!(acceleration_of(&world, b), Vec3::new(0, -100_000, 0));
    assert_eq!(world.resolve(a), Some(Transform::at(Vec3::zero())));
    assert_eq!(world.resolve(b), Some(Transform::at(Vec3::new(0, 1_000_000, 0))));
}

#[test]
fn the_integrator_moves_an_agent() {
    let mut world = World::build(vec![marker_at(0, 0)]).unwrap();
    let agent = world.spawn(agent_at(1, 2, None));
    assert!(world.set_motion(agent, Vec3::new(10, 20, 30), Vec3::new(-1, -2, -3)));
    let state = state_of(&world, agent);
    assert_eq!(state.transform.position, Vec3::new(10, 20, 30));
    assert_eq!(state.velocity, Vec3::new(-1, -2, -3));
    assert_eq!(state.acceleration, Vec3::zero());
    assert_eq!(state.transform.orientation, 0);
}

#[test]
fn the_integrator_moves_nothing_but_agents() {
    let mut world = World::build(vec![marker_at(5, 5)]).unwrap();
    let marker = world.marker();
    assert!(!world.set_motion(marker, Vec3::new(10, 20, 30), Vec3::zero()));
    assert_eq!(world.resolve(marker), Some(Transform::at(Vec3::new(5, 5, 0))));
    assert!(!world.set_motion(handle(7, 0), Vec3::zero(), Vec3::zero()));
}

#[test]
fn the_world_turns_a_moving_agent() {
    let mut world = World::build(vec![marker_at(0, 0)]).unwrap();
    let agent = world.spawn(agent_at(0, 0, None));
    assert!(world.orient(agent, -250_000));
    assert_eq!(state_of(&world, agent).transform.orientation, 0);
    assert!(world.set_motion(agent, Vec3::zero(), Vec3::new(1000, 0, 0)));
    assert!(world.orient(agent, -500_000));
    assert_eq!(state_of(&world, agent).transform.orientation, 1_500_000);
    assert!(world.orient(agent, 250_000));
    assert_eq!(state_of(&world, agent).transform.orientation, 250_000);
    assert!(!world.orient(world.marker(), 250_000));
    assert!(!world.orient(handle(9, 9), 250_000));
}

#[test]
fn the_world_maps_thrust_to_every_nozzle() {
    let mut ship = agent_at(0, 0, None);
    ship.state.acceleration = Vec3::new(0, 100_000, 0);
    ship.state.max_acceleration = Some(100_000);
    ship.nozzles = vec![
        ThrusterNozzle { angle: 1_000_000, size: 1000 },
        ThrusterNozzle { angle: 0, size: 400 },
        ThrusterNozzle { angle: 0, size: 400 },
    ];
    let world = World::build(vec![marker_at(0, 0), Entity::Agent(ship)]).unwrap();
    assert_eq!(world.emission_rates(handle(1, 0), 0), Some(vec![1_000_000, 0, 0]));
    assert_eq!(world.emission_rates(handle(1, 0), -250_000), Some(vec![500_000, 0, 0]));
    assert_eq!(world.emission_rates(handle(1, 0), 0), world.emission_rates(handle(1, 0), 0));
    assert_eq!(world.emission_rates(handle(0, 0), 0), None);
    assert_eq!(world.emission_rates(handle(1, 1), 0), None);
}

#[test]
fn an_agent_without_nozzles_emits_nothing() {
    let world = World::build(vec![marker_at(0, 0), Entity::Agent(agent_at(0, 0, None))]).unwrap();
    assert_eq!(world.emission_rates(handle(1, 0), 0), Some(Vec::new()));
}

#[test]
fn entities_are_validated() {
    assert!(marker_at(WORLD_EXTENT, -WORLD_EXTENT).is_valid());
    assert!(!marker_at(WORLD_EXTENT + 1, 0).is_valid());
    let mut ship = agent_at(0, 0, None);
    assert!(ship.is_valid());
    ship.nozzles = vec![ThrusterNozzle { angle: 0, size: 400 }, ThrusterNozzle { angle: 0, size: 0 }];
    assert!(!ship.is_valid());
    assert!(!Entity::Agent(ship).is_valid());
    let mut fast = agent_at(0, 0, None);
    fast.state.velocity = Vec3::new(0, 0, WORLD_EXTENT + 1);
    assert!(!fast.is_valid());
    assert_eq!(marker_at(3, 4).placement(), Transform::at(Vec3::new(3, 4, 0)));
    assert_eq!(Entity::Agent(agent_at(5, 6, None)).placement(), Transform::at(Vec3::new(5, 6, 0)));
}

#[test]
fn overlays_follow_the_motion() {
    let mut state = KinematicState::at_rest(Vec3::new(100, 200, 0));
    state.velocity = Vec3::new(10, -20, 0);
    state.acceleration = Vec3::new(3, 4, 0);
    assert_eq!(
        velocity_segment(&state),
        Segment { start: Vec3::new(100, 200, 0), end: Vec3::new(110, 180, 0) }
    );
    assert_eq!(
        acceleration_segment(&state),
        Segment { start: Vec3::new(100, 200, 0), end: Vec3::new(97, 196, 0) }
    );
}

#[test]
fn the_crosshair_spans_ten_units_each_way() {
    let (across, along) = marker_crosshair(&Transform::at(Vec3::new(50_000, 60_000, 0)));
    assert_eq!(
        across,
        Segment { start: Vec3::new(40_000, 60_000, 0), end: Vec3::new(60_000, 60_000, 0) }
    );
    assert_eq!(
        along,
        Segment { start: Vec3::new(50_000, 50_000, 0), end: Vec3::new(50_000, 70_000, 0) }
    );
}

#[test]
fn the_phases_run_in_their_order() {
    assert_eq!(
        phases(),
        vec![
            Phase::MarkerUpdate,
            Phase::Steering,
            Phase::Integration,
            Phase::Orientation,
            Phase::ThrustMapping,
            Phase::Overlays,
        ]
    );
    let mut phase = Phase::first();
    for expected in phases() {
        assert_eq!(phase, expected);
        assert_eq!(phase.ends_tick(), expected == Phase::Overlays);
        phase = phase.next();
    }
    assert_eq!(phase, Phase::first());
}

#[test]
fn the_host_runs_integration_and_overlays() {
    assert!(!Phase::MarkerUpdate.runs_in_host());
    assert!(!Phase::Steering.runs_in_host());
    assert!(Phase::Integration.runs_in_host());
    assert!(!Phase::Orientation.runs_in_host());
    assert!(!Phase::ThrustMapping.runs_in_host());
    assert!(Phase::Overlays.runs_in_host());
}
