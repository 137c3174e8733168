use sebaka::agent::{AgentRef, KinematicState, Transform};
use sebaka::arrival::{arrive_to_marker, decide_phase, misalign};
use sebaka::arrival::{ArrivalPhase, ArrivalReport};
use sebaka::arrival::{ALIGNING_GAIN, ALIGNMENT_TOLERANCE, ARRIVAL_RADIUS};
use sebaka::vector::Vec3;
use sebaka::world::{Agent, Entity, World};

fn flying(position: Vec3, velocity: Vec3) -> KinematicState {
    KinematicState {
        transform: Transform { position, orientation: 0 },
        velocity,
        acceleration: Vec3::zero(),
        max_velocity: None,
        max_acceleration: None,
    }
}

fn told(phase: ArrivalPhase, speed: i64, misalignment: i64) -> ArrivalReport {
    ArrivalReport { phase, speed, acceleration: 0, misalignment }
}

#[test]
fn misalignment_is_highest_across_the_way() {
    assert_eq!(misalign(0), 0);
    assert_eq!(misalign(1), 0);
    assert_eq!(misalign(10_000), 2000);
    assert_eq!(misalign(10_005), 2001);
    assert_eq!(misalign(250_000), 50_000);
    assert_eq!(misalign(500_000), 100_000);
    assert_eq!(misalign(750_000), 50_000);
    assert_eq!(misalign(990_000), 2000);
    assert_eq!(misalign(1_000_000), 0);
}

#[test]
fn the_phase_follows_distance_speed_and_alignment() {
    assert_eq!(decide_phase(1_000_000, 0, 200_000, 16, 0), ArrivalPhase::Cruise);
    assert_eq!(decide_phase(1_000_000, 700_000, 200_000, 16, 0), ArrivalPhase::Brake);
    assert_eq!(decide_phase(20_000, 1000, 200_000, 16, 0), ArrivalPhase::Stop);
    assert_eq!(decide_phase(29_999, 0, 200_000, 16, 500_000), ArrivalPhase::Stop);
    assert_eq!(decide_phase(30_000, 0, 200_000, 16, 500_000), ArrivalPhase::Align);
    assert_eq!(decide_phase(30_000, 0, 200_000, 16, 10_000), ArrivalPhase::Cruise);
    assert_eq!(decide_phase(30_000, 0, 200_000, 16, 10_005), ArrivalPhase::Align);
    assert_eq!(ARRIVAL_RADIUS, 30_000);
    assert_eq!(ALIGNMENT_TOLERANCE, 2000);
    assert_eq!(ALIGNING_GAIN, 15);
}

#[test]
fn braking_begins_when_the_stopping_distance_is_used_up() {
    assert_eq!(decide_phase(1_000_000, 632_455, 200_000, 0, 0), ArrivalPhase::Cruise);
    assert_eq!(decide_phase(1_000_000, 632_456, 200_000, 0, 0), ArrivalPhase::Brake);
    assert_eq!(decide_phase(1_000_000, 600_000, 200_000, 0, 0), ArrivalPhase::Cruise);
    assert_eq!(decide_phase(1_000_000, 600_000, 200_000, 1000, 0), ArrivalPhase::Brake);
}

#[test]
fn an_agent_that_cannot_accelerate_brakes() {
    assert_eq!(decide_phase(1_000_000, 0, 0, 16, 0), ArrivalPhase::Brake);
    let mut state = flying(Vec3::zero(), Vec3::new(0, 300_000, 0));
    state.max_acceleration = Some(0);
    let target = Transform::at(Vec3::new(0, 1_000_000, 0));
    assert_eq!(
        arrive_to_marker(&state, &target, 16, 0),
        (Vec3::zero(), told(ArrivalPhase::Brake, 300_000, 0))
    );
}

#[test]
fn cruising_towards_a_far_target() {
    let target = Transform::at(Vec3::new(0, 1_000_000, 0));
    assert_eq!(
        arrive_to_marker(&flying(Vec3::zero(), Vec3::zero()), &target, 16, 0),
        (Vec3::new(0, 200_000, 0), told(ArrivalPhase::Cruise, 0, 0))
    );
    assert_eq!(
        arrive_to_marker(&flying(Vec3::zero(), Vec3::new(100_000, 0, 0)), &target, 16, 10_000),
        (Vec3::new(-3999, 199_960, 0), told(ArrivalPhase::Cruise, 100_000, 2000))
    );
}

#[test]
fn braking_before_a_target_that_comes_too_fast() {
    let target = Transform::at(Vec3::new(0, 1_000_000, 0));
    assert_eq!(
        arrive_to_marker(&flying(Vec3::zero(), Vec3::new(0, 700_000, 0)), &target, 16, 0),
        (Vec3::new(0, -200_000, 0), told(ArrivalPhase::Brake, 700_000, 0))
    );
    let near = Transform::at(Vec3::new(7, 7, 7));
    assert_eq!(
        arrive_to_marker(&flying(Vec3::zero(), Vec3::new(100_000, 200_000, 0)), &near, 16, 0),
        (Vec3::new(-50_592, -177_717, 76_531), told(ArrivalPhase::Brake, 223_606, 0))
    );
}

#[test]
fn stopping_inside_the_arrival_radius() {
    let target = Transform::at(Vec3::new(0, 20_000, 0));
    assert_eq!(
        arrive_to_marker(&flying(Vec3::zero(), Vec3::new(0, 1000, 0)), &target, 16, 0),
        (Vec3::new(0, -1000, 0), told(ArrivalPhase::Stop, 1000, 0))
    );
    assert_eq!(
        arrive_to_marker(&flying(Vec3::zero(), Vec3::new(3000, -1000, 500)), &target, 16, 300_000),
        (Vec3::new(-3000, 1000, -500), told(ArrivalPhase::Stop, 3201, 60_000))
    );
}

#[test]
fn aligning_a_velocity_that_points_across() {
    let target = Transform::at(Vec3::new(0, 1_000_000, 0));
    assert_eq!(
        arrive_to_marker(&flying(Vec3::zero(), Vec3::new(100_000, 0, 0)), &target, 16, 500_000),
        (Vec3::new(-166_410, 110_940, 0), told(ArrivalPhase::Align, 100_000, 100_000))
    );
}

#[test]
fn an_agent_on_the_target_asks_for_nothing() {
    let place = Vec3::new(7, 7, 7);
    assert_eq!(
        arrive_to_marker(
            &flying(place, Vec3::new(100_000, 200_000, 0)),
            &Transform::at(place),
            16,
            250_000
        ),
        (Vec3::zero(), told(ArrivalPhase::Arrived, 223_606, 50_000))
    );
}

#[test]
fn timed_arrival_honours_declared_caps() {
    let mut state = flying(Vec3::zero(), Vec3::new(400_000, -300_000, 0));
    state.max_velocity = Some(2_000_000);
    state.max_acceleration = Some(150_000);
    state.acceleration = Vec3::new(0, 0, -77);
    let target = Transform::at(Vec3::new(-800_000, 600_000, 0));
    assert_eq!(
        arrive_to_marker(&state, &target, 100, 1_000_000),
        (
            Vec3::new(-120_000, 90_000, 0),
            ArrivalReport {
                phase: ArrivalPhase::Cruise,
                speed: 500_000,
                acceleration: 77,
                misalignment: 0
            }
        )
    );
}

#[test]
fn the_world_steers_an_agent_to_its_marker_by_timed_arrival() {
    let ship = Agent {
        state: flying(Vec3::zero(), Vec3::new(0, 700_000, 0)),
        behaviour: None,
        nozzles: Vec::new(),
    };
    let mut world = World::build(vec![
        Entity::Marker(Transform::at(Vec3::new(0, 1_000_000, 0))),
        Entity::Agent(ship),
    ])
    .unwrap();
    let r = AgentRef { index: 1, generation: 0 };
    assert_eq!(world.arrive_to_marker(r, 16, 0), Some(told(ArrivalPhase::Brake, 700_000, 0)));
    match world.entity(r) {
        Some(Entity::Agent(agent)) => {
            assert_eq!(agent.state.acceleration, Vec3::new(0, -200_000, 0));
            assert_eq!(agent.state.velocity, Vec3::new(0, 700_000, 0));
        }
        _ => panic!("not an agent"),
    }
    assert_eq!(
        world.arrive_to_marker(r, 16, 0),
        Some(ArrivalReport {
            phase: ArrivalPhase::Brake,
            speed: 700_000,
            acceleration: 200_000,
            misalignment: 0
        })
    );
    assert_eq!(world.arrive_to_marker(world.marker(), 16, 0), None);
    assert_eq!(world.arrive_to_marker(AgentRef { index: 1, generation: 1 }, 16, 0), None);
}
