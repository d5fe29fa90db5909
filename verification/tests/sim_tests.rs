use std::rc::Rc;
use zebra::event_driven_sim::{EventDrivenSim, KernelError};
use zebra::events::EventType;
use zebra::road::{Crossing, Direction, Road};
use zebra::simulation::arrival_times;
use zebra::state::SimulatorState;
use zebra::pedestrian::Pedestrian;
use zebra::vehicle::{Action, Car, MAX_SPEED};
use zebra::time::TimeDelta;

fn dummy_sim(state: SimulatorState) -> EventDrivenSim {
    let road = Road::new(100_000, Vec::new());
    EventDrivenSim::new(147, 0, 500_000, vec![], vec![], state, road)
}

#[test]
fn test_set_state() {
    let state = SimulatorState::new();
    let mut sim = dummy_sim(state);
    assert_eq!(sim.state.timestamp(), 0);

    // Construct a new state with a non-zero timestamp.
    let new_timestamp = 10000;
    let new_state = SimulatorState::dummy(Vec::new(), Vec::new(), new_timestamp);

    // Set the simulation state.
    sim.set_state(new_state);
    assert_eq!(sim.state.timestamp(), new_timestamp);
}

#[test]
fn test_set_arrival_times() {
    let state = SimulatorState::new();
    let mut sim = dummy_sim(state);
    assert_ne!(sim.ped_arrival_times, vec![10000, 20000]);

    // Construct new pedestrian arrival times.
    let ped_arrival_times = vec![10000, 20000];

    // Set the simulation pedestrian arrival times.
    sim.set_ped_arrival_times(ped_arrival_times);
    assert_eq!(sim.ped_arrival_times, vec![10000, 20000]);

    // Construct new vehicle arrival times.
    let veh_arrival_times = vec![12000, 21000];

    // Set the simulation vehicle arrival times.
    sim.set_veh_arrival_times(veh_arrival_times);
    assert_eq!(sim.veh_arrival_times, vec![12000, 21000]);
}

#[test]
fn test_pedestrian_arrival_event() {
    let state = SimulatorState::new();
    let mut sim = dummy_sim(state);

    let ped_arrival_times = vec![10000, 20000];
    let veh_arrival_times = vec![12000, 21000];

    // Set the pedestrian & vehicle arrival times.
    sim.set_ped_arrival_times(ped_arrival_times);
    sim.set_veh_arrival_times(veh_arrival_times);

    let next_events = sim.next_events();
    let actual = next_events.first().unwrap();
    assert_eq!(actual.0, 10000);
}

#[test]
fn test_vehicle_arrival_event() {
    let state = SimulatorState::new();
    let mut sim = dummy_sim(state);

    let ped_arrival_times = vec![5000, 7000];
    let veh_arrival_times = vec![4000, 15000];

    // Set the pedestrian & vehicle arrival times.
    sim.set_ped_arrival_times(ped_arrival_times);
    sim.set_veh_arrival_times(veh_arrival_times);

    let next_events = sim.next_events();
    let actual = next_events.first().unwrap();
    assert_eq!(actual.0, 4000);
}

#[test]
fn test_case1_reaction_to_obstacle() {
    let mut v1 = Car::new(0, Direction::Up, 14_000, Action::StaticSpeed);
    let mut v2 = Car::new(1, Direction::Up, 0, Action::StaticSpeed);
    v1.set_position(0);
    v2.set_position(100_000);

    let state = SimulatorState::dummy(vec![v1, v2], Vec::new(), 0);
    let sim = dummy_sim(state);
    let mv1 = sim.state.get_vehicle(0);
    let mv2 = sim.state.get_vehicle(1);
    let t_p = sim.time_to_obstacle_event(&mv1, &mv2.as_obstacle(), false, false);
    assert!((t_p.unwrap() as f32 / 1000.0 - 5.321429).abs() < 0.001);
}

#[test]
fn test_case1b_reaction_to_obstacle() {
    let mut v1 = Car::new(0, Direction::Up, 14_000, Action::StaticSpeed);
    let mut v2 = Car::new(1, Direction::Up, 10_000, Action::StaticSpeed);
    v1.set_position(80_000);
    v2.set_position(100_000);

    let state = SimulatorState::dummy(vec![v1, v2], Vec::new(), 0);
    let sim = dummy_sim(state);
    let mv1 = sim.state.get_vehicle(0);
    let mv2 = sim.state.get_vehicle(1);
    let t_p = sim.time_to_obstacle_event(&mv1, &mv2.as_obstacle(), false, false);
    assert!((t_p.unwrap() as f32 / 1000.0 - 4.25).abs() < 0.001);
}

#[test]
fn test_case2_reaction_to_obstacle() {
    let mut v1 = Car::new(0, Direction::Up, 4_000, Action::Accelerate);
    let mut v2 = Car::new(1, Direction::Up, 0, Action::StaticSpeed);
    v1.set_position(0);
    v2.set_position(20_000);

    let state = SimulatorState::dummy(vec![v1, v2], Vec::new(), 0);
    let sim = dummy_sim(state);
    let mv1 = sim.state.get_vehicle(0);
    let mv2 = sim.state.get_vehicle(1);
    let t_p = sim.time_to_obstacle_event(&mv1, &mv2.as_obstacle(), false, false);

    assert!((t_p.unwrap() as f32 / 1000.0 - 1.539638691).abs() < 0.001);
}

#[test]
fn test_case2b_reaction_to_obstacle() {
    let mut v1 = Car::new(0, Direction::Up, 14_000, Action::Accelerate);
    let mut v2 = Car::new(1, Direction::Up, 10_000, Action::StaticSpeed);
    v1.set_position(80_000);
    v2.set_position(100_000);

    let state = SimulatorState::dummy(vec![v1, v2], Vec::new(), 0);
    let sim = dummy_sim(state);
    let mv1 = sim.state.get_vehicle(0);
    let mv2 = sim.state.get_vehicle(1);
    let t_p = sim.time_to_obstacle_event(&mv1, &mv2.as_obstacle(), false, false);

    assert!((t_p.unwrap() as f32 / 1000.0 - 1.539638691).abs() < 0.001);
}

#[test]
fn test_case3_reaction_to_obstacle() {
    let mut v1 = Car::new(0, Direction::Up, 14_000, Action::Accelerate);
    let mut v2 = Car::new(1, Direction::Up, 10_000, Action::Deccelerate);
    v1.set_position(0);
    v2.set_position(25_000);

    let state = SimulatorState::dummy(vec![v1, v2], Vec::new(), 0);
    let sim = dummy_sim(state);
    let mv1 = sim.state.get_vehicle(0);
    let mv2 = sim.state.get_vehicle(1);
    let t_p = sim.time_to_obstacle_event(&mv1, &mv2.as_obstacle(), false, false);

    assert!((t_p.unwrap() as f32 / 1000.0 - 0.466481135).abs() < 0.001);
}

#[test]
fn test_case3_danger_reaction_to_obstacle() {
    let mut v1 = Car::new(0, Direction::Up, 14_000, Action::Accelerate);
    let mut v2 = Car::new(1, Direction::Up, 10_000, Action::Deccelerate);
    v1.set_position(0);
    v2.set_position(10_000);

    let state = SimulatorState::dummy(vec![v1, v2], Vec::new(), 0);
    let sim = dummy_sim(state);
    let mv1 = sim.state.get_vehicle(0);
    let mv2 = sim.state.get_vehicle(1);
    let t_p = sim.time_to_obstacle_event(&mv1, &mv2.as_obstacle(), false, false);

    // Negative time as already will end up in danger zone
    assert!((t_p.unwrap() as f32 / 1000.0 - -0.124099041).abs() < 0.001);
}

#[test]
fn test_vehicle_speed_limit_event() {
    let speed = 10_000;
    let vehicles = vec![Car::new(0u64, Direction::Up, speed, Action::Accelerate)];

    let timestamp = 11 * 1000;
    let state = SimulatorState::dummy(vehicles, Vec::new(), timestamp);

    let mut sim = dummy_sim(state);
    sim.veh_counter = 1;

    let next_events = sim.next_events();
    let actual = next_events.first().unwrap();
    assert_eq!(actual.0, timestamp + (MAX_SPEED - speed) / 3);
}

#[test]
fn test_empty_road_no_arrivals() {
    // No crossings, no arrivals: the only event is the stop at the end.
    let road = Road::new(0, Vec::new());
    let state = SimulatorState::new();
    let mut sim = EventDrivenSim::new(147, 0, 60_000, vec![], vec![], state, road);

    let evs = sim.step().unwrap();
    assert_eq!(evs.len(), 1);
    assert_eq!(evs[0].0, 60_000);
    assert!(matches!(evs[0].1, EventType::StopSimulation));
    assert_eq!(sim.state.timestamp(), 60_000);
    assert_eq!(sim.state.get_vehicles().len(), 0);
    assert_eq!(sim.state.get_pedestrians().len(), 0);
}

#[test]
fn test_single_vehicle_free_road() {
    // Inject a vehicle at t = 0 with speed 0, accelerating, on a free
    // 1000 m road: it reaches the cap at 13410 / 3 ms, then exits.
    let road = Road::new(1_000_000, Vec::new());
    let mut v = Car::new(0, Direction::Up, 0, Action::Accelerate);
    v.set_position(0);
    let state = SimulatorState::dummy(vec![v], Vec::new(), 0);
    let mut sim = EventDrivenSim::new(147, 0, 500_000, vec![], vec![], state, road);
    sim.veh_counter = 1;

    let evs = sim.step().unwrap();
    assert_eq!(evs.len(), 1);
    assert_eq!(evs[0].0, 4470);
    assert!(matches!(evs[0].1, EventType::SpeedLimitReached(0)));
    assert_eq!(sim.state.get_vehicle(0).get_speed(), MAX_SPEED);

    // Now at constant speed: next the exit, at the displacement equation's
    // positive root.
    let pos = sim.state.get_vehicle(0).get_veh_position();
    let expect_exit = 4470 + (1_000_000 - pos) * 1000 / MAX_SPEED;
    let evs = sim.step().unwrap();
    assert_eq!(evs.len(), 1);
    assert!(matches!(evs[0].1, EventType::VehicleExit(0)));
    assert_eq!(evs[0].0, expect_exit);
    assert_eq!(sim.state.get_vehicles().len(), 0);
}

#[test]
fn test_pedestrian_blocking_vehicle() {
    // Road 300 m, one zebra at 170 m, vehicle from rest of the road's
    // origin at the cap; pedestrian on the crossing from t = 0.  The
    // reaction instant leaves the vehicle stopped one buffer short of
    // the crossing: at 169 m, within rounding.
    let road = Road::new(300_000, vec![(Crossing::zebra(0), 170_000)]);
    let mut v = Car::new(0, Direction::Up, MAX_SPEED, Action::StaticSpeed);
    v.set_position(0);
    let ped = Pedestrian::new(0, Rc::new(road.get_crossings(&Direction::Up)[0].0), 0);
    let state = SimulatorState::dummy(vec![v], vec![ped], 0);
    let sim = EventDrivenSim::new(147, 0, 500_000, vec![], vec![], state, road);

    let car = sim.state.get_vehicle(0);
    let obstacle = zebra::obstacle::Obstacle::from_pedestrian(
        sim.state.get_pedestrian(0), sim.get_road(), Direction::Up);
    let t = sim.time_to_obstacle_event(&car, &obstacle, false, false).unwrap();

    // Distance covered before braking plus the braking distance comes to
    // 169 m within the rounding tolerance.
    let braking_start_mm = MAX_SPEED * t / 1000;
    let braking_distance_mm = MAX_SPEED * MAX_SPEED / (2 * 4000);
    let stop_mm = braking_start_mm + braking_distance_mm;
    assert!((stop_mm - 169_000).abs() <= 20);
}

#[test]
fn test_emergency_stop_event() {
    // Follower accelerating right behind a braking leader: the reaction
    // instant is already past, so the kernel clamps the speed to zero now.
    let mut leader = Car::new(0, Direction::Up, 10_000, Action::Deccelerate);
    leader.set_position(10_000);
    let mut follower = Car::new(1, Direction::Up, MAX_SPEED, Action::Accelerate);
    follower.set_position(0);
    let state = SimulatorState::dummy(vec![leader, follower], Vec::new(), 0);
    let road = Road::new(1_000_000, Vec::new());
    let mut sim = EventDrivenSim::new(147, 0, 500_000, vec![], vec![], state, road);
    sim.veh_counter = 2;

    let evs = sim.step().unwrap();
    assert_eq!(sim.state.timestamp(), 0);
    assert!(evs.iter().any(|e| matches!(e.1, EventType::EmergencyStop(1))));
    assert_eq!(sim.state.get_vehicle(1).get_speed(), 0);
}

#[test]
fn test_stop_wins_over_arrival() {
    // A vehicle arriving exactly at the end time is not created: the
    // stop wins among simultaneous events.
    let road = Road::new(100_000, Vec::new());
    let state = SimulatorState::new();
    let mut sim = EventDrivenSim::new(147, 0, 60_000, vec![], vec![60_000], state, road);

    let evs = sim.step().unwrap();
    assert!(evs.iter().any(|e| matches!(e.1, EventType::StopSimulation)));
    assert!(evs.iter().any(|e| matches!(e.1, EventType::VehicleArrival)));
    assert_eq!(sim.state.get_vehicles().len(), 0);
    assert_eq!(sim.veh_counter, 0);
    assert_eq!(sim.state.timestamp(), 60_000);
}

#[test]
fn test_arrival_times_zero_rate_empty() {
    let draws = vec![100, 200, 300];
    let times = arrival_times(&0, &60_000, 0, &draws);
    assert_eq!(times.len(), 0);
}

#[test]
fn test_arrival_times_partial_sums() {
    let draws = vec![100, 200, 300, 1_000_000];
    let times = arrival_times(&0, &60_000, 500, &draws);
    assert_eq!(times, vec![100, 300, 600]);
}

#[test]
fn test_min_headway_enforced() {
    // Vehicle arrivals closer than the braking headway are pushed apart.
    let road = Road::new(100_000, Vec::new());
    let state = SimulatorState::new();
    let sim = EventDrivenSim::new(
        147, 0, 500_000, vec![], vec![0, 1_000, 10_000], state, road);
    assert_eq!(sim.veh_arrival_times, vec![0, 3_400, 10_000]);
}

#[test]
fn test_vehicle_arrival_creates_vehicle() {
    let road = Road::new(100_000, Vec::new());
    let state = SimulatorState::new();
    let mut sim = EventDrivenSim::new(147, 0, 500_000, vec![], vec![4_000], state, road);

    let evs = sim.step().unwrap();
    assert!(evs.iter().any(|e| matches!(e.1, EventType::VehicleArrival)));
    assert_eq!(sim.state.timestamp(), 4_000);
    assert_eq!(sim.state.get_vehicles().len(), 1);
    let v = sim.state.get_vehicle(0);
    assert_eq!(v.get_id(), 0);
    assert_eq!(v.get_speed(), MAX_SPEED);
    assert_eq!(v.get_acceleration(), 0);
    assert!(matches!(v.get_direction(), Direction::Up));
    assert_eq!(sim.veh_counter, 1);
}

#[test]
fn test_pedestrian_arrival_and_exit() {
    let road = Road::new(300_000, vec![(Crossing::zebra(0), 170_000)]);
    let state = SimulatorState::new();
    let mut sim = EventDrivenSim::new(147, 0, 500_000, vec![5_000], vec![], state, road);

    let evs = sim.step().unwrap();
    assert!(evs.iter().any(|e| matches!(e.1, EventType::PedestrianArrival)));
    assert_eq!(sim.state.get_pedestrians().len(), 1);
    let p = sim.state.get_pedestrian(0);
    assert_eq!(p.id, 0);
    assert_eq!(p.arrival_time, 5_000);
    assert_eq!(p.location.get_id(), 0);

    // The pedestrian's window ends at arrival + stop time; the next step
    // removes it.
    let evs = sim.step().unwrap();
    assert_eq!(evs[0].0, 15_000);
    assert!(evs.iter().any(|e| matches!(e.1, EventType::PedestrianExit(0))));
    assert_eq!(sim.state.get_pedestrians().len(), 0);
}

#[test]
fn test_pedestrian_arrival_without_crossings_fails() {
    let road = Road::new(100_000, Vec::new());
    let state = SimulatorState::new();
    let mut sim = EventDrivenSim::new(147, 0, 500_000, vec![5_000], vec![], state, road);

    assert_eq!(sim.step().err(), Some(KernelError::NoCrossings));
}

#[test]
fn test_overtaking_detected() {
    // A faster follower placed ahead of its leader breaks the ordering
    // invariant; the kernel reports it rather than carrying on.
    let mut a = Car::new(0, Direction::Up, 0, Action::StaticSpeed);
    a.set_position(10_000);
    let mut b = Car::new(1, Direction::Up, 0, Action::StaticSpeed);
    b.set_position(50_000);
    let state = SimulatorState::dummy(vec![a, b], Vec::new(), 0);
    let road = Road::new(1_000_000, Vec::new());
    let mut sim = EventDrivenSim::new(147, 0, 500_000, vec![], vec![], state, road);
    sim.veh_counter = 2;

    assert_eq!(sim.step().err(), Some(KernelError::Overtaking));
}

#[test]
fn test_run_to_completion() {
    let road = Road::new(100_000, Vec::new());
    let state = SimulatorState::new();
    let mut sim = EventDrivenSim::new(147, 0, 60_000, vec![], vec![], state, road);
    let (completed, steps) = sim.run(1000).unwrap();
    assert!(completed);
    assert!(steps <= 1000);
    assert_eq!(sim.state.timestamp(), 60_000);
}

#[test]
fn test_min_gaps_checker() {
    let mut leader = Car::new(0, Direction::Up, 0, Action::StaticSpeed);
    leader.set_position(10_000);
    let mut follower = Car::new(1, Direction::Up, 0, Action::StaticSpeed);
    follower.set_position(9_500);
    let state = SimulatorState::dummy(vec![leader, follower], Vec::new(), 0);
    let road = Road::new(1_000_000, Vec::new());
    let mut sim = EventDrivenSim::new(147, 0, 500_000, vec![], vec![], state, road);
    sim.veh_counter = 2;

    // 500 mm of gap is less than the 1000 mm buffer.
    assert!(!sim.check_min_gaps());

    let mut far = sim.state.get_vehicle(1);
    far.set_position(8_000);
    sim.state.set_vehicle(1, far);
    assert!(sim.check_min_gaps());
}

#[test]
fn test_simulator_state_constructor() {
    let state = SimulatorState::new();

    assert_eq!(state.get_vehicles().len(), 0); // No vehicles
    assert_eq!(state.get_pedestrians().len(), 0); // No pedestrians
}

#[test]
fn test_gap_respected_each_iteration() {
    // A vehicle closing on a long-occupied crossing: the reaction instant
    // leaves it one buffer short, and the safety margin holds after every
    // kernel iteration of the whole run.
    let crossing = Crossing::Zebra { id: 0, cross_time: TimeDelta::new(60_000) };
    let road = Road::new(300_000, vec![(crossing, 170_000)]);
    let ped = Pedestrian::new(0, Rc::new(road.get_crossings(&Direction::Up)[0].0), 0);
    let mut v = Car::new(0, Direction::Up, MAX_SPEED, Action::StaticSpeed);
    v.set_position(0);
    let state = SimulatorState::dummy(vec![v], vec![ped], 0);
    let mut sim = EventDrivenSim::new(147, 0, 60_000, vec![], vec![], state, road);
    sim.veh_counter = 1;
    sim.ped_counter = 1;

    let mut iterations = 0;
    while sim.state.timestamp() < sim.end_time && iterations < 100 {
        sim.step().unwrap();
        assert!(sim.check_min_gaps());
        iterations += 1;
    }
    assert_eq!(sim.state.timestamp(), 60_000);
    // The vehicle came to rest one buffer zone short of the crossing.
    let f = sim.state.get_vehicle(0);
    assert_eq!(f.get_speed(), 0);
    assert!((f.get_veh_position() - 169_000).abs() <= 20);
}

#[test]
fn test_vehicle_accelerates_when_clear() {
    // A vehicle below the cap with nothing ahead switches to
    // accelerating at the current instant.
    let road = Road::new(1_000_000, Vec::new());
    let mut v = Car::new(0, Direction::Up, 0, Action::StaticSpeed);
    v.set_position(0);
    let state = SimulatorState::dummy(vec![v], Vec::new(), 0);
    let mut sim = EventDrivenSim::new(147, 0, 500_000, vec![], vec![], state, road);
    sim.veh_counter = 1;

    let evs = sim.step().unwrap();
    assert_eq!(evs.len(), 1);
    assert_eq!(evs[0].0, 0);
    assert!(matches!(evs[0].1, EventType::VehicleAccelerate(0)));
    assert_eq!(sim.state.timestamp(), 0);
    // Accelerate mode sets the +3 m/s^2 acceleration.
    assert_eq!(sim.state.get_vehicle(0).get_acceleration(), 3_000);
}
