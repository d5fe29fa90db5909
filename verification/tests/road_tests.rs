use zebra::road::{Crossing, Direction, Road, RoadError, CROSSING_TIME_MS, WAIT_TIME_MS};
use zebra::time::TimeDelta;

#[test]
fn test_stop_time_zebra() {
    let test_zebra = Crossing::zebra(0);
    assert_eq!(test_zebra.stop_time(), TimeDelta::new(CROSSING_TIME_MS));
}

#[test]
fn test_stop_time_pelican() {
    let test_pelican = Crossing::pelican(0);
    assert_eq!(test_pelican.stop_time(), TimeDelta::new(CROSSING_TIME_MS));
}

#[test]
fn test_arrive_to_stop_zebra() {
    let test_zebra = Crossing::zebra(0);
    assert_eq!(test_zebra.arrival_to_stop_time(), TimeDelta::from(0));
}

#[test]
fn test_arrive_to_stop_pelican() {
    let test_pelican = Crossing::pelican(0);
    assert_eq!(test_pelican.arrival_to_stop_time(), TimeDelta::new(WAIT_TIME_MS));
}

#[test]
fn test_crossing_get_id() {
    let test_pelican = Crossing::pelican(0);
    assert_eq!(test_pelican.get_id(), 0);
    let test_zebra = Crossing::zebra(1);
    assert_eq!(test_zebra.get_id(), 1);
}

#[test]
fn test_get_position() {
    // Positions in millimetres: crossings at 10 m and 13 m on a 30 m road.
    let crossings = vec![
        (Crossing::Zebra { id: 0, cross_time: TimeDelta::from_secs(25) }, 10_000),
        (Crossing::Zebra { id: 1, cross_time: TimeDelta::from_secs(10) }, 13_000),
    ];
    let road = Road::new(30_000, crossings);

    let (crossing, _) = &road.get_crossings(&Direction::Up)[0];
    assert_eq!(crossing.get_position(&road, &Direction::Up), 10_000);
    assert_eq!(crossing.get_position(&road, &Direction::Down), 30_000 - 10_000);

    let (crossing, _) = &road.get_crossings(&Direction::Up)[1];
    assert_eq!(crossing.get_position(&road, &Direction::Up), 13_000);
    assert_eq!(crossing.get_position(&road, &Direction::Down), 30_000 - 13_000);
}

#[test]
fn test_get_crossing_position() {
    let crossings = vec![
        (Crossing::Zebra { id: 0, cross_time: TimeDelta::from_secs(25) }, 10_000),
        (Crossing::Zebra { id: 1, cross_time: TimeDelta::from_secs(10) }, 13_000),
    ];
    let road = Road::new(30_000, crossings);

    assert_eq!(road.get_crossing_position(&0, Direction::Up), 10_000);
    assert_eq!(road.get_crossing_position(&1, Direction::Up), 13_000);

    assert_eq!(road.get_crossing_position(&0, Direction::Down), 30_000 - 10_000);
    assert_eq!(road.get_crossing_position(&1, Direction::Down), 30_000 - 13_000);
}

#[test]
fn test_mirror_positions_sum_to_length() {
    let crossings = vec![
        (Crossing::zebra(0), 80_000),
        (Crossing::Zebra { id: 1, cross_time: TimeDelta::new(10_000) }, 200_000),
    ];
    let road = Road::new(400_000, crossings);
    for id in 0..2u64 {
        let up = road.get_crossing_position(&id, Direction::Up);
        let down = road.get_crossing_position(&id, Direction::Down);
        assert_eq!(up + down, road.get_length());
    }
}

#[test]
fn test_position_of_unknown_crossing() {
    let road = Road::new(20_000, vec![(Crossing::zebra(0), 5_000)]);
    assert_eq!(road.position_of(0, Direction::Up), Ok(5_000));
    assert_eq!(road.position_of(7, Direction::Up), Err(RoadError::UnknownCrossing));
}

#[test]
fn test_from_config_builds_sorted_ids() {
    let zebras = vec![80_000i64];
    let pelicans = vec![340_000i64];
    let road = Road::from_config(400_000, &zebras, &pelicans).unwrap();
    let ups = road.get_crossings(&Direction::Up);
    assert_eq!(ups.len(), 2);
    assert_eq!(ups[0].0.get_id(), 0);
    assert_eq!(ups[1].0.get_id(), 1);
    assert_eq!(ups[0].1, 80_000);
    assert_eq!(ups[1].1, 340_000);
    assert!(matches!(ups[0].0, Crossing::Zebra { .. }));
    assert!(matches!(ups[1].0, Crossing::Pelican { .. }));
}

#[test]
fn test_from_config_interleaves() {
    let zebras = vec![10_000i64, 50_000];
    let pelicans = vec![30_000i64];
    let road = Road::from_config(100_000, &zebras, &pelicans).unwrap();
    let ups = road.get_crossings(&Direction::Up);
    assert_eq!(ups.len(), 3);
    assert_eq!(ups[0].1, 10_000);
    assert_eq!(ups[1].1, 30_000);
    assert_eq!(ups[2].1, 50_000);
    assert!(matches!(ups[1].0, Crossing::Pelican { .. }));
}

#[test]
fn test_from_config_position_out_of_range() {
    let zebras = vec![30_000i64];
    let pelicans: Vec<i64> = vec![];
    let r = Road::from_config(20_000, &zebras, &pelicans);
    assert_eq!(r.err(), Some(RoadError::PositionOutOfRange));
}

#[test]
fn test_from_config_duplicate_position() {
    let zebras = vec![10_000i64];
    let pelicans = vec![10_000i64];
    let r = Road::from_config(20_000, &zebras, &pelicans);
    assert_eq!(r.err(), Some(RoadError::DuplicatePosition));
}
