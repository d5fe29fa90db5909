use zebra::road::{Crossing, Direction, Road};
use zebra::time::TimeDelta;
use zebra::vehicle::{Action, Car, ACCELERATION_VALUE, DECCELERATION_VALUE, MAX_SPEED};

fn spawn_car_take_action(init_action: Action, init_speed: i64) {
    let mut test_car = Car::new(0, Direction::Up, init_speed, init_action);

    let test_secs = TimeDelta::new(1000);
    test_car.roll_forward_by(test_secs);

    // Over one second the speed changes by exactly the acceleration.
    assert_eq!(
        test_car.get_speed(),
        init_speed + test_car.get_acceleration()
    );

    assert!(test_car.get_veh_position() > 0);

    if matches!(init_action, Action::Accelerate) {
        assert_eq!(test_car.get_acceleration(), ACCELERATION_VALUE);
    } else if matches!(init_action, Action::Deccelerate) {
        assert_eq!(test_car.get_acceleration(), DECCELERATION_VALUE);
    }
}

#[test]
fn test_get_car_id() {
    let test_car = Car::new(1, Direction::Up, 13_000, Action::Accelerate);
    assert_eq!(test_car.get_id(), 1);
}

#[test]
fn test_car_postion() {
    let test_car = Car::new(0, Direction::Up, 13_000, Action::Accelerate);
    assert_eq!(test_car.get_veh_position(), 0);
}

#[test]
fn test_car_direction() {
    let test_car = Car::new(0, Direction::Up, 13_000, Action::Accelerate);
    assert!(matches!(test_car.get_direction(), Direction::Up));
}

#[test]
fn test_roll_forward_static() {
    let mut test_car = Car::new(0, Direction::Up, 0, Action::Accelerate);
    test_car.action(Action::StaticSpeed);
    test_car.roll_forward_by(TimeDelta::new(5000));
    assert_eq!(test_car.get_speed(), 0);
    assert_eq!(test_car.get_veh_position(), 0);
    assert_eq!(test_car.get_acceleration(), 0);
}

#[test]
fn test_roll_forward_acceleration() {
    spawn_car_take_action(Action::Accelerate, 0);
}

#[test]
fn test_roll_forward_deceleration() {
    spawn_car_take_action(Action::Deccelerate, MAX_SPEED);
}

#[test]
fn test_roll_forward_deceleration_clamps_at_zero() {
    // Rolling far past the stopping instant must not make speed negative.
    let mut test_car = Car::new(0, Direction::Up, 8_000, Action::Deccelerate);
    test_car.roll_forward_by(TimeDelta::new(60_000));
    assert_eq!(test_car.get_speed(), 0);
    // Stopping distance v^2 / (2 * 4) metres: 8^2 / 8 = 8 m.
    assert_eq!(test_car.get_veh_position(), 8_000);
}

#[test]
fn test_next_crossing() {
    let crossings = vec![
        (Crossing::Zebra { id: 0, cross_time: TimeDelta::from_secs(25) }, 10_000),
        (Crossing::Zebra { id: 1, cross_time: TimeDelta::from_secs(10) }, 20_000),
    ];

    let road = Road::new(30_000, crossings);

    let vehicle = Car::new(0, Direction::Up, 0, Action::Accelerate);
    let actual = vehicle.next_crossing(&road).unwrap();

    assert_eq!(actual.1, 10_000);
}

#[test]
fn test_car_as_obstacle() {
    // Subject car is going slower than the obstacle.
    let mut test_car = Car::new(0, Direction::Up, 5_000, Action::StaticSpeed);
    let mut test_obstacle_car = Car::new(0, Direction::Up, 10_000, Action::StaticSpeed);

    // Roll both cars forward 5s.
    test_car.roll_forward_by(TimeDelta::new(5000));
    test_obstacle_car.roll_forward_by(TimeDelta::new(5000));

    let relative_position = test_car.relative_veh_position(&test_obstacle_car);
    let relative_speed = test_car.relative_speed(&test_obstacle_car.as_obstacle());

    assert_eq!(relative_position, -25_000);
    assert_eq!(relative_speed, -5_000);
}

#[test]
fn test_next_vehicle_picks_nearest_ahead() {
    let mut far = Car::new(0, Direction::Up, 0, Action::StaticSpeed);
    far.set_position(90_000);
    let mut near = Car::new(1, Direction::Up, 0, Action::StaticSpeed);
    near.set_position(40_000);
    let mut wrong_way = Car::new(2, Direction::Down, 0, Action::StaticSpeed);
    wrong_way.set_position(50_000);
    let mut me = Car::new(3, Direction::Up, 10_000, Action::StaticSpeed);
    me.set_position(10_000);

    let fleet = vec![far, near, wrong_way, me];
    assert_eq!(me.next_vehicle(&fleet), Some(1));
    assert_eq!(far.next_vehicle(&fleet), None);
}
