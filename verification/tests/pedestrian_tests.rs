use std::rc::Rc;
use zebra::pedestrian::{Pedestrian, Person};
use zebra::road::{Crossing, CROSSING_TIME_MS};

#[test]
fn test_get_pedestrian_id() {
    let test_pelican = Rc::new(Crossing::pelican(0));
    let test_pedestrian = Pedestrian::new(1, Rc::clone(&test_pelican), 0);
    assert_eq!(test_pedestrian.get_id(), 1);
}

#[test]
fn test_pedestrian_location() {
    let test_pelican = Rc::new(Crossing::pelican(0));
    let test_pedestrian = Pedestrian::new(0, Rc::clone(&test_pelican), 0);
    assert_eq!(*test_pedestrian.location(), test_pelican);
}

#[test]
fn test_pedestrian_arrival() {
    let test_zebra = Rc::new(Crossing::zebra(0));
    let arrival_time = 0;
    let test_pedestrian = Pedestrian::new(0, Rc::clone(&test_zebra), arrival_time);
    let exit_time = test_zebra.stop_time() + test_pedestrian.arrival_time;

    // Expect the exit time to be the arrival time plus the time taken to cross.
    assert_eq!(exit_time, CROSSING_TIME_MS + arrival_time);
}

#[test]
fn test_pedestrian_is_active() {
    let test_zebra = Rc::new(Crossing::zebra(0));
    let arrival_time = 2000;
    let test_pedestrian = Pedestrian::new(0, Rc::clone(&test_zebra), arrival_time);

    // Active exactly over [arrival, arrival + stop_time).
    assert_eq!(test_pedestrian.is_active(arrival_time - 1), false);
    assert_eq!(test_pedestrian.is_active(arrival_time), true);
    assert_eq!(
        test_pedestrian.is_active(arrival_time + test_zebra.stop_time().millis() - 1),
        true
    );
    assert_eq!(
        test_pedestrian.is_active(arrival_time + test_zebra.stop_time().millis()),
        false
    );
}

#[test]
fn test_pedestrian_rc_equivalance() {
    let test_zeb1 = Rc::new(Crossing::zebra(0));
    let test_zeb2 = Rc::new(Crossing::zebra(1));
    let arrival_time = 0;
    let test_ped1 = Pedestrian::new(0, Rc::clone(&test_zeb1), arrival_time);
    let test_ped2 = Pedestrian::new(0, Rc::clone(&test_zeb2), arrival_time);

    // Check same values
    assert!(test_ped1.location().eq(&test_zeb1));
    assert!(test_ped2.location().eq(&test_zeb2));

    // Check same references
    assert!(Rc::ptr_eq(&test_ped1.location, &test_zeb1));
    assert!(Rc::ptr_eq(&test_ped2.location, &test_zeb2));

    // Check difference references
    assert!(!Rc::ptr_eq(&test_ped1.location, &test_ped2.location));
}

#[test]
fn test_pedestrian_exit_time() {
    let test_zebra = Rc::new(Crossing::zebra(0));
    let test_pedestrian = Pedestrian::new(3, Rc::clone(&test_zebra), 2_500);
    assert_eq!(test_pedestrian.exit_time(), 2_500 + CROSSING_TIME_MS);
}
