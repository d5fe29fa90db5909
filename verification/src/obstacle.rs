use vstd::prelude::*;
use crate::road::{Direction, Road};
use crate::pedestrian::Pedestrian;

verus! {

/// Upper bound on obstacle and vehicle coordinates, in millimetres.
pub const MAX_COORD: i64 = 4_000_000_000_000_000;

/// Upper bound on speeds the simulation admits, in millimetres per second.
pub const SPEED_BOUND: i64 = 100_000;

/// Upper bound on obstacle lengths and buffer zones, in millimetres.
pub const MAX_GAP: i64 = 10_000_000;

/// The uniform kinematic view of anything a vehicle must avoid: another
/// vehicle, a pedestrian occupying a crossing, or the far end of the road.
/// The position is measured in the observing vehicle's direction.
#[derive(Debug, Clone, Copy, PartialEq, Eq, Structural)]
pub struct Obstacle {
    pub position: i64,
    pub speed: i64,
    pub acceleration: i64,
    pub length: i64,
}

impl Obstacle {
    pub open spec fn wf(&self) -> bool {
        &&& 0 <= self.position <= MAX_COORD
        &&& 0 <= self.speed <= SPEED_BOUND
        &&& -10_000 <= self.acceleration <= 10_000
        &&& 0 <= self.length <= MAX_GAP
    }

    /// The synthetic stationary obstacle at the far end of the road, used
    /// uniformly for end-of-road detection.
    pub fn road_exit(road: &Road) -> (o: Obstacle)
        requires
            road.wf(),
        ensures
            o == (Obstacle {
                position: road.spec_length() as i64,
                speed: 0,
                acceleration: 0,
                length: 0,
            }),
            o.wf(),
    {
        Obstacle { position: road.get_length(), speed: 0, acceleration: 0, length: 0 }
    }

    /// A pedestrian as an obstacle: at its crossing's position in the
    /// observer's direction, stationary, and of length zero.
    pub fn from_pedestrian(ped: &Pedestrian, road: &Road, direction: Direction) -> (o: Obstacle)
        requires
            road.wf(),
            0 <= (*ped.location).spec_id() < road.num_crossings(),
        ensures
            o == (Obstacle {
                position: road.spec_crossing_position(
                    (*ped.location).spec_id() as int, direction) as i64,
                speed: 0,
                acceleration: 0,
                length: 0,
            }),
            o.wf(),
    {
        let position = ped.location.get_position(road, &direction);
        Obstacle { position, speed: 0, acceleration: 0, length: 0 }
    }
}

} // verus!
