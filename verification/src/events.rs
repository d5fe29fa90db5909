use vstd::prelude::*;
use crate::{ID, Time};

verus! {

/// The discrete state changes the kernel schedules.  `usize` arguments are
/// slots in the vehicle list; `PedestrianExit` carries the pedestrian's
/// identifier.
#[derive(Debug, Clone, Copy, PartialEq, Eq, Structural)]
pub enum EventType {
    VehicleAccelerate(usize),
    SpeedLimitReached(usize),
    ZeroSpeedReached(usize),
    StaticSpeedReached(usize),
    ReactionToObstacle(usize),
    EmergencyStop(usize),
    LightsToRed(usize),
    LightsToGreen(usize),
    VehicleExit(usize),
    PedestrianExit(ID),
    VehicleArrival,
    PedestrianArrival,
    StopSimulation,
}

/// A scheduled state change: an absolute time and a variant.
#[derive(Debug, Clone, Copy, PartialEq, Eq, Structural)]
pub struct Event(pub Time, pub EventType);

/// Ordering among simultaneous events: continuous transitions before
/// lights before exits before arrivals before the stop.  This avoids,
/// for instance, removing a vehicle in the same instant its deceleration
/// starts.
pub open spec fn spec_priority(e: EventType) -> int {
    match e {
        EventType::VehicleAccelerate(_) => 0,
        EventType::SpeedLimitReached(_) => 0,
        EventType::ZeroSpeedReached(_) => 0,
        EventType::StaticSpeedReached(_) => 0,
        EventType::ReactionToObstacle(_) => 0,
        EventType::EmergencyStop(_) => 0,
        EventType::LightsToRed(_) => 1,
        EventType::LightsToGreen(_) => 1,
        EventType::VehicleExit(_) => 2,
        EventType::PedestrianExit(_) => 2,
        EventType::VehicleArrival => 3,
        EventType::PedestrianArrival => 3,
        EventType::StopSimulation => 4,
    }
}

impl Event {
    pub fn time(&self) -> (t: Time)
        ensures
            t == self.0,
    {
        self.0
    }
}

} // verus!
