use vstd::prelude::*;
use crate::Time;
use crate::time::TimeDelta;
use crate::pedestrian::{Pedestrian, MAX_TIME};
use crate::vehicle::{Car, MAX_SPEED, per_ms, spec_rolled, lemma_roll_zero};

verus! {

/// The vehicles as they stand after every one rolls forward by `dt`.
pub open spec fn spec_advanced_vehicles(vehicles: Seq<Car>, dt: int) -> Seq<Car> {
    vehicles.map_values(|c: Car| spec_rolled(c, dt))
}

/// The mutable container of all live entities plus the current timestamp.
/// Both entity lists are in arrival order: front = earliest arrival.
pub struct SimulatorState {
    pub vehicles: Vec<Car>,
    pub pedestrians: Vec<Pedestrian>,
    pub timestamp: Time,
}

impl SimulatorState {
    /// Every vehicle is well-formed and within the speed cap, every
    /// pedestrian well-formed, and the clock within range.
    pub open spec fn wf(&self) -> bool {
        &&& 0 <= self.timestamp <= MAX_TIME
        &&& forall|i: int| 0 <= i < self.vehicles@.len() ==>
                (#[trigger] self.vehicles@[i]).wf()
        &&& forall|i: int| 0 <= i < self.vehicles@.len() ==>
                (#[trigger] self.vehicles@[i]).speed <= MAX_SPEED
        &&& forall|i: int| 0 <= i < self.pedestrians@.len() ==>
                (#[trigger] self.pedestrians@[i]).wf()
    }

    /// The initial state: empty, at time zero.
    pub fn new() -> (s: SimulatorState)
        ensures
            s.vehicles@.len() == 0,
            s.pedestrians@.len() == 0,
            s.timestamp == 0,
            s.wf(),
    {
        SimulatorState { vehicles: Vec::new(), pedestrians: Vec::new(), timestamp: 0 }
    }

    /// A state with arbitrary content.
    pub fn dummy(vehicles: Vec<Car>, pedestrians: Vec<Pedestrian>, timestamp: Time)
        -> (s: SimulatorState)
        ensures
            s.vehicles == vehicles,
            s.pedestrians == pedestrians,
            s.timestamp == timestamp,
    {
        SimulatorState { vehicles, pedestrians, timestamp }
    }

    pub fn timestamp(&self) -> (t: Time)
        ensures
            t == self.timestamp,
    {
        self.timestamp
    }

    pub fn get_vehicles(&self) -> (r: &Vec<Car>)
        ensures
            r == &self.vehicles,
    {
        &self.vehicles
    }

    pub fn get_pedestrians(&self) -> (r: &Vec<Pedestrian>)
        ensures
            r == &self.pedestrians,
    {
        &self.pedestrians
    }

    pub fn get_vehicle(&self, idx: usize) -> (r: Car)
        requires
            idx < self.vehicles@.len(),
        ensures
            r == self.vehicles@[idx as int],
    {
        self.vehicles[idx]
    }

    pub fn set_vehicle(&mut self, idx: usize, car: Car)
        requires
            idx < old(self).vehicles@.len(),
        ensures
            final(self).vehicles@ == old(self).vehicles@.update(idx as int, car),
            final(self).pedestrians == old(self).pedestrians,
            final(self).timestamp == old(self).timestamp,
    {
        self.vehicles.set(idx, car);
    }

    pub fn get_pedestrian(&self, idx: usize) -> (r: &Pedestrian)
        requires
            idx < self.pedestrians@.len(),
        ensures
            r == &self.pedestrians@[idx as int],
    {
        &self.pedestrians[idx]
    }

    /// Appends a pedestrian; returns its slot.
    pub fn push_pedestrian(&mut self, pedestrian: Pedestrian) -> (idx: usize)
        requires
            old(self).pedestrians@.len() < usize::MAX,
        ensures
            final(self).pedestrians@ == old(self).pedestrians@.push(pedestrian),
            final(self).vehicles == old(self).vehicles,
            final(self).timestamp == old(self).timestamp,
            idx as int == old(self).pedestrians@.len(),
    {
        let idx = self.pedestrians.len();
        self.pedestrians.push(pedestrian);
        idx
    }

    /// Removes and returns the pedestrian at `idx`; later slots shift down.
    pub fn pop_pedestrian(&mut self, idx: usize) -> (p: Pedestrian)
        requires
            idx < old(self).pedestrians@.len(),
        ensures
            p == old(self).pedestrians@[idx as int],
            final(self).pedestrians@ == old(self).pedestrians@.remove(idx as int),
            final(self).vehicles == old(self).vehicles,
            final(self).timestamp == old(self).timestamp,
    {
        self.pedestrians.remove(idx)
    }

    /// Appends a vehicle; returns its slot.
    pub fn push_vehicle(&mut self, vehicle: Car) -> (idx: usize)
        requires
            old(self).vehicles@.len() < usize::MAX,
        ensures
            final(self).vehicles@ == old(self).vehicles@.push(vehicle),
            final(self).pedestrians == old(self).pedestrians,
            final(self).timestamp == old(self).timestamp,
            idx as int == old(self).vehicles@.len(),
    {
        let idx = self.vehicles.len();
        self.vehicles.push(vehicle);
        idx
    }

    /// Removes and returns the vehicle at `idx`; later slots shift down.
    pub fn pop_vehicle(&mut self, idx: usize) -> (v: Car)
        requires
            idx < old(self).vehicles@.len(),
        ensures
            v == old(self).vehicles@[idx as int],
            final(self).vehicles@ == old(self).vehicles@.remove(idx as int),
            final(self).pedestrians == old(self).pedestrians,
            final(self).timestamp == old(self).timestamp,
    {
        self.vehicles.remove(idx)
    }

    pub fn set_timestamp(&mut self, timestamp: Time)
        ensures
            final(self).vehicles == old(self).vehicles,
            final(self).pedestrians == old(self).pedestrians,
            final(self).timestamp == timestamp,
    {
        self.timestamp = timestamp;
    }

    /// Rolls every vehicle forward by `time_delta` and advances the clock
    /// with it.  Pedestrians are positionless in continuous time, so only
    /// their activity windows matter; they do not change.
    pub fn update(&mut self, time_delta: TimeDelta)
        requires
            old(self).wf(),
            0 <= time_delta.0,
            old(self).timestamp + time_delta.0 <= MAX_TIME,
            forall|i: int| 0 <= i < old(self).vehicles@.len()
                && (#[trigger] old(self).vehicles@[i]).acceleration > 0 ==>
                    old(self).vehicles@[i].speed
                        + per_ms(old(self).vehicles@[i].acceleration as int) * time_delta.0
                        <= MAX_SPEED,
            forall|i: int| 0 <= i < old(self).vehicles@.len() ==>
                (#[trigger] old(self).vehicles@[i]).position + 14 * time_delta.0 + 1
                    <= crate::obstacle::MAX_COORD,
        ensures
            final(self).vehicles@ == spec_advanced_vehicles(
                old(self).vehicles@, time_delta.0 as int),
            final(self).pedestrians == old(self).pedestrians,
            final(self).timestamp == old(self).timestamp + time_delta.0,
            final(self).wf(),
    {
        let n = self.vehicles.len();
        let mut i: usize = 0;
        while i < n
            invariant
                n == self.vehicles@.len(),
                n == old(self).vehicles@.len(),
                i <= n,
                0 <= time_delta.0,
                self.timestamp == old(self).timestamp,
                self.timestamp + time_delta.0 <= MAX_TIME,
                self.pedestrians == old(self).pedestrians,
                old(self).wf(),
                forall|j: int| 0 <= j < old(self).vehicles@.len()
                    && (#[trigger] old(self).vehicles@[j]).acceleration > 0 ==>
                        old(self).vehicles@[j].speed
                            + per_ms(old(self).vehicles@[j].acceleration as int)
                                * time_delta.0
                            <= MAX_SPEED,
                forall|j: int| 0 <= j < old(self).vehicles@.len() ==>
                    (#[trigger] old(self).vehicles@[j]).position + 14 * time_delta.0 + 1
                        <= crate::obstacle::MAX_COORD,
                forall|j: int| i <= j < n ==>
                    #[trigger] self.vehicles@[j] == old(self).vehicles@[j],
                forall|j: int| 0 <= j < i ==>
                    #[trigger] self.vehicles@[j]
                        == spec_rolled(old(self).vehicles@[j], time_delta.0 as int),
                forall|j: int| 0 <= j < i ==> (#[trigger] self.vehicles@[j]).wf(),
                forall|j: int| 0 <= j < i ==>
                    (#[trigger] self.vehicles@[j]).speed <= MAX_SPEED,
            decreases n - i,
        {
            let mut car = self.vehicles[i];
            proof {
                assert(car == old(self).vehicles@[i as int]);
                assert(old(self).vehicles@[i as int].wf());
                assert(old(self).vehicles@[i as int].speed <= MAX_SPEED);
            }
            car.roll_forward_by(time_delta);
            self.vehicles.set(i, car);
            proof {
                assert(self.vehicles@[i as int] == car);
                assert(car.wf());
            }
            i = i + 1;
        }
        self.timestamp = self.timestamp + time_delta.0;
        proof {
            assert(self.vehicles@ =~= spec_advanced_vehicles(
                old(self).vehicles@, time_delta.0 as int));
        }
    }
}

/// Every vehicle of a well-formed world state is within the speed limits:
/// never backward, never above the cap.
pub proof fn lemma_speed_within_limits(state: SimulatorState, i: int)
    requires
        state.wf(),
        0 <= i < state.vehicles@.len(),
    ensures
        0 <= state.vehicles@[i].speed <= MAX_SPEED,
{
}

/// Advancing the vehicles by `dt` and then by zero yields the same
/// vehicles as advancing by `dt` alone; the clock likewise.
pub proof fn lemma_advance_then_zero(vehicles: Seq<Car>, dt: int)
    requires
        forall|i: int| 0 <= i < vehicles.len() ==> (#[trigger] vehicles[i]).wf(),
        forall|i: int| 0 <= i < vehicles.len() ==> (#[trigger] vehicles[i]).speed >= 0,
        dt >= 0,
        forall|i: int| 0 <= i < vehicles.len()
            && (#[trigger] vehicles[i]).acceleration > 0 ==>
                vehicles[i].speed + per_ms(vehicles[i].acceleration as int) * dt
                    <= MAX_SPEED,
        forall|i: int| 0 <= i < vehicles.len() ==>
            (#[trigger] vehicles[i]).speed <= MAX_SPEED,
        dt <= crate::vehicle::MAX_TIME_DELTA,
    ensures
        spec_advanced_vehicles(spec_advanced_vehicles(vehicles, dt), 0)
            =~= spec_advanced_vehicles(vehicles, dt),
{
    let once = spec_advanced_vehicles(vehicles, dt);
    assert forall|i: int| 0 <= i < once.len() implies
        #[trigger] spec_advanced_vehicles(once, 0)[i] == once[i] by {
        crate::vehicle::lemma_displacement_bounds(
            vehicles[i].speed as int, vehicles[i].acceleration as int, dt);
        assert(once[i].speed >= 0);
        lemma_roll_zero(once[i]);
    }
}

} // verus!
