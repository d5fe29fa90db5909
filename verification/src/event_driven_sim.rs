use vstd::prelude::*;
use rand::rngs::StdRng;
use std::rc::Rc;
use crate::{ID, Time};
use crate::road::{Road, Direction, MAX_ROAD_LENGTH};
use crate::pedestrian::{Pedestrian, Person, MAX_TIME};
use crate::vehicle::{Car, Action, MAX_SPEED, ACCELERATION_VALUE, per_ms};
use crate::obstacle::Obstacle;
use crate::state::SimulatorState;
use crate::events::{Event, EventType};
use crate::simulation::{seed_rng, sample_weighted_pair, sample_uniform_index,
    enforce_min_headway, MIN_VEHICLE_HEADWAY};
use crate::reaction;

verus! {

/// Reaction instants later than this (in milliseconds before now) are
/// still scheduled; anything earlier falls back to an emergency stop.
pub const THRESHOLD_REACT_MS: Time = -1;

/// A vehicle switches to accelerating only when the reaction instant it
/// would then face lies at least this far ahead.
pub const THRESHOLD_ACCELERATE_MS: Time = 1_000;

/// ... and when the obstacle ahead is farther than this, in millimetres.
pub const MIN_DIST_TO_OBS: i64 = 1_000;

/// Hysteresis around zero relative speed, in mm/s, for settling behind a
/// leader.
pub const THRESHOLD_REL_SPEED: i64 = -100;

/// The event-driven kernel: arrival streams, the owned world state, the
/// road, and the generator for arrival choices.
pub struct EventDrivenSim {
    pub seed: u64,
    pub rng: StdRng,
    pub start_time: Time,
    pub end_time: Time,
    pub ped_arrival_times: Vec<Time>,
    pub veh_arrival_times: Vec<Time>,
    pub ped_counter: ID,
    pub veh_counter: ID,
    pub state: SimulatorState,
    pub road: Road,
}

impl EventDrivenSim {
    /// The kernel invariant, checked after every iteration: entities are
    /// well-formed, every speed is within the cap, identifiers grow with
    /// arrival order, pedestrians' windows have not expired unobserved,
    /// and positions stay within the modelled range.
    pub open spec fn wf(&self) -> bool {
        &&& self.state.wf()
        &&& self.road.wf()
        &&& 0 <= self.start_time <= self.state.timestamp <= self.end_time <= MAX_TIME
        &&& forall|i: int| 0 <= i < self.state.pedestrians@.len() ==>
                0 <= (*(#[trigger] self.state.pedestrians@[i]).location).spec_id()
                    < self.road.num_crossings()
        &&& forall|i: int| 0 <= i < self.state.pedestrians@.len() ==>
                self.state.timestamp
                    <= (#[trigger] self.state.pedestrians@[i]).spec_exit_time()
        &&& forall|i: int| 0 <= i < self.state.pedestrians@.len() ==>
                (#[trigger] self.state.pedestrians@[i]).arrival_time
                    <= self.state.timestamp
        &&& forall|i: int| 0 <= i < self.state.pedestrians@.len() ==>
                (#[trigger] self.state.pedestrians@[i]).id < self.ped_counter
        &&& forall|i: int| 0 <= i < self.state.vehicles@.len() ==>
                (#[trigger] self.state.vehicles@[i]).id < self.veh_counter
        &&& forall|i: int, j: int| 0 <= i < j < self.state.vehicles@.len() ==>
                (#[trigger] self.state.vehicles@[i]).id
                    < (#[trigger] self.state.vehicles@[j]).id
        &&& forall|i: int| 0 <= i < self.state.vehicles@.len() ==>
                (#[trigger] self.state.vehicles@[i]).position
                    <= MAX_ROAD_LENGTH + 15 * self.state.timestamp
    }

    /// Builds the kernel around given arrival streams.  The vehicle
    /// stream is pushed apart to the minimum headway so that a vehicle
    /// arriving behind another can always brake in time.
    pub fn new(
        seed: u64,
        start_time: Time,
        end_time: Time,
        ped_arrival_times: Vec<Time>,
        veh_arrival_times: Vec<Time>,
        state: SimulatorState,
        road: Road,
    ) -> (sim: EventDrivenSim)
        requires
            start_time < end_time,
            veh_arrival_times@.len() <= 100_000_000,
            forall|i: int| 0 <= i < veh_arrival_times@.len() ==>
                0 <= #[trigger] veh_arrival_times@[i] <= MAX_TIME,
            forall|i: int, j: int| 0 <= i <= j < veh_arrival_times@.len() ==>
                #[trigger] veh_arrival_times@[i] <= #[trigger] veh_arrival_times@[j],
        ensures
            sim.seed == seed,
            sim.start_time == start_time,
            sim.end_time == end_time,
            sim.ped_arrival_times == ped_arrival_times,
            sim.veh_arrival_times@.len() == veh_arrival_times@.len(),
            forall|i: int| 0 <= i < sim.veh_arrival_times@.len() ==>
                #[trigger] sim.veh_arrival_times@[i] >= veh_arrival_times@[i],
            forall|i: int| 0 < i < sim.veh_arrival_times@.len() ==>
                #[trigger] sim.veh_arrival_times@[i]
                    - sim.veh_arrival_times@[i - 1] >= MIN_VEHICLE_HEADWAY,
            sim.veh_arrival_times@.len() > 0 ==>
                sim.veh_arrival_times@[0] == veh_arrival_times@[0],
            forall|i: int| 0 < i < sim.veh_arrival_times@.len() ==>
                #[trigger] sim.veh_arrival_times@[i] == if veh_arrival_times@[i]
                    >= sim.veh_arrival_times@[i - 1] + MIN_VEHICLE_HEADWAY {
                    veh_arrival_times@[i] as int
                } else {
                    sim.veh_arrival_times@[i - 1] + MIN_VEHICLE_HEADWAY
                },
            sim.ped_counter == 0,
            sim.veh_counter == 0,
            sim.state == state,
            sim.road == road,
    {
        let rng = seed_rng(seed);
        let mut veh_arrival_times = veh_arrival_times;
        enforce_min_headway(&mut veh_arrival_times);
        EventDrivenSim {
            seed,
            rng,
            start_time,
            end_time,
            ped_arrival_times,
            veh_arrival_times,
            ped_counter: 0,
            veh_counter: 0,
            state,
            road,
        }
    }

    pub fn set_ped_arrival_times(&mut self, ped_arrival_times: Vec<Time>)
        ensures
            *final(self) == (EventDrivenSim { ped_arrival_times, ..*old(self) }),
    {
        self.ped_arrival_times = ped_arrival_times;
    }

    pub fn set_veh_arrival_times(&mut self, veh_arrival_times: Vec<Time>)
        ensures
            *final(self) == (EventDrivenSim { veh_arrival_times, ..*old(self) }),
    {
        self.veh_arrival_times = veh_arrival_times;
    }

    pub fn set_state(&mut self, state: SimulatorState)
        ensures
            *final(self) == (EventDrivenSim { state, ..*old(self) }),
    {
        self.state = state;
    }

    pub fn get_state(&self) -> (r: &SimulatorState)
        ensures
            r == &self.state,
    {
        &self.state
    }

    pub fn get_road(&self) -> (r: &Road)
        ensures
            r == &self.road,
    {
        &self.road
    }

    /// Creates a vehicle at the road's origin, at the speed cap, holding
    /// its speed, with the next free identifier.
    pub fn new_vehicle(&mut self)
        requires
            old(self).state.vehicles@.len() < usize::MAX,
            old(self).veh_counter < u64::MAX,
        ensures
            final(self).state.vehicles@ == old(self).state.vehicles@.push(
                Car {
                    id: old(self).veh_counter,
                    length: crate::vehicle::CAR_LENGTH,
                    buffer_zone: crate::vehicle::CAR_BUFFER_ZONE,
                    direction: Direction::Up,
                    position: 0,
                    speed: MAX_SPEED,
                    acceleration: 0,
                }),
            final(self).veh_counter == old(self).veh_counter + 1,
            final(self).state.pedestrians == old(self).state.pedestrians,
            final(self).state.timestamp == old(self).state.timestamp,
            final(self).ped_counter == old(self).ped_counter,
            final(self).ped_arrival_times == old(self).ped_arrival_times,
            final(self).veh_arrival_times == old(self).veh_arrival_times,
            final(self).start_time == old(self).start_time,
            final(self).end_time == old(self).end_time,
            final(self).road == old(self).road,
            final(self).seed == old(self).seed,
    {
        let choice = sample_weighted_pair(1, 0, &mut self.rng);
        let direction = if choice == 0 { Direction::Up } else { Direction::Down };
        let vehicle = Car::new(self.veh_counter, direction, MAX_SPEED, Action::StaticSpeed);
        self.veh_counter = self.veh_counter + 1;
        self.state.push_vehicle(vehicle);
    }

    /// Creates a pedestrian on a crossing chosen uniformly at random,
    /// arriving now, with the next free identifier.
    pub fn new_pedestrian(&mut self)
        requires
            1 <= old(self).road.num_crossings() <= 1_000_000,
            old(self).road.wf(),
            old(self).state.pedestrians@.len() < usize::MAX,
            old(self).ped_counter < u64::MAX,
        ensures
            final(self).state.pedestrians@.len()
                == old(self).state.pedestrians@.len() + 1,
            forall|i: int| 0 <= i < old(self).state.pedestrians@.len() ==>
                #[trigger] final(self).state.pedestrians@[i]
                    == old(self).state.pedestrians@[i],
            ({
                let p = final(self).state.pedestrians@.last();
                &&& p.id == old(self).ped_counter
                &&& p.arrival_time == old(self).state.timestamp
                &&& exists|k: int| 0 <= k < old(self).road.num_crossings()
                        && *p.location == (#[trigger] old(self).road.up_seq()[k]).0
            }),
            final(self).ped_counter == old(self).ped_counter + 1,
            final(self).state.vehicles == old(self).state.vehicles,
            final(self).state.timestamp == old(self).state.timestamp,
            final(self).veh_counter == old(self).veh_counter,
            final(self).ped_arrival_times == old(self).ped_arrival_times,
            final(self).veh_arrival_times == old(self).veh_arrival_times,
            final(self).start_time == old(self).start_time,
            final(self).end_time == old(self).end_time,
            final(self).road == old(self).road,
            final(self).seed == old(self).seed,
    {
        let n = self.road.get_crossings(&Direction::Up).len();
        let k = sample_uniform_index(n, &mut self.rng);
        let (crossing, _position) = self.road.get_crossings(&Direction::Up)[k];
        let id = self.ped_counter;
        self.ped_counter = self.ped_counter + 1;
        let now = self.state.timestamp();
        let pedestrian = Pedestrian::new(id, Rc::new(crossing), now);
        self.state.push_pedestrian(pedestrian);
        proof {
            assert(0 <= (k as int) && (k as int) < old(self).road.num_crossings());
            assert(crossing == (old(self).road.up_seq()[k as int]).0);
            assert(*self.state.pedestrians@.last().location == crossing);
        }
    }

    pub fn remove_vehicle(&mut self, idx: usize)
        requires
            idx < old(self).state.vehicles@.len(),
        ensures
            final(self).state.vehicles@
                == old(self).state.vehicles@.remove(idx as int),
            *final(self) == (EventDrivenSim {
                state: final(self).state, ..*old(self) }),
            final(self).state.pedestrians == old(self).state.pedestrians,
            final(self).state.timestamp == old(self).state.timestamp,
    {
        self.state.pop_vehicle(idx);
    }

    /// Removes the first pedestrian with the given identifier, if any.
    pub fn remove_pedestrian(&mut self, id: ID)
        ensures
            (forall|k: int| 0 <= k < old(self).state.pedestrians@.len() ==>
                (#[trigger] old(self).state.pedestrians@[k]).id != id)
                ==> *final(self) == *old(self),
            (exists|k: int| 0 <= k < old(self).state.pedestrians@.len()
                && (#[trigger] old(self).state.pedestrians@[k]).id == id)
                ==> exists|k: int| {
                    &&& 0 <= k < old(self).state.pedestrians@.len()
                    &&& (#[trigger] old(self).state.pedestrians@[k]).id == id
                    &&& forall|j: int| 0 <= j < k ==>
                            (#[trigger] old(self).state.pedestrians@[j]).id != id
                    &&& final(self).state.pedestrians@
                            == old(self).state.pedestrians@.remove(k)
                },
            final(self).state.vehicles == old(self).state.vehicles,
            final(self).state.timestamp == old(self).state.timestamp,
            *final(self) == (EventDrivenSim {
                state: final(self).state, ..*old(self) }),
    {
        let n = self.state.get_pedestrians().len();
        let mut idx: usize = 0;
        while idx < n
            invariant
                n == self.state.pedestrians@.len(),
                idx <= n,
                *self == *old(self),
                forall|j: int| 0 <= j < idx ==>
                    (#[trigger] self.state.pedestrians@[j]).id != id,
            ensures
                *self == *old(self),
                idx <= n,
                n == self.state.pedestrians@.len(),
                forall|j: int| 0 <= j < idx ==>
                    (#[trigger] self.state.pedestrians@[j]).id != id,
                idx < n ==> self.state.pedestrians@[idx as int].id == id,
            decreases n - idx,
        {
            if self.state.get_pedestrian(idx).get_id() == id {
                break;
            }
            idx = idx + 1;
        }
        if idx < n {
            self.state.pop_pedestrian(idx);
        }
    }

    /// The reaction instant against an obstacle; see
    /// `reaction::time_to_obstacle_event`.
    pub fn time_to_obstacle_event(
        &self, vehicle: &Car, obstacle: &Obstacle, veh_acc: bool, obs_dec: bool)
        -> (r: Option<i64>)
        requires
            vehicle.wf(),
            obstacle.wf(),
            reaction::spec_obstacle_modes(*obstacle),
            vehicle.position <= obstacle.position,
        ensures
            match r {
                Some(t) => reaction::spec_reaction_time_ms(
                        *vehicle, *obstacle, veh_acc, obs_dec) == Some(t as int)
                    && -reaction::MAX_EVENT_OFFSET <= t <= reaction::MAX_EVENT_OFFSET,
                None => reaction::spec_reaction_time_ms(
                    *vehicle, *obstacle, veh_acc, obs_dec) is None,
            },
    {
        reaction::time_to_obstacle_event(vehicle, obstacle, veh_acc, obs_dec)
    }

    /// The exit instant against the synthetic end-of-road obstacle; see
    /// `reaction::time_to_exit_event`.
    pub fn time_to_exit_event(&self, vehicle: &Car, obstacle: &Obstacle)
        -> (r: Option<i64>)
        requires
            vehicle.wf(),
            obstacle.wf(),
            reaction::spec_obstacle_modes(*obstacle),
            vehicle.position <= obstacle.position,
            vehicle.speed >= obstacle.speed,
        ensures
            match r {
                Some(t) => reaction::spec_exit_time_ms(*vehicle, *obstacle)
                        == Some(t as int)
                    && 0 <= t <= reaction::MAX_EVENT_OFFSET,
                None => reaction::spec_exit_time_ms(*vehicle, *obstacle) is None,
            },
    {
        reaction::time_to_exit_event(vehicle, obstacle)
    }

    /// The instant the relative speed to a slower-decaying obstacle
    /// reaches `aim`; see `reaction::time_to_rel_speed_aim`.
    pub fn time_to_rel_speed_aim(&self, vehicle: &Car, obstacle: &Obstacle, aim: i64)
        -> (r: i64)
        requires
            vehicle.wf(),
            obstacle.wf(),
            reaction::spec_obstacle_modes(*obstacle),
            vehicle.speed >= obstacle.speed,
            vehicle.acceleration < obstacle.acceleration,
            -1000 <= aim <= 0,
        ensures
            r == reaction::spec_rel_speed_aim_ms(*vehicle, *obstacle, aim as int),
            0 <= r <= reaction::MAX_EVENT_OFFSET,
    {
        reaction::time_to_rel_speed_aim(vehicle, obstacle, aim)
    }

    /// What must hold of a scheduled event for the kernel to apply it:
    /// slots in range, exits at their window's end, arrivals taken from
    /// the stream's next unconsumed entry and strictly in the future, the
    /// stop at the configured end time.
    pub open spec fn event_ok(&self, e: Event) -> bool {
        match e.1 {
            EventType::VehicleAccelerate(i) => (i as int) < self.state.vehicles@.len(),
            EventType::SpeedLimitReached(i) => (i as int) < self.state.vehicles@.len(),
            EventType::ZeroSpeedReached(i) => (i as int) < self.state.vehicles@.len(),
            EventType::StaticSpeedReached(i) => (i as int) < self.state.vehicles@.len(),
            EventType::ReactionToObstacle(i) => (i as int) < self.state.vehicles@.len(),
            EventType::EmergencyStop(i) => (i as int) < self.state.vehicles@.len(),
            EventType::VehicleExit(i) => (i as int) < self.state.vehicles@.len(),
            EventType::LightsToRed(i) => (i as int) < self.road.num_crossings(),
            EventType::LightsToGreen(i) => (i as int) < self.road.num_crossings(),
            EventType::PedestrianExit(id) => exists|k: int|
                0 <= k < self.state.pedestrians@.len()
                    && (#[trigger] self.state.pedestrians@[k]).id == id
                    && e.0 == self.state.pedestrians@[k].spec_exit_time(),
            EventType::VehicleArrival =>
                (self.veh_counter as int) < self.veh_arrival_times@.len()
                    && e.0 == self.veh_arrival_times@[self.veh_counter as int]
                    && e.0 > self.state.timestamp,
            EventType::PedestrianArrival =>
                (self.ped_counter as int) < self.ped_arrival_times@.len()
                    && e.0 == self.ped_arrival_times@[self.ped_counter as int]
                    && e.0 > self.state.timestamp,
            EventType::StopSimulation => e.0 == self.end_time,
        }
    }

    /// The candidates that do not depend on any vehicle: the stop at the
    /// end time, the next unconsumed arrival of each stream where it is
    /// strictly in the future, and every live pedestrian's exit at the
    /// end of its window.
    pub open spec fn spec_base_candidates(&self) -> Seq<Event> {
        seq![Event(self.end_time, EventType::StopSimulation)]
            + (if (self.ped_counter as int) < self.ped_arrival_times@.len()
                    && self.ped_arrival_times@[self.ped_counter as int]
                        > self.state.timestamp {
                seq![Event(
                    self.ped_arrival_times@[self.ped_counter as int],
                    EventType::PedestrianArrival,
                )]
            } else {
                Seq::<Event>::empty()
            })
            + (if (self.veh_counter as int) < self.veh_arrival_times@.len()
                    && self.veh_arrival_times@[self.veh_counter as int]
                        > self.state.timestamp {
                seq![Event(
                    self.veh_arrival_times@[self.veh_counter as int],
                    EventType::VehicleArrival,
                )]
            } else {
                Seq::<Event>::empty()
            })
            + Seq::new(self.state.pedestrians@.len(), |k: int| Event(
                (self.state.pedestrians@[k].arrival_time
                    + (*self.state.pedestrians@[k].location).spec_stop_ms()) as i64,
                EventType::PedestrianExit(self.state.pedestrians@[k].id),
            ))
    }

    /// The speed-limit or zero-speed instant of vehicle `i`, from its
    /// current acceleration.
    #[verifier::opaque]
    pub open spec fn spec_motion_candidates(&self, i: int) -> Seq<Event> {
        let v = self.state.vehicles@[i];
        if v.acceleration > 0 {
            seq![Event(
                (self.state.timestamp + (MAX_SPEED - v.speed as int) / 3) as i64,
                EventType::SpeedLimitReached(i as usize),
            )]
        } else if v.acceleration < 0 && v.speed > 0 {
            seq![Event(
                (self.state.timestamp + (v.speed as int) / 4) as i64,
                EventType::ZeroSpeedReached(i as usize),
            )]
        } else {
            Seq::empty()
        }
    }

    /// The synthetic stationary obstacle at the far end of the road.
    pub open spec fn spec_exit_obstacle(&self) -> Obstacle {
        Obstacle { position: self.road.length, speed: 0, acceleration: 0, length: 0 }
    }

    /// Vehicle `i`'s exit candidate: the root of the displacement
    /// equation against the road end, or an immediate exit where the
    /// vehicle already stands past it.
    #[verifier::opaque]
    pub open spec fn spec_exit_candidates(&self, i: int) -> Seq<Event> {
        let v = self.state.vehicles@[i];
        if v.position <= self.road.length {
            match reaction::spec_exit_time_ms(v, self.spec_exit_obstacle()) {
                Some(te) => seq![Event(
                    (self.state.timestamp + te) as i64,
                    EventType::VehicleExit(i as usize),
                )],
                None => Seq::empty(),
            }
        } else {
            seq![Event(self.state.timestamp, EventType::VehicleExit(i as usize))]
        }
    }

    /// The first pedestrian from slot `k` on that blocks vehicle `v`.
    pub open spec fn spec_first_blocking_ped_from(&self, v: Car, k: int) -> Option<int>
        decreases self.state.pedestrians@.len() - k,
    {
        if k < 0 || k >= self.state.pedestrians@.len() {
            None
        } else if v.spec_ped_blocks(
            self.road, self.state.pedestrians@[k], self.state.timestamp as int) {
            Some(k)
        } else {
            self.spec_first_blocking_ped_from(v, k + 1)
        }
    }

    /// The pedestrian at slot `p` seen as an obstacle by vehicle `v`.
    pub open spec fn spec_ped_obstacle(&self, v: Car, p: int) -> Obstacle {
        Obstacle {
            position: self.road.spec_crossing_position(
                (*self.state.pedestrians@[p].location).spec_id() as int,
                v.direction,
            ) as i64,
            speed: 0,
            acceleration: 0,
            length: 0,
        }
    }

    /// `j` is the nearest vehicle ahead of vehicle `i`: least position at
    /// or beyond `i`'s own, earliest slot on ties.
    pub open spec fn spec_is_nearest_ahead(&self, i: int, j: int) -> bool {
        let v = self.state.vehicles@[i];
        &&& v.spec_is_ahead(self.state.vehicles@, j)
        &&& forall|k: int| v.spec_is_ahead(self.state.vehicles@, k) ==>
                self.state.vehicles@[j].position
                    <= (#[trigger] self.state.vehicles@[k]).position
        &&& forall|k: int| v.spec_is_ahead(self.state.vehicles@, k)
                && (#[trigger] self.state.vehicles@[k]).position
                    == self.state.vehicles@[j].position ==> j <= k
    }

    /// The slot of the nearest vehicle ahead of vehicle `i`, if any.
    pub open spec fn spec_next_vehicle(&self, i: int) -> Option<int> {
        if exists|j: int| self.spec_is_nearest_ahead(i, j) {
            Some(choose|j: int| self.spec_is_nearest_ahead(i, j))
        } else {
            None
        }
    }

    /// Vehicle `i`'s reaction (or emergency stop) against its first
    /// blocking pedestrian, computed with the obstacle stationary.
    #[verifier::opaque]
    pub open spec fn spec_ped_react_candidates(&self, i: int) -> Seq<Event> {
        let v = self.state.vehicles@[i];
        match self.spec_first_blocking_ped_from(v, 0) {
            None => Seq::empty(),
            Some(p) => {
                let obs = self.spec_ped_obstacle(v, p);
                match reaction::spec_reaction_time_ms(v, obs, false, false) {
                    Some(t) => if t >= THRESHOLD_REACT_MS {
                        seq![Event(
                            (self.state.timestamp + if t > 0 { t } else { 0 }) as i64,
                            EventType::ReactionToObstacle(i as usize),
                        )]
                    } else if v.speed != 0 {
                        seq![Event(
                            self.state.timestamp, EventType::EmergencyStop(i as usize))]
                    } else {
                        Seq::empty()
                    },
                    None => Seq::empty(),
                }
            },
        }
    }

    /// The hypothetical reaction instant vehicle `i` would face against
    /// its blocking pedestrian after switching to accelerating, recorded
    /// only where no present reaction is needed.
    #[verifier::opaque]
    pub open spec fn spec_ped_hyp_react(&self, i: int) -> Option<int> {
        let v = self.state.vehicles@[i];
        match self.spec_first_blocking_ped_from(v, 0) {
            None => None,
            Some(p) => {
                let obs = self.spec_ped_obstacle(v, p);
                match reaction::spec_reaction_time_ms(v, obs, false, false) {
                    Some(_) => None,
                    None => reaction::spec_reaction_time_ms(v, obs, true, false),
                }
            },
        }
    }

    /// The gap to the blocking pedestrian, recorded with the hypothetical
    /// reaction above.
    #[verifier::opaque]
    pub open spec fn spec_min_dist(&self, i: int) -> Option<int> {
        let v = self.state.vehicles@[i];
        match self.spec_first_blocking_ped_from(v, 0) {
            None => None,
            Some(p) => {
                let obs = self.spec_ped_obstacle(v, p);
                match reaction::spec_reaction_time_ms(v, obs, false, false) {
                    Some(_) => None,
                    None => match reaction::spec_reaction_time_ms(v, obs, true, false) {
                        Some(_) => Some(obs.position - v.position),
                        None => None,
                    },
                }
            },
        }
    }

    /// Vehicle `i`'s reaction (or emergency stop) against its leader,
    /// computed with the leader braking from now on (the worst case).
    #[verifier::opaque]
    pub open spec fn spec_veh_react_candidates(&self, i: int) -> Seq<Event> {
        let v = self.state.vehicles@[i];
        match self.spec_next_vehicle(i) {
            None => Seq::empty(),
            Some(l) => {
                let lead = self.state.vehicles@[l];
                let obs = Obstacle {
                    position: lead.position,
                    speed: lead.speed,
                    acceleration: lead.acceleration,
                    length: 0,
                };
                match reaction::spec_reaction_time_ms(v, obs, false, true) {
                    Some(t) => if t >= THRESHOLD_REACT_MS {
                        seq![Event(
                            (self.state.timestamp + if t > 0 { t } else { 0 }) as i64,
                            EventType::ReactionToObstacle(i as usize),
                        )]
                    } else if v.speed != 0 {
                        seq![Event(
                            self.state.timestamp, EventType::EmergencyStop(i as usize))]
                    } else {
                        Seq::empty()
                    },
                    None => Seq::empty(),
                }
            },
        }
    }

    /// The leader-side hypothetical reaction instant, recorded only where
    /// no present reaction against the leader is needed.
    #[verifier::opaque]
    pub open spec fn spec_veh_hyp_react(&self, i: int) -> Option<int> {
        let v = self.state.vehicles@[i];
        match self.spec_next_vehicle(i) {
            None => None,
            Some(l) => {
                let lead = self.state.vehicles@[l];
                let obs = Obstacle {
                    position: lead.position,
                    speed: lead.speed,
                    acceleration: lead.acceleration,
                    length: 0,
                };
                match reaction::spec_reaction_time_ms(v, obs, false, true) {
                    Some(_) => None,
                    None => reaction::spec_reaction_time_ms(v, obs, true, true),
                }
            },
        }
    }

    /// The least hypothetical reaction instant over both obstacles, in
    /// the order the branches record them.
    pub open spec fn spec_min_react(&self, i: int) -> Option<int> {
        match (self.spec_ped_hyp_react(i), self.spec_veh_hyp_react(i)) {
            (None, None) => None,
            (Some(a), None) => Some(a),
            (None, Some(b)) => Some(b),
            (Some(a), Some(b)) => Some(if b < a { b } else { a }),
        }
    }

    /// The settle-behind-leader candidate: a decelerating vehicle behind
    /// a non-braking leader holds its speed at the instant the relative
    /// speed crosses the hysteresis threshold from above.
    #[verifier::opaque]
    pub open spec fn spec_static_candidates(&self, i: int) -> Seq<Event> {
        let v = self.state.vehicles@[i];
        match self.spec_next_vehicle(i) {
            None => Seq::empty(),
            Some(l) => {
                let lead = self.state.vehicles@[l];
                let obs = Obstacle {
                    position: lead.position,
                    speed: lead.speed,
                    acceleration: lead.acceleration,
                    length: 0,
                };
                if v.acceleration < 0 && !(lead.acceleration < 0)
                    && self.spec_min_react(i) is None {
                    let aim: int = if lead.speed < -THRESHOLD_REL_SPEED {
                        0
                    } else {
                        THRESHOLD_REL_SPEED as int
                    };
                    if v.speed >= lead.speed {
                        seq![Event(
                            (self.state.timestamp
                                + reaction::spec_rel_speed_aim_ms(v, obs, aim)) as i64,
                            EventType::StaticSpeedReached(i as usize),
                        )]
                    } else {
                        seq![Event(
                            self.state.timestamp,
                            EventType::StaticSpeedReached(i as usize),
                        )]
                    }
                } else {
                    Seq::empty()
                }
            },
        }
    }

    /// The accelerate decision: below the cap and not already
    /// accelerating, a vehicle switches now when nothing lies ahead, or
    /// when the hypothetical reaction lies far enough ahead and the
    /// recorded gap is wide enough.
    #[verifier::opaque]
    pub open spec fn spec_accel_candidates(&self, i: int) -> Seq<Event> {
        let v = self.state.vehicles@[i];
        let no_ahead = self.spec_first_blocking_ped_from(v, 0) is None
            && self.spec_next_vehicle(i) is None;
        if v.speed < MAX_SPEED && v.acceleration != ACCELERATION_VALUE {
            match self.spec_min_react(i) {
                None => if no_ahead {
                    seq![Event(
                        self.state.timestamp, EventType::VehicleAccelerate(i as usize))]
                } else {
                    Seq::empty()
                },
                Some(t) => {
                    let dist_ok = match self.spec_min_dist(i) {
                        None => true,
                        Some(d) => d > MIN_DIST_TO_OBS,
                    };
                    if dist_ok && t > THRESHOLD_ACCELERATE_MS {
                        seq![Event(
                            self.state.timestamp,
                            EventType::VehicleAccelerate(i as usize),
                        )]
                    } else {
                        Seq::empty()
                    }
                },
            }
        } else {
            Seq::empty()
        }
    }

    /// All candidates of vehicle `i`, in gathering order.
    pub open spec fn spec_vehicle_candidates(&self, i: int) -> Seq<Event> {
        self.spec_motion_candidates(i) + self.spec_exit_candidates(i)
            + self.spec_ped_react_candidates(i) + self.spec_veh_react_candidates(i)
            + self.spec_static_candidates(i) + self.spec_accel_candidates(i)
    }

    /// The candidates of the first `i` vehicles.
    pub open spec fn spec_vehicle_candidates_upto(&self, i: int) -> Seq<Event>
        decreases i,
    {
        if i <= 0 {
            Seq::empty()
        } else {
            self.spec_vehicle_candidates_upto(i - 1) + self.spec_vehicle_candidates(i - 1)
        }
    }

    /// The whole candidate list of one kernel iteration (§4.5 step 1).
    pub open spec fn spec_candidates(&self) -> Seq<Event> {
        self.spec_base_candidates()
            + self.spec_vehicle_candidates_upto(self.state.vehicles@.len() as int)
    }

    /// The events the kernel keeps: every candidate at the minimum
    /// candidate time, in gathering order.
    pub open spec fn spec_selected_events(&self) -> Seq<Event> {
        spec_events_at(self.spec_candidates(), spec_min_event_time(self.spec_candidates()))
    }

    /// A found first-blocking slot is what the recursive search yields.
    pub proof fn lemma_first_blocking_from(&self, v: Car, k: int, p: int)
        requires
            0 <= k <= p < self.state.pedestrians@.len(),
            v.spec_ped_blocks(self.road, self.state.pedestrians@[p],
                self.state.timestamp as int),
            forall|j: int| k <= j < p ==> !v.spec_ped_blocks(
                self.road, #[trigger] self.state.pedestrians@[j],
                self.state.timestamp as int),
        ensures
            self.spec_first_blocking_ped_from(v, k) == Some(p),
        decreases p - k,
    {
        if k < p {
            self.lemma_first_blocking_from(v, k + 1, p);
        }
    }

    pub proof fn lemma_first_blocking_some(&self, v: Car, p: int)
        requires
            0 <= p < self.state.pedestrians@.len(),
            v.spec_ped_blocks(self.road, self.state.pedestrians@[p],
                self.state.timestamp as int),
            forall|j: int| 0 <= j < p ==> !v.spec_ped_blocks(
                self.road, #[trigger] self.state.pedestrians@[j],
                self.state.timestamp as int),
        ensures
            self.spec_first_blocking_ped_from(v, 0) == Some(p),
    {
        self.lemma_first_blocking_from(v, 0, p);
    }

    /// With no blocking pedestrian at all, the search yields nothing.
    pub proof fn lemma_first_blocking_none_from(&self, v: Car, k: int)
        requires
            k >= 0,
            forall|j: int| 0 <= j < self.state.pedestrians@.len() ==>
                !v.spec_ped_blocks(self.road, #[trigger] self.state.pedestrians@[j],
                    self.state.timestamp as int),
        ensures
            self.spec_first_blocking_ped_from(v, k) is None,
        decreases self.state.pedestrians@.len() - k,
    {
        if k < self.state.pedestrians@.len() {
            self.lemma_first_blocking_none_from(v, k + 1);
        }
    }

    pub proof fn lemma_first_blocking_none(&self, v: Car)
        requires
            forall|j: int| 0 <= j < self.state.pedestrians@.len() ==>
                !v.spec_ped_blocks(self.road, #[trigger] self.state.pedestrians@[j],
                    self.state.timestamp as int),
        ensures
            self.spec_first_blocking_ped_from(v, 0) is None,
    {
        self.lemma_first_blocking_none_from(v, 0);
    }

    /// Two nearest-ahead slots agree.
    pub proof fn lemma_nearest_ahead_unique(&self, i: int, j1: int, j2: int)
        requires
            self.spec_is_nearest_ahead(i, j1),
            self.spec_is_nearest_ahead(i, j2),
        ensures
            j1 == j2,
    {
        assert(self.state.vehicles@[j1].position <= self.state.vehicles@[j2].position);
        assert(self.state.vehicles@[j2].position <= self.state.vehicles@[j1].position);
    }

    pub proof fn lemma_next_vehicle_some(&self, i: int, j: int)
        requires
            self.spec_is_nearest_ahead(i, j),
        ensures
            self.spec_next_vehicle(i) == Some(j),
    {
        let j2 = choose|j2: int| self.spec_is_nearest_ahead(i, j2);
        self.lemma_nearest_ahead_unique(i, j2, j);
    }

    pub proof fn lemma_next_vehicle_none(&self, i: int)
        requires
            forall|k: int| !self.state.vehicles@[i].spec_is_ahead(
                self.state.vehicles@, k),
        ensures
            self.spec_next_vehicle(i) is None,
    {
        if exists|j: int| self.spec_is_nearest_ahead(i, j) {
            let j = choose|j: int| self.spec_is_nearest_ahead(i, j);
            assert(!self.state.vehicles@[i].spec_is_ahead(self.state.vehicles@, j));
        }
    }

    /// Pushes vehicle `i`'s speed-limit/zero-speed and exit candidates.
    #[verifier::spinoff_prover]
    #[verifier::rlimit(100)]
    fn push_motion_and_exit(&self, i: usize, exit_obs: &Obstacle,
        events: &mut Vec<Event>)
        requires
            self.wf(),
            (i as int) < self.state.vehicles@.len(),
            *exit_obs == self.spec_exit_obstacle(),
        ensures
            final(events)@ == old(events)@ + self.spec_motion_candidates(i as int)
                + self.spec_exit_candidates(i as int),
            forall|j: int| old(events)@.len() <= j < final(events)@.len() ==>
                self.event_ok(#[trigger] final(events)@[j]),
            forall|j: int| old(events)@.len() <= j < final(events)@.len() ==>
                (#[trigger] final(events)@[j]).0 >= self.state.timestamp,
            self.state.vehicles@[i as int].acceleration > 0 ==>
                exists|j: int| old(events)@.len() <= j < final(events)@.len()
                    && (#[trigger] final(events)@[j]).0
                        == self.state.timestamp + (MAX_SPEED
                            - self.state.vehicles@[i as int].speed as int) / 3,
    {
        proof {
            reveal(EventDrivenSim::spec_motion_candidates);
            reveal(EventDrivenSim::spec_exit_candidates);
        }
        let curr = self.state.timestamp();
        let ghost events0 = events@;
        let ghost mut expect = events@;
        let v = self.state.get_vehicle(i);
        proof {
            assert(self.state.vehicles@[i as int].wf());
            assert(self.state.vehicles@[i as int].speed <= MAX_SPEED);
        }
        if v.get_acceleration() > 0 {
            let dt = crate::numeric::div_floor_i128(
                (MAX_SPEED - v.speed) as i128, 3) as i64;
            proof {
                crate::numeric::lemma_div_bounds(
                    MAX_SPEED - v.speed as int, 3);
                vstd::arithmetic::div_mod::lemma_fundamental_div_mod(
                    MAX_SPEED - v.speed as int, 3);
            }
            events.push(Event(curr + dt, EventType::SpeedLimitReached(i)));
        } else if v.get_acceleration() < 0 && v.get_speed() > 0 {
            let dt = crate::numeric::div_floor_i128(v.speed as i128, 4) as i64;
            proof {
                crate::numeric::lemma_div_bounds(v.speed as int, 4);
            }
            events.push(Event(curr + dt, EventType::ZeroSpeedReached(i)));
        }
        proof {
            expect = expect + self.spec_motion_candidates(i as int);
            assert(events@ =~= expect);
            assert(forall|j: int| events0.len() <= j < events@.len() ==>
                self.event_ok(#[trigger] events@[j]));
            assert(forall|j: int| events0.len() <= j < events@.len() ==>
                (#[trigger] events@[j]).0 >= curr);
        }
        if v.get_veh_position() <= exit_obs.position {
            if let Some(te) = reaction::time_to_exit_event(&v, &exit_obs) {
                events.push(Event(curr + te, EventType::VehicleExit(i)));
            }
        } else {
            events.push(Event(curr, EventType::VehicleExit(i)));
        }
        proof {
            expect = expect + self.spec_exit_candidates(i as int);
            assert(events@ =~= expect);
            assert(forall|j: int| events0.len() <= j < events@.len() ==>
                self.event_ok(#[trigger] events@[j]));
            assert(forall|j: int| events0.len() <= j < events@.len() ==>
                (#[trigger] events@[j]).0 >= curr);
            if self.state.vehicles@[i as int].acceleration > 0 {
                assert(events@[events0.len() as int].0 == curr + (MAX_SPEED
                    - self.state.vehicles@[i as int].speed as int) / 3);
            }
        }
    }

    /// Pushes vehicle `i`'s reaction (or emergency stop) against its
    /// first blocking pedestrian; returns the hypothetical reaction and
    /// recorded gap, and whether no pedestrian blocks.
    #[verifier::spinoff_prover]
    #[verifier::rlimit(100)]
    fn push_ped_candidates(&self, i: usize, events: &mut Vec<Event>)
        -> (r: (Option<i64>, Option<i64>, bool))
        requires
            self.wf(),
            (i as int) < self.state.vehicles@.len(),
        ensures
            final(events)@ == old(events)@
                + self.spec_ped_react_candidates(i as int),
            opt_time_eq(r.0, self.spec_ped_hyp_react(i as int)),
            opt_time_eq(r.1, self.spec_min_dist(i as int)),
            r.2 == (self.spec_first_blocking_ped_from(
                self.state.vehicles@[i as int], 0) is None),
            forall|j: int| old(events)@.len() <= j < final(events)@.len() ==>
                self.event_ok(#[trigger] final(events)@[j]),
            forall|j: int| old(events)@.len() <= j < final(events)@.len() ==>
                (#[trigger] final(events)@[j]).0 >= self.state.timestamp,
    {
        proof {
            reveal(EventDrivenSim::spec_ped_react_candidates);
            reveal(EventDrivenSim::spec_ped_hyp_react);
            reveal(EventDrivenSim::spec_min_dist);
        }
        let curr = self.state.timestamp();
        let ghost events0 = events@;
        let v = self.state.get_vehicle(i);
        proof {
            assert(self.state.vehicles@[i as int].wf());
        }
        let mut min_react_after_switch: Option<i64> = None;
        let mut min_dist_to_obs: Option<i64> = None;
        let ped_found = v.next_pedestrian(
            &self.road, self.state.get_pedestrians(), curr);
        proof {
            match ped_found {
                Some(p) => { self.lemma_first_blocking_some(v, p as int); },
                None => { self.lemma_first_blocking_none(v); },
            }
        }
        if let Some(pidx) = ped_found {
            let obs = Obstacle::from_pedestrian(
                self.state.get_pedestrian(pidx), &self.road, v.get_direction());
            proof {
                assert(obs == self.spec_ped_obstacle(v, pidx as int));
            }
            match reaction::time_to_obstacle_event(&v, &obs, false, false) {
                Some(t) => {
                    if t >= THRESHOLD_REACT_MS {
                        let off = if t > 0 { t } else { 0 };
                        events.push(Event(
                            curr + off, EventType::ReactionToObstacle(i)));
                    } else if v.get_speed() != 0 {
                        events.push(Event(curr, EventType::EmergencyStop(i)));
                    }
                    proof {
                        assert(events@ =~= events0
                            + self.spec_ped_react_candidates(i as int));
                    }
                },
                None => {
                    if let Some(t2) = reaction::time_to_obstacle_event(
                        &v, &obs, true, false) {
                        min_react_after_switch = Some(t2);
                        min_dist_to_obs = Some(obs.position - v.get_veh_position());
                    }
                    proof {
                        assert(events@ =~= events0
                            + self.spec_ped_react_candidates(i as int));
                    }
                },
            }
        } else {
            proof {
                assert(events@ =~= events0
                    + self.spec_ped_react_candidates(i as int));
            }
        }
        (min_react_after_switch, min_dist_to_obs, ped_found.is_none())
    }

    /// Pushes vehicle `i`'s reaction against its leader (worst case) and
    /// the settle-behind-leader candidate; returns the combined least
    /// hypothetical reaction and whether no leader lies ahead.
    #[verifier::spinoff_prover]
    #[verifier::rlimit(100)]
    fn push_veh_candidates(&self, i: usize, min_react_in: Option<i64>,
        events: &mut Vec<Event>) -> (r: (Option<i64>, bool))
        requires
            self.wf(),
            (i as int) < self.state.vehicles@.len(),
            opt_time_eq(min_react_in, self.spec_ped_hyp_react(i as int)),
        ensures
            final(events)@ == old(events)@
                + self.spec_veh_react_candidates(i as int)
                + self.spec_static_candidates(i as int),
            opt_time_eq(r.0, self.spec_min_react(i as int)),
            r.1 == (self.spec_next_vehicle(i as int) is None),
            forall|j: int| old(events)@.len() <= j < final(events)@.len() ==>
                self.event_ok(#[trigger] final(events)@[j]),
            forall|j: int| old(events)@.len() <= j < final(events)@.len() ==>
                (#[trigger] final(events)@[j]).0 >= self.state.timestamp,
    {
        proof {
            reveal(EventDrivenSim::spec_veh_react_candidates);
            reveal(EventDrivenSim::spec_veh_hyp_react);
            reveal(EventDrivenSim::spec_static_candidates);
        }
        let curr = self.state.timestamp();
        let ghost events0 = events@;
        let ghost mut expect = events@;
        let v = self.state.get_vehicle(i);
        proof {
            assert(self.state.vehicles@[i as int].wf());
        }
        let mut min_react_after_switch = min_react_in;
        let lead_found = v.next_vehicle(self.state.get_vehicles());
        proof {
            match lead_found {
                Some(j) => { self.lemma_next_vehicle_some(i as int, j as int); },
                None => { self.lemma_next_vehicle_none(i as int); },
            }
        }
        if let Some(lead_idx) = lead_found {
            let lead = self.state.get_vehicle(lead_idx);
            proof {
                assert(self.state.vehicles@[lead_idx as int].wf());
            }
            let obs = lead.as_obstacle();
            match reaction::time_to_obstacle_event(&v, &obs, false, true) {
                Some(t) => {
                    if t >= THRESHOLD_REACT_MS {
                        let off = if t > 0 { t } else { 0 };
                        events.push(Event(
                            curr + off, EventType::ReactionToObstacle(i)));
                    } else if v.get_speed() != 0 {
                        events.push(Event(curr, EventType::EmergencyStop(i)));
                    }
                    proof {
                        assert(events@ =~= expect
                            + self.spec_veh_react_candidates(i as int));
                        assert(opt_time_eq(min_react_after_switch,
                            self.spec_min_react(i as int)));
                    }
                },
                None => {
                    if let Some(t2) = reaction::time_to_obstacle_event(
                        &v, &obs, true, true) {
                        min_react_after_switch = Some(
                            match min_react_after_switch {
                                None => t2,
                                Some(m0) => if t2 < m0 { t2 } else { m0 },
                            });
                    }
                    proof {
                        assert(events@ =~= expect
                            + self.spec_veh_react_candidates(i as int));
                        assert(opt_time_eq(min_react_after_switch,
                            self.spec_min_react(i as int)));
                    }
                },
            }
            proof {
                expect = expect + self.spec_veh_react_candidates(i as int);
                assert(events@ =~= expect);
            }
            if v.get_acceleration() < 0 && !(obs.acceleration < 0)
                && min_react_after_switch.is_none() {
                let aim = if obs.speed < -THRESHOLD_REL_SPEED {
                    0
                } else {
                    THRESHOLD_REL_SPEED
                };
                if v.get_speed() >= obs.speed {
                    let t = reaction::time_to_rel_speed_aim(&v, &obs, aim);
                    events.push(Event(curr + t, EventType::StaticSpeedReached(i)));
                } else {
                    events.push(Event(curr, EventType::StaticSpeedReached(i)));
                }
            }
            proof {
                expect = expect + self.spec_static_candidates(i as int);
                assert(events@ =~= expect);
                assert(forall|j: int| events0.len() <= j < events@.len() ==>
                    self.event_ok(#[trigger] events@[j]));
                assert(forall|j: int| events0.len() <= j < events@.len() ==>
                    (#[trigger] events@[j]).0 >= curr);
            }
        } else {
            proof {
                assert(opt_time_eq(min_react_after_switch,
                    self.spec_min_react(i as int)));
                expect = expect + self.spec_veh_react_candidates(i as int)
                    + self.spec_static_candidates(i as int);
                assert(events@ =~= expect);
            }
        }
        (min_react_after_switch, lead_found.is_none())
    }

    /// Pushes vehicle `i`'s accelerate decision.
    #[verifier::spinoff_prover]
    #[verifier::rlimit(100)]
    fn push_accel_candidate(&self, i: usize, min_react: Option<i64>,
        min_dist: Option<i64>, no_ahead: bool, events: &mut Vec<Event>)
        requires
            self.wf(),
            (i as int) < self.state.vehicles@.len(),
            opt_time_eq(min_react, self.spec_min_react(i as int)),
            opt_time_eq(min_dist, self.spec_min_dist(i as int)),
            no_ahead == (self.spec_first_blocking_ped_from(
                    self.state.vehicles@[i as int], 0) is None
                && self.spec_next_vehicle(i as int) is None),
        ensures
            final(events)@ == old(events)@
                + self.spec_accel_candidates(i as int),
            forall|j: int| old(events)@.len() <= j < final(events)@.len() ==>
                self.event_ok(#[trigger] final(events)@[j]),
            forall|j: int| old(events)@.len() <= j < final(events)@.len() ==>
                (#[trigger] final(events)@[j]).0 >= self.state.timestamp,
    {
        proof {
            reveal(EventDrivenSim::spec_accel_candidates);
        }
        let curr = self.state.timestamp();
        let ghost events0 = events@;
        let v = self.state.get_vehicle(i);
        if v.get_speed() < MAX_SPEED && v.get_acceleration() != ACCELERATION_VALUE {
            match min_react {
                None => {
                    if no_ahead {
                        events.push(Event(curr, EventType::VehicleAccelerate(i)));
                    }
                },
                Some(t) => {
                    let dist_ok = match min_dist {
                        None => true,
                        Some(d) => d > MIN_DIST_TO_OBS,
                    };
                    if dist_ok && t > THRESHOLD_ACCELERATE_MS {
                        events.push(Event(curr, EventType::VehicleAccelerate(i)));
                    }
                },
            }
        }
        proof {
            assert(events@ =~= events0 + self.spec_accel_candidates(i as int));
        }
    }

    /// Pushes vehicle `i`'s candidates (SS4.5 step 1) onto `events`.
    #[verifier::spinoff_prover]
    #[verifier::rlimit(100)]
    fn push_vehicle_candidates(&self, i: usize, exit_obs: &Obstacle,
        events: &mut Vec<Event>)
        requires
            self.wf(),
            (i as int) < self.state.vehicles@.len(),
            *exit_obs == self.spec_exit_obstacle(),
        ensures
            final(events)@ == old(events)@
                + self.spec_vehicle_candidates(i as int),
            forall|j: int| old(events)@.len() <= j < final(events)@.len() ==>
                self.event_ok(#[trigger] final(events)@[j]),
            forall|j: int| old(events)@.len() <= j < final(events)@.len() ==>
                (#[trigger] final(events)@[j]).0 >= self.state.timestamp,
            self.state.vehicles@[i as int].acceleration > 0 ==>
                exists|j: int| old(events)@.len() <= j < final(events)@.len()
                    && (#[trigger] final(events)@[j]).0
                        == self.state.timestamp + (MAX_SPEED
                            - self.state.vehicles@[i as int].speed as int) / 3,
    {
        let ghost events0 = events@;
        self.push_motion_and_exit(i, exit_obs, events);
        let ghost after_motion = events@;
        let (min_react_ped, min_dist, no_ped) = self.push_ped_candidates(i, events);
        let (min_react, no_lead) = self.push_veh_candidates(i, min_react_ped, events);
        self.push_accel_candidate(i, min_react, min_dist, no_ped && no_lead, events);
        proof {
            assert(events@ =~= events0 + self.spec_vehicle_candidates(i as int));
            if self.state.vehicles@[i as int].acceleration > 0 {
                let j0 = choose|j: int| events0.len() <= j < after_motion.len()
                    && (#[trigger] after_motion[j]).0
                        == self.state.timestamp + (MAX_SPEED
                            - self.state.vehicles@[i as int].speed as int) / 3;
                assert(events@[j0] == after_motion[j0]);
            }
        }
    }

    /// Gathers every candidate event of the current state and keeps the
    /// earliest ones: the stop, the next unconsumed arrivals, each
    /// pedestrian's exit, and each vehicle's continuous transitions,
    /// exit, reactions and accelerate decision.  All returned events
    /// share the minimum candidate time.
    #[verifier::spinoff_prover]
    #[verifier::rlimit(100)]
    pub fn next_events(&self) -> (events: Vec<Event>)
        requires
            self.wf(),
        ensures
            events@ == self.spec_selected_events(),
            events@.len() >= 1,
            forall|j: int| 0 <= j < events@.len() ==>
                (#[trigger] events@[j]).0 == events@[0].0,
            self.state.timestamp <= events@[0].0 <= self.end_time,
            forall|j: int| 0 <= j < events@.len() ==>
                self.event_ok(#[trigger] events@[j]),
            (exists|j: int| 0 <= j < events@.len()
                && (#[trigger] events@[j]).1 is StopSimulation)
                <==> events@[0].0 == self.end_time,
            forall|i: int| 0 <= i < self.state.vehicles@.len()
                && (#[trigger] self.state.vehicles@[i]).acceleration > 0 ==>
                    3 * (events@[0].0 - self.state.timestamp)
                        <= MAX_SPEED - self.state.vehicles@[i].speed,
            forall|k: int| 0 <= k < self.state.pedestrians@.len() ==>
                events@[0].0 <= (#[trigger] self.state.pedestrians@[k]).spec_exit_time(),
    {
        let curr = self.state.timestamp();
        let mut events: Vec<Event> = Vec::new();
        events.push(Event(self.end_time, EventType::StopSimulation));
        if self.ped_counter < self.ped_arrival_times.len() as u64 {
            let at = self.ped_arrival_times[self.ped_counter as usize];
            if at > curr {
                events.push(Event(at, EventType::PedestrianArrival));
            }
        }
        if self.veh_counter < self.veh_arrival_times.len() as u64 {
            let at = self.veh_arrival_times[self.veh_counter as usize];
            if at > curr {
                events.push(Event(at, EventType::VehicleArrival));
            }
        }
        let ghost pre3 = events@;
        proof {
            assert(pre3 =~= seq![Event(self.end_time, EventType::StopSimulation)]
                + (if (self.ped_counter as int) < self.ped_arrival_times@.len()
                        && self.ped_arrival_times@[self.ped_counter as int]
                            > self.state.timestamp {
                    seq![Event(
                        self.ped_arrival_times@[self.ped_counter as int],
                        EventType::PedestrianArrival,
                    )]
                } else {
                    Seq::<Event>::empty()
                })
                + (if (self.veh_counter as int) < self.veh_arrival_times@.len()
                        && self.veh_arrival_times@[self.veh_counter as int]
                            > self.state.timestamp {
                    seq![Event(
                        self.veh_arrival_times@[self.veh_counter as int],
                        EventType::VehicleArrival,
                    )]
                } else {
                    Seq::<Event>::empty()
                }));
        }
        let np = self.state.get_pedestrians().len();
        let mut k: usize = 0;
        while k < np
            invariant
                self.wf(),
                curr == self.state.timestamp,
                np == self.state.pedestrians@.len(),
                k <= np,
                events@ == pre3 + Seq::new(k as nat, |kk: int| Event(
                    (self.state.pedestrians@[kk].arrival_time
                        + (*self.state.pedestrians@[kk].location).spec_stop_ms()) as i64,
                    EventType::PedestrianExit(self.state.pedestrians@[kk].id),
                )),
                pre3 =~= seq![Event(self.end_time, EventType::StopSimulation)]
                    + (if (self.ped_counter as int) < self.ped_arrival_times@.len()
                            && self.ped_arrival_times@[self.ped_counter as int]
                                > self.state.timestamp {
                        seq![Event(
                            self.ped_arrival_times@[self.ped_counter as int],
                            EventType::PedestrianArrival,
                        )]
                    } else {
                        Seq::<Event>::empty()
                    })
                    + (if (self.veh_counter as int) < self.veh_arrival_times@.len()
                            && self.veh_arrival_times@[self.veh_counter as int]
                                > self.state.timestamp {
                        seq![Event(
                            self.veh_arrival_times@[self.veh_counter as int],
                            EventType::VehicleArrival,
                        )]
                    } else {
                        Seq::<Event>::empty()
                    }),
                events@.len() >= 1,
                events@[0] == Event(self.end_time, EventType::StopSimulation),
                forall|j: int| 0 <= j < events@.len() ==>
                    self.event_ok(#[trigger] events@[j]),
                forall|j: int| 0 <= j < events@.len() ==>
                    (#[trigger] events@[j]).0 >= curr,
                forall|kk: int| 0 <= kk < k ==> exists|j: int|
                    0 <= j < events@.len() && (#[trigger] events@[j]).0
                        == (#[trigger] self.state.pedestrians@[kk]).spec_exit_time(),
            decreases np - k,
        {
            let ghost events0 = events@;
            let p = self.state.get_pedestrian(k);
            let e = Event(p.exit_time(), EventType::PedestrianExit(p.get_id()));
            events.push(e);
            proof {
                assert(self.event_ok(e));
                assert(events@ == events0.push(e));
                assert(Seq::new((k + 1) as nat, |kk: int| Event(
                    (self.state.pedestrians@[kk].arrival_time
                        + (*self.state.pedestrians@[kk].location).spec_stop_ms()) as i64,
                    EventType::PedestrianExit(self.state.pedestrians@[kk].id),
                )) =~= Seq::new(k as nat, |kk: int| Event(
                    (self.state.pedestrians@[kk].arrival_time
                        + (*self.state.pedestrians@[kk].location).spec_stop_ms()) as i64,
                    EventType::PedestrianExit(self.state.pedestrians@[kk].id),
                )).push(e));
                assert(events@ =~= pre3 + Seq::new((k + 1) as nat, |kk: int| Event(
                    (self.state.pedestrians@[kk].arrival_time
                        + (*self.state.pedestrians@[kk].location).spec_stop_ms()) as i64,
                    EventType::PedestrianExit(self.state.pedestrians@[kk].id),
                )));
                assert forall|kk: int| 0 <= kk < k + 1 implies exists|j: int|
                    0 <= j < events@.len() && (#[trigger] events@[j]).0
                        == (#[trigger] self.state.pedestrians@[kk]).spec_exit_time() by {
                    if kk < k {
                        let j0 = choose|j: int| 0 <= j < events0.len()
                            && (#[trigger] events0[j]).0
                                == self.state.pedestrians@[kk].spec_exit_time();
                        assert(events@[j0].0
                            == self.state.pedestrians@[kk].spec_exit_time());
                    } else {
                        assert(events@[events0.len() as int].0
                            == self.state.pedestrians@[kk].spec_exit_time());
                    }
                }
            }
            k = k + 1;
        }
        proof {
            assert(Seq::new(np as nat, |kk: int| Event(
                (self.state.pedestrians@[kk].arrival_time
                    + (*self.state.pedestrians@[kk].location).spec_stop_ms()) as i64,
                EventType::PedestrianExit(self.state.pedestrians@[kk].id),
            )) =~= Seq::new(self.state.pedestrians@.len(), |kk: int| Event(
                (self.state.pedestrians@[kk].arrival_time
                    + (*self.state.pedestrians@[kk].location).spec_stop_ms()) as i64,
                EventType::PedestrianExit(self.state.pedestrians@[kk].id),
            )));
            assert(events@ =~= self.spec_base_candidates());
            assert(events@ =~= self.spec_base_candidates()
                + self.spec_vehicle_candidates_upto(0));
        }
        let nv = self.state.get_vehicles().len();
        let exit_obs = Obstacle::road_exit(&self.road);
        let mut i: usize = 0;
        while i < nv
            invariant
                self.wf(),
                curr == self.state.timestamp,
                nv == self.state.vehicles@.len(),
                np == self.state.pedestrians@.len(),
                i <= nv,
                events@ == self.spec_base_candidates()
                    + self.spec_vehicle_candidates_upto(i as int),
                exit_obs == (Obstacle {
                    position: self.road.spec_length() as i64,
                    speed: 0,
                    acceleration: 0,
                    length: 0,
                }),
                events@.len() >= 1,
                events@[0] == Event(self.end_time, EventType::StopSimulation),
                forall|j: int| 0 <= j < events@.len() ==>
                    self.event_ok(#[trigger] events@[j]),
                forall|j: int| 0 <= j < events@.len() ==>
                    (#[trigger] events@[j]).0 >= curr,
                forall|kk: int| 0 <= kk < np ==> exists|j: int|
                    0 <= j < events@.len() && (#[trigger] events@[j]).0
                        == (#[trigger] self.state.pedestrians@[kk]).spec_exit_time(),
                forall|v: int| 0 <= v < i
                    && (#[trigger] self.state.vehicles@[v]).acceleration > 0 ==>
                        exists|j: int| 0 <= j < events@.len()
                            && (#[trigger] events@[j]).0
                                == curr + (MAX_SPEED
                                    - self.state.vehicles@[v].speed as int) / 3,
            decreases nv - i,
        {
            let ghost events0 = events@;
            self.push_vehicle_candidates(i, &exit_obs, &mut events);
            proof {
                assert(forall|j: int| 0 <= j < events0.len()
                    ==> #[trigger] events@[j] == events0[j]);
                assert forall|kk: int| 0 <= kk < np implies exists|j: int|
                    0 <= j < events@.len() && (#[trigger] events@[j]).0
                        == (#[trigger] self.state.pedestrians@[kk]).spec_exit_time() by {
                    let j0 = choose|j: int| 0 <= j < events0.len()
                        && (#[trigger] events0[j]).0
                            == self.state.pedestrians@[kk].spec_exit_time();
                    assert(events@[j0].0
                        == self.state.pedestrians@[kk].spec_exit_time());
                }
                assert forall|w: int| 0 <= w < i + 1
                    && (#[trigger] self.state.vehicles@[w]).acceleration > 0
                    implies exists|j: int| 0 <= j < events@.len()
                        && (#[trigger] events@[j]).0
                            == curr + (MAX_SPEED
                                - self.state.vehicles@[w].speed as int) / 3 by {
                    if w < i {
                        let j0 = choose|j: int| 0 <= j < events0.len()
                            && (#[trigger] events0[j]).0
                                == curr + (MAX_SPEED
                                    - self.state.vehicles@[w].speed as int) / 3;
                        assert(events@[j0].0 == curr + (MAX_SPEED
                            - self.state.vehicles@[w].speed as int) / 3);
                    } else {
                        let j0 = choose|j: int| events0.len() <= j < events@.len()
                            && (#[trigger] events@[j]).0
                                == curr + (MAX_SPEED
                                    - self.state.vehicles@[w].speed as int) / 3;
                        assert(events@[j0].0 == curr + (MAX_SPEED
                            - self.state.vehicles@[w].speed as int) / 3);
                    }
                }
                assert(events@ =~= self.spec_base_candidates()
                    + self.spec_vehicle_candidates_upto(i as int + 1));
            }
            i = i + 1;
        }
        let ne = events.len();
        let mut min_time: Time = events[0].time();
        proof {
            assert(events@.take(1).len() == 1);
            assert(events@.take(1)[0] == events@[0]);
        }
        let mut j: usize = 1;
        while j < ne
            invariant
                ne == events@.len(),
                ne >= 1,
                1 <= j <= ne,
                forall|x: int| 0 <= x < j ==> min_time <= (#[trigger] events@[x]).0,
                exists|x: int| 0 <= x < j && min_time == (#[trigger] events@[x]).0,
                min_time == spec_min_event_time(events@.take(j as int)),
            decreases ne - j,
        {
            if events[j].time() < min_time {
                min_time = events[j].time();
            }
            proof {
                assert(events@.take(j as int + 1).drop_last()
                    =~= events@.take(j as int));
                assert(events@.take(j as int + 1).last() == events@[j as int]);
                assert(events@.take(j as int + 1).len() == j + 1);
            }
            j = j + 1;
        }
        proof {
            assert(events@.take(ne as int) =~= events@);
        }
        let mut out: Vec<Event> = Vec::new();
        let mut x: usize = 0;
        while x < ne
            invariant
                ne == events@.len(),
                x <= ne,
                out@ == spec_events_at(events@.take(x as int), min_time as int),
                forall|y: int| 0 <= y < events@.len() ==>
                    self.event_ok(#[trigger] events@[y]),
                events@[0] == Event(self.end_time, EventType::StopSimulation),
                forall|y: int| 0 <= y < out@.len() ==>
                    (#[trigger] out@[y]).0 == min_time,
                forall|y: int| 0 <= y < out@.len() ==>
                    self.event_ok(#[trigger] out@[y]),
                forall|y: int| 0 <= y < x && (#[trigger] events@[y]).0 == min_time ==>
                    out@.len() >= 1,
                x >= 1 && min_time == self.end_time ==>
                    exists|y: int| 0 <= y < out@.len()
                        && (#[trigger] out@[y]).1 is StopSimulation,
                forall|y: int| 0 <= y < out@.len() ==>
                    exists|z: int| 0 <= z < events@.len()
                        && #[trigger] out@[y] == events@[z],
            decreases ne - x,
        {
            let ghost out0 = out@;
            let e = events[x];
            if e.time() == min_time {
                out.push(e);
            }
            proof {
                assert(events@.take(x as int + 1).drop_last()
                    =~= events@.take(x as int));
                assert(events@.take(x as int + 1).last() == events@[x as int]);
                assert(events@.take(x as int + 1).len() == x + 1);
                assert(out@ =~= spec_events_at(
                    events@.take(x as int + 1), min_time as int));
                if x == 0 && min_time == self.end_time {
                    assert(out@[out0.len() as int] == events@[0]);
                }
                if out0.len() > 0 {
                    assert(forall|y: int| 0 <= y < out0.len()
                        ==> #[trigger] out@[y] == out0[y]);
                }
                if x >= 1 && min_time == self.end_time {
                    let y0 = choose|y: int| 0 <= y < out0.len()
                        && (#[trigger] out0[y]).1 is StopSimulation;
                    assert(out@[y0].1 is StopSimulation);
                }
            }
            x = x + 1;
        }
        proof {
            assert(events@.take(ne as int) =~= events@);
            assert(events@ == self.spec_candidates());
            assert(min_time == spec_min_event_time(self.spec_candidates()));
            assert(out@ == self.spec_selected_events());
            assert(out@.len() >= 1);
            assert(out@[0].0 == min_time);
            if exists|y: int| 0 <= y < out@.len()
                && (#[trigger] out@[y]).1 is StopSimulation {
                let y = choose|y: int| 0 <= y < out@.len()
                    && (#[trigger] out@[y]).1 is StopSimulation;
                assert(self.event_ok(out@[y]));
                assert(out@[y].0 == min_time);
            }
            assert forall|w: int| 0 <= w < self.state.vehicles@.len()
                && (#[trigger] self.state.vehicles@[w]).acceleration > 0
                implies 3 * (min_time - curr)
                    <= MAX_SPEED - self.state.vehicles@[w].speed by {
                let j0 = choose|j: int| 0 <= j < events@.len()
                    && (#[trigger] events@[j]).0
                        == curr + (MAX_SPEED - self.state.vehicles@[w].speed as int) / 3;
                vstd::arithmetic::div_mod::lemma_fundamental_div_mod(
                    MAX_SPEED - self.state.vehicles@[w].speed as int, 3);
                vstd::arithmetic::div_mod::lemma_mod_bound(
                    MAX_SPEED - self.state.vehicles@[w].speed as int, 3);
            }
        }
        out
    }

    /// What holds of everything around the world state after one kernel
    /// operation: the configuration is untouched.
    pub open spec fn spec_frame(o: EventDrivenSim, n: EventDrivenSim) -> bool {
        &&& n.start_time == o.start_time
        &&& n.end_time == o.end_time
        &&& n.ped_arrival_times == o.ped_arrival_times
        &&& n.veh_arrival_times == o.veh_arrival_times
        &&& n.road == o.road
        &&& n.seed == o.seed
    }

    /// Applies one discrete state change.
    pub fn handle_event(&mut self, event: EventType)
        requires
            match event {
                EventType::VehicleAccelerate(i) =>
                    (i as int) < old(self).state.vehicles@.len(),
                EventType::SpeedLimitReached(i) =>
                    (i as int) < old(self).state.vehicles@.len(),
                EventType::ZeroSpeedReached(i) =>
                    (i as int) < old(self).state.vehicles@.len(),
                EventType::StaticSpeedReached(i) =>
                    (i as int) < old(self).state.vehicles@.len(),
                EventType::ReactionToObstacle(i) =>
                    (i as int) < old(self).state.vehicles@.len(),
                EventType::EmergencyStop(i) =>
                    (i as int) < old(self).state.vehicles@.len(),
                EventType::VehicleExit(i) =>
                    (i as int) < old(self).state.vehicles@.len(),
                EventType::VehicleArrival =>
                    old(self).state.vehicles@.len() < usize::MAX
                        && old(self).veh_counter < u64::MAX,
                EventType::PedestrianArrival =>
                    old(self).state.pedestrians@.len() < usize::MAX
                        && old(self).ped_counter < u64::MAX
                        && old(self).road.wf()
                        && 1 <= old(self).road.num_crossings() <= 1_000_000,
                _ => true,
            },
        ensures
            Self::spec_frame(*old(self), *final(self)),
            final(self).state.timestamp == old(self).state.timestamp,
            match event {
                EventType::VehicleAccelerate(i) => {
                    &&& final(self).state.vehicles@ == old(self).state.vehicles@.update(
                            i as int,
                            (Car {
                                acceleration: ACCELERATION_VALUE,
                                ..old(self).state.vehicles@[i as int]
                            }))
                    &&& final(self).state.pedestrians == old(self).state.pedestrians
                    &&& final(self).veh_counter == old(self).veh_counter
                    &&& final(self).ped_counter == old(self).ped_counter
                },
                EventType::SpeedLimitReached(i) => {
                    &&& final(self).state.vehicles@ == old(self).state.vehicles@.update(
                            i as int,
                            (Car {
                                speed: MAX_SPEED,
                                acceleration: 0,
                                ..old(self).state.vehicles@[i as int]
                            }))
                    &&& final(self).state.pedestrians == old(self).state.pedestrians
                    &&& final(self).veh_counter == old(self).veh_counter
                    &&& final(self).ped_counter == old(self).ped_counter
                },
                EventType::ZeroSpeedReached(i) => {
                    &&& final(self).state.vehicles@ == old(self).state.vehicles@.update(
                            i as int,
                            (Car {
                                speed: 0,
                                acceleration: 0,
                                ..old(self).state.vehicles@[i as int]
                            }))
                    &&& final(self).state.pedestrians == old(self).state.pedestrians
                    &&& final(self).veh_counter == old(self).veh_counter
                    &&& final(self).ped_counter == old(self).ped_counter
                },
                EventType::StaticSpeedReached(i) => {
                    &&& final(self).state.vehicles@ == old(self).state.vehicles@.update(
                            i as int,
                            (Car {
                                acceleration: 0,
                                ..old(self).state.vehicles@[i as int]
                            }))
                    &&& final(self).state.pedestrians == old(self).state.pedestrians
                    &&& final(self).veh_counter == old(self).veh_counter
                    &&& final(self).ped_counter == old(self).ped_counter
                },
                EventType::ReactionToObstacle(i) => {
                    &&& final(self).state.vehicles@ == old(self).state.vehicles@.update(
                            i as int,
                            (Car {
                                acceleration: crate::vehicle::DECCELERATION_VALUE,
                                ..old(self).state.vehicles@[i as int]
                            }))
                    &&& final(self).state.pedestrians == old(self).state.pedestrians
                    &&& final(self).veh_counter == old(self).veh_counter
                    &&& final(self).ped_counter == old(self).ped_counter
                },
                EventType::EmergencyStop(i) => {
                    &&& final(self).state.vehicles@ == old(self).state.vehicles@.update(
                            i as int,
                            (Car {
                                speed: 0,
                                acceleration: 0,
                                ..old(self).state.vehicles@[i as int]
                            }))
                    &&& final(self).state.pedestrians == old(self).state.pedestrians
                    &&& final(self).veh_counter == old(self).veh_counter
                    &&& final(self).ped_counter == old(self).ped_counter
                },
                EventType::VehicleExit(i) => {
                    &&& final(self).state.vehicles@
                            == old(self).state.vehicles@.remove(i as int)
                    &&& final(self).state.pedestrians == old(self).state.pedestrians
                    &&& final(self).veh_counter == old(self).veh_counter
                    &&& final(self).ped_counter == old(self).ped_counter
                },
                EventType::VehicleArrival => {
                    &&& final(self).state.vehicles@ == old(self).state.vehicles@.push(
                            (Car {
                                id: old(self).veh_counter,
                                length: crate::vehicle::CAR_LENGTH,
                                buffer_zone: crate::vehicle::CAR_BUFFER_ZONE,
                                direction: Direction::Up,
                                position: 0,
                                speed: MAX_SPEED,
                                acceleration: 0,
                            }))
                    &&& final(self).state.pedestrians == old(self).state.pedestrians
                    &&& final(self).veh_counter == old(self).veh_counter + 1
                    &&& final(self).ped_counter == old(self).ped_counter
                },
                EventType::PedestrianArrival => {
                    &&& final(self).state.pedestrians@.len()
                            == old(self).state.pedestrians@.len() + 1
                    &&& forall|x: int| 0 <= x < old(self).state.pedestrians@.len() ==>
                            #[trigger] final(self).state.pedestrians@[x]
                                == old(self).state.pedestrians@[x]
                    &&& ({
                        let p = final(self).state.pedestrians@.last();
                        &&& p.id == old(self).ped_counter
                        &&& p.arrival_time == old(self).state.timestamp
                        &&& exists|c: int| 0 <= c < old(self).road.num_crossings()
                                && *p.location
                                    == (#[trigger] old(self).road.up_seq()[c]).0
                    })
                    &&& final(self).state.vehicles == old(self).state.vehicles
                    &&& final(self).veh_counter == old(self).veh_counter
                    &&& final(self).ped_counter == old(self).ped_counter + 1
                },
                EventType::PedestrianExit(id) => {
                    &&& ((forall|x: int| 0 <= x < old(self).state.pedestrians@.len() ==>
                            (#[trigger] old(self).state.pedestrians@[x]).id != id)
                        ==> final(self).state.pedestrians
                                == old(self).state.pedestrians)
                    &&& ((exists|x: int| 0 <= x < old(self).state.pedestrians@.len()
                            && (#[trigger] old(self).state.pedestrians@[x]).id == id)
                        ==> exists|x: int| 0 <= x < old(self).state.pedestrians@.len()
                            && (#[trigger] old(self).state.pedestrians@[x]).id == id
                            && (forall|j: int| 0 <= j < x ==>
                                (#[trigger] old(self).state.pedestrians@[j]).id != id)
                            && final(self).state.pedestrians@
                                == old(self).state.pedestrians@.remove(x))
                    &&& final(self).state.vehicles == old(self).state.vehicles
                    &&& final(self).veh_counter == old(self).veh_counter
                    &&& final(self).ped_counter == old(self).ped_counter
                },
                _ => *final(self) == *old(self),
            },
    {
        match event {
            EventType::VehicleArrival => {
                self.new_vehicle();
            },
            EventType::VehicleAccelerate(idx) => {
                let mut vehicle = self.state.get_vehicle(idx);
                vehicle.action(Action::Accelerate);
                self.state.set_vehicle(idx, vehicle);
            },
            EventType::VehicleExit(idx) => {
                self.remove_vehicle(idx);
            },
            EventType::SpeedLimitReached(idx) => {
                let mut vehicle = self.state.get_vehicle(idx);
                vehicle.set_speed(MAX_SPEED);
                vehicle.action(Action::StaticSpeed);
                self.state.set_vehicle(idx, vehicle);
            },
            EventType::ZeroSpeedReached(idx) => {
                let mut vehicle = self.state.get_vehicle(idx);
                vehicle.set_speed(0);
                vehicle.action(Action::StaticSpeed);
                self.state.set_vehicle(idx, vehicle);
            },
            EventType::StaticSpeedReached(idx) => {
                let mut vehicle = self.state.get_vehicle(idx);
                vehicle.action(Action::StaticSpeed);
                self.state.set_vehicle(idx, vehicle);
            },
            EventType::EmergencyStop(idx) => {
                let mut vehicle = self.state.get_vehicle(idx);
                vehicle.set_speed(0);
                vehicle.action(Action::StaticSpeed);
                self.state.set_vehicle(idx, vehicle);
            },
            EventType::ReactionToObstacle(idx) => {
                let mut vehicle = self.state.get_vehicle(idx);
                vehicle.action(Action::Deccelerate);
                self.state.set_vehicle(idx, vehicle);
            },
            EventType::PedestrianArrival => {
                self.new_pedestrian();
            },
            EventType::PedestrianExit(id) => {
                self.remove_pedestrian(id);
            },
            EventType::LightsToRed(_idx) => {
            },
            EventType::LightsToGreen(_idx) => {
            },
            EventType::StopSimulation => {
            },
        }
    }
}

/// An executable optional time agrees with a specification-level one.
pub open spec fn opt_time_eq(a: Option<i64>, b: Option<int>) -> bool {
    match a {
        Some(x) => b == Some(x as int),
        None => b is None,
    }
}

/// The minimum event time of a non-empty event list.
pub open spec fn spec_min_event_time(s: Seq<Event>) -> int
    decreases s.len(),
{
    if s.len() <= 1 {
        s[0].0 as int
    } else {
        let m0 = spec_min_event_time(s.drop_last());
        if (s.last().0 as int) < m0 {
            s.last().0 as int
        } else {
            m0
        }
    }
}

/// The events of `s` at time `t`, in order.
pub open spec fn spec_events_at(s: Seq<Event>, t: int) -> Seq<Event>
    decreases s.len(),
{
    if s.len() == 0 {
        Seq::empty()
    } else {
        spec_events_at(s.drop_last(), t)
            + if s.last().0 == t { seq![s.last()] } else { Seq::empty() }
    }
}

/// Whether the selected events include a stop, a vehicle arrival, a
/// pedestrian arrival.
pub open spec fn spec_has_stop(evs: Seq<Event>) -> bool {
    exists|j: int| 0 <= j < evs.len() && (#[trigger] evs[j]).1 is StopSimulation
}

pub open spec fn spec_has_vehicle_arrival(evs: Seq<Event>) -> bool {
    exists|j: int| 0 <= j < evs.len() && (#[trigger] evs[j]).1 is VehicleArrival
}

pub open spec fn spec_has_pedestrian_arrival(evs: Seq<Event>) -> bool {
    exists|j: int| 0 <= j < evs.len() && (#[trigger] evs[j]).1 is PedestrianArrival
}

/// The continuous-transition phase acts exactly on the events of the
/// first priority class of SS4.4; everything later-ranked (lights, exits,
/// arrivals, the stop) passes through it unchanged.
pub proof fn lemma_apply_respects_priority(vehicles: Seq<Car>, e: Event)
    requires
        crate::events::spec_priority(e.1) != 0,
    ensures
        spec_apply_continuous_event(vehicles, e) == vehicles,
{
}

/// One continuous transition applied to the vehicle list; anything that
/// is not a continuous transition changes nothing here.
pub open spec fn spec_apply_continuous_event(vehicles: Seq<Car>, e: Event) -> Seq<Car> {
    match e.1 {
        EventType::VehicleAccelerate(i) => vehicles.update(i as int,
            Car { acceleration: ACCELERATION_VALUE, ..vehicles[i as int] }),
        EventType::SpeedLimitReached(i) => vehicles.update(i as int,
            Car { speed: MAX_SPEED, acceleration: 0, ..vehicles[i as int] }),
        EventType::ZeroSpeedReached(i) => vehicles.update(i as int,
            Car { speed: 0, acceleration: 0, ..vehicles[i as int] }),
        EventType::StaticSpeedReached(i) => vehicles.update(i as int,
            Car { acceleration: 0, ..vehicles[i as int] }),
        EventType::ReactionToObstacle(i) => vehicles.update(i as int,
            Car { acceleration: crate::vehicle::DECCELERATION_VALUE,
                ..vehicles[i as int] }),
        EventType::EmergencyStop(i) => vehicles.update(i as int,
            Car { speed: 0, acceleration: 0, ..vehicles[i as int] }),
        _ => vehicles,
    }
}

/// The first `q` selected events' continuous transitions, in order.
pub open spec fn spec_apply_continuous(vehicles: Seq<Car>, evs: Seq<Event>, q: int)
    -> Seq<Car>
    decreases q,
{
    if q <= 0 {
        vehicles
    } else {
        spec_apply_continuous_event(
            spec_apply_continuous(vehicles, evs, q - 1), evs[q - 1])
    }
}

/// The selected exits applied from the highest slot downward, so that a
/// removal never shifts a slot still to be removed.
pub open spec fn spec_apply_exits(vehicles: Seq<Car>, evs: Seq<Event>, d: int)
    -> Seq<Car>
    decreases d,
{
    if d <= 0 {
        vehicles
    } else {
        let w = if exists|j: int| 0 <= j < evs.len()
            && (#[trigger] evs[j]).1 == EventType::VehicleExit((d - 1) as usize) {
            vehicles.remove(d - 1)
        } else {
            vehicles
        };
        spec_apply_exits(w, evs, d - 1)
    }
}

/// `k` is the first slot holding pedestrian `id`.
pub open spec fn spec_is_first_ped_with_id(
    peds: Seq<Pedestrian>, id: ID, k: int) -> bool {
    &&& 0 <= k < peds.len()
    &&& peds[k].id == id
    &&& forall|j: int| 0 <= j < k ==> (#[trigger] peds[j]).id != id
}

/// The pedestrian list with the first holder of `id` removed, if any.
pub open spec fn spec_remove_ped(peds: Seq<Pedestrian>, id: ID) -> Seq<Pedestrian> {
    if exists|k: int| spec_is_first_ped_with_id(peds, id, k) {
        peds.remove(choose|k: int| spec_is_first_ped_with_id(peds, id, k))
    } else {
        peds
    }
}

/// Two first slots for one identifier agree.
pub proof fn lemma_first_ped_unique(peds: Seq<Pedestrian>, id: ID, k1: int, k2: int)
    requires
        spec_is_first_ped_with_id(peds, id, k1),
        spec_is_first_ped_with_id(peds, id, k2),
    ensures
        k1 == k2,
{
}

/// The first `q` selected events' pedestrian exits, in order.
pub open spec fn spec_apply_ped_exits(peds: Seq<Pedestrian>, evs: Seq<Event>, q: int)
    -> Seq<Pedestrian>
    decreases q,
{
    if q <= 0 {
        peds
    } else {
        let w = spec_apply_ped_exits(peds, evs, q - 1);
        match evs[q - 1].1 {
            EventType::PedestrianExit(id) => spec_remove_ped(w, id),
            _ => w,
        }
    }
}

/// The vehicle a `VehicleArrival` creates: at the origin, at the cap,
/// holding its speed, with the next free identifier.
pub open spec fn spec_arrival_car(id: ID) -> Car {
    Car {
        id,
        length: crate::vehicle::CAR_LENGTH,
        buffer_zone: crate::vehicle::CAR_BUFFER_ZONE,
        direction: Direction::Up,
        position: 0,
        speed: MAX_SPEED,
        acceleration: 0,
    }
}

/// The vehicle list after one whole kernel iteration of `o`: everything
/// rolled to the selected instant, continuous transitions applied, exits
/// removed, and — unless the stop is among the selected events — the
/// arrival appended.
pub open spec fn spec_step_vehicles(o: EventDrivenSim, evs: Seq<Event>) -> Seq<Car> {
    let rolled = crate::state::spec_advanced_vehicles(
        o.state.vehicles@, evs[0].0 - o.state.timestamp);
    let after_continuous = spec_apply_continuous(rolled, evs, evs.len() as int);
    let after_exits = spec_apply_exits(after_continuous, evs, rolled.len() as int);
    if !spec_has_stop(evs) && spec_has_vehicle_arrival(evs) {
        after_exits.push(spec_arrival_car(o.veh_counter))
    } else {
        after_exits
    }
}

/// No overtaking: among vehicles travelling the same way, an earlier
/// arrival (an earlier slot) is at least as far along.
pub open spec fn spec_no_overtaking(vehicles: Seq<Car>) -> bool {
    forall|i: int, j: int| 0 <= i < j < vehicles.len()
        && (#[trigger] vehicles[i]).direction == (#[trigger] vehicles[j]).direction
        ==> vehicles[i].position >= vehicles[j].position
}

/// With identifiers growing along the list, no overtaking says exactly
/// that of two same-direction vehicles the one with the smaller
/// identifier has the larger (or equal) position.
pub proof fn lemma_no_overtaking_by_id(vehicles: Seq<Car>, i: int, j: int)
    requires
        spec_no_overtaking(vehicles),
        forall|a: int, b: int| 0 <= a < b < vehicles.len() ==>
            (#[trigger] vehicles[a]).id < (#[trigger] vehicles[b]).id,
        0 <= i < vehicles.len(),
        0 <= j < vehicles.len(),
        vehicles[i].direction == vehicles[j].direction,
        vehicles[i].id < vehicles[j].id,
    ensures
        vehicles[i].position >= vehicles[j].position,
{
    if j <= i {
        assert(vehicles[j].id <= vehicles[i].id);
    }
    assert(i < j);
}

/// A runtime breach of a kernel invariant; the step that detects one
/// reports it and leaves the half-step unwritten.
#[derive(Debug, Clone, Copy, PartialEq, Eq, Structural)]
pub enum KernelError {
    /// Two same-direction vehicles out of order.
    Overtaking,
    /// A pedestrian arrived on a road without crossings.
    NoCrossings,
}

fn contains_stop(events: &Vec<Event>) -> (r: bool)
    ensures
        r <==> exists|j: int| 0 <= j < events@.len()
            && (#[trigger] events@[j]).1 is StopSimulation,
{
    let n = events.len();
    let mut j: usize = 0;
    while j < n
        invariant
            n == events@.len(),
            j <= n,
            forall|x: int| 0 <= x < j ==> !((#[trigger] events@[x]).1 is StopSimulation),
        decreases n - j,
    {
        if matches!(events[j].1, EventType::StopSimulation) {
            return true;
        }
        j = j + 1;
    }
    false
}

fn contains_vehicle_exit(events: &Vec<Event>, idx: usize) -> (r: bool)
    ensures
        r <==> exists|j: int| 0 <= j < events@.len()
            && (#[trigger] events@[j]).1 == EventType::VehicleExit(idx),
{
    let n = events.len();
    let mut j: usize = 0;
    while j < n
        invariant
            n == events@.len(),
            j <= n,
            forall|x: int| 0 <= x < j ==>
                (#[trigger] events@[x]).1 != EventType::VehicleExit(idx),
        decreases n - j,
    {
        let hit = match events[j].1 {
            EventType::VehicleExit(e) => e == idx,
            _ => false,
        };
        if hit {
            return true;
        }
        j = j + 1;
    }
    false
}

fn contains_vehicle_arrival(events: &Vec<Event>) -> (r: bool)
    ensures
        r <==> exists|j: int| 0 <= j < events@.len()
            && (#[trigger] events@[j]).1 is VehicleArrival,
{
    let n = events.len();
    let mut j: usize = 0;
    while j < n
        invariant
            n == events@.len(),
            j <= n,
            forall|x: int| 0 <= x < j ==> !((#[trigger] events@[x]).1 is VehicleArrival),
        decreases n - j,
    {
        if matches!(events[j].1, EventType::VehicleArrival) {
            return true;
        }
        j = j + 1;
    }
    false
}

fn contains_pedestrian_arrival(events: &Vec<Event>) -> (r: bool)
    ensures
        r <==> exists|j: int| 0 <= j < events@.len()
            && (#[trigger] events@[j]).1 is PedestrianArrival,
{
    let n = events.len();
    let mut j: usize = 0;
    while j < n
        invariant
            n == events@.len(),
            j <= n,
            forall|x: int| 0 <= x < j ==>
                !((#[trigger] events@[x]).1 is PedestrianArrival),
        decreases n - j,
    {
        if matches!(events[j].1, EventType::PedestrianArrival) {
            return true;
        }
        j = j + 1;
    }
    false
}

/// The kernel invariant survives replacing one vehicle's control state:
/// identifier and position are kept, the new values are in range.
proof fn lemma_wf_after_mode_update(o: EventDrivenSim, n: EventDrivenSim, i: int, car: Car)
    requires
        o.wf(),
        EventDrivenSim::spec_frame(o, n),
        0 <= i < o.state.vehicles@.len(),
        n.state.vehicles@ == o.state.vehicles@.update(i, car),
        n.state.pedestrians == o.state.pedestrians,
        n.state.timestamp == o.state.timestamp,
        n.ped_counter == o.ped_counter,
        n.veh_counter == o.veh_counter,
        car.id == o.state.vehicles@[i].id,
        car.position == o.state.vehicles@[i].position,
        car.wf(),
        car.speed <= MAX_SPEED,
    ensures
        n.wf(),
{
    assert(o.state.vehicles@[i].wf());
    assert forall|x: int| 0 <= x < n.state.vehicles@.len()
        implies (#[trigger] n.state.vehicles@[x]).wf()
            && n.state.vehicles@[x].speed <= MAX_SPEED
            && n.state.vehicles@[x].id < n.veh_counter
            && n.state.vehicles@[x].position
                <= crate::road::MAX_ROAD_LENGTH + 15 * n.state.timestamp by {
        assert(o.state.vehicles@[x].wf());
        assert(o.state.vehicles@[x].speed <= MAX_SPEED);
    }
    assert forall|x: int, y: int| 0 <= x < y < n.state.vehicles@.len()
        implies (#[trigger] n.state.vehicles@[x]).id
            < (#[trigger] n.state.vehicles@[y]).id by {
        assert(o.state.vehicles@[x].id < o.state.vehicles@[y].id);
    }
}

/// The kernel invariant survives removing one vehicle.
proof fn lemma_wf_after_vehicle_remove(o: EventDrivenSim, n: EventDrivenSim, i: int)
    requires
        o.wf(),
        EventDrivenSim::spec_frame(o, n),
        0 <= i < o.state.vehicles@.len(),
        n.state.vehicles@ == o.state.vehicles@.remove(i),
        n.state.pedestrians == o.state.pedestrians,
        n.state.timestamp == o.state.timestamp,
        n.ped_counter == o.ped_counter,
        n.veh_counter == o.veh_counter,
    ensures
        n.wf(),
{
    assert forall|x: int| 0 <= x < n.state.vehicles@.len()
        implies (#[trigger] n.state.vehicles@[x]).wf()
            && n.state.vehicles@[x].speed <= MAX_SPEED
            && n.state.vehicles@[x].id < n.veh_counter
            && n.state.vehicles@[x].position
                <= crate::road::MAX_ROAD_LENGTH + 15 * n.state.timestamp by {
        let x0 = if x < i { x } else { x + 1 };
        assert(n.state.vehicles@[x] == o.state.vehicles@[x0]);
        assert(o.state.vehicles@[x0].wf());
        assert(o.state.vehicles@[x0].speed <= MAX_SPEED);
    }
    assert forall|x: int, y: int| 0 <= x < y < n.state.vehicles@.len()
        implies (#[trigger] n.state.vehicles@[x]).id
            < (#[trigger] n.state.vehicles@[y]).id by {
        let x0 = if x < i { x } else { x + 1 };
        let y0 = if y < i { y } else { y + 1 };
        assert(n.state.vehicles@[x] == o.state.vehicles@[x0]);
        assert(n.state.vehicles@[y] == o.state.vehicles@[y0]);
        assert(o.state.vehicles@[x0].id < o.state.vehicles@[y0].id);
    }
}

/// The kernel invariant survives removing one pedestrian.
proof fn lemma_wf_after_ped_remove(o: EventDrivenSim, n: EventDrivenSim, i: int)
    requires
        o.wf(),
        EventDrivenSim::spec_frame(o, n),
        0 <= i < o.state.pedestrians@.len(),
        n.state.pedestrians@ == o.state.pedestrians@.remove(i),
        n.state.vehicles == o.state.vehicles,
        n.state.timestamp == o.state.timestamp,
        n.ped_counter == o.ped_counter,
        n.veh_counter == o.veh_counter,
    ensures
        n.wf(),
{
    assert forall|x: int| 0 <= x < n.state.pedestrians@.len()
        implies {
            let p = #[trigger] n.state.pedestrians@[x];
            &&& p.wf()
            &&& 0 <= (*p.location).spec_id() < n.road.num_crossings()
            &&& n.state.timestamp <= p.spec_exit_time()
            &&& p.arrival_time <= n.state.timestamp
            &&& p.id < n.ped_counter
        } by {
        let x0 = if x < i { x } else { x + 1 };
        assert(n.state.pedestrians@[x] == o.state.pedestrians@[x0]);
        assert(o.state.pedestrians@[x0].wf());
        assert(0 <= (*o.state.pedestrians@[x0].location).spec_id()
            < o.road.num_crossings());
        assert(o.state.timestamp <= o.state.pedestrians@[x0].spec_exit_time());
        assert(o.state.pedestrians@[x0].arrival_time <= o.state.timestamp);
        assert(o.state.pedestrians@[x0].id < o.ped_counter);
    }
}

impl EventDrivenSim {
    /// One kernel iteration per the main loop: gather candidates, roll
    /// the world forward to the earliest, and apply everything scheduled
    /// there — continuous transitions first, then exits, then arrivals,
    /// unless the stop is due, which wins over arrivals.  A detected
    /// invariant breach aborts the step with an error.
    #[verifier::rlimit(100)]
    pub fn step(&mut self) -> (r: Result<Vec<Event>, KernelError>)
        requires
            old(self).wf(),
            old(self).state.vehicles@.len() < usize::MAX,
            old(self).state.pedestrians@.len() < usize::MAX,
            old(self).veh_counter < u64::MAX,
            old(self).ped_counter < u64::MAX,
            old(self).road.num_crossings() <= 1_000_000,
        ensures
            EventDrivenSim::spec_frame(*old(self), *final(self)),
            match r {
                Ok(evs) => {
                    &&& final(self).wf()
                    &&& evs@ == old(self).spec_selected_events()
                    &&& evs@.len() >= 1
                    &&& forall|j: int| 0 <= j < evs@.len() ==>
                            (#[trigger] evs@[j]).0 == evs@[0].0
                    &&& old(self).state.timestamp <= evs@[0].0 <= old(self).end_time
                    &&& final(self).state.timestamp == evs@[0].0
                    &&& final(self).state.vehicles@
                            == spec_step_vehicles(*old(self), evs@)
                    &&& final(self).veh_counter == old(self).veh_counter
                            + if !spec_has_stop(evs@) && spec_has_vehicle_arrival(evs@)
                                { 1int } else { 0int }
                    &&& ({
                        let after_exits = spec_apply_ped_exits(
                            old(self).state.pedestrians@, evs@, evs@.len() as int);
                        if !spec_has_stop(evs@) && spec_has_pedestrian_arrival(evs@) {
                            &&& final(self).state.pedestrians@.len()
                                    == after_exits.len() + 1
                            &&& forall|x: int| 0 <= x < after_exits.len() ==>
                                    #[trigger] final(self).state.pedestrians@[x]
                                        == after_exits[x]
                            &&& final(self).state.pedestrians@.last().id
                                    == old(self).ped_counter
                            &&& final(self).state.pedestrians@.last().arrival_time
                                    == evs@[0].0
                            &&& exists|c: int| 0 <= c < old(self).road.num_crossings()
                                    && *final(self).state.pedestrians@.last().location
                                        == (#[trigger] old(self).road.up_seq()[c]).0
                            &&& final(self).ped_counter == old(self).ped_counter + 1
                        } else {
                            &&& final(self).state.pedestrians@ == after_exits
                            &&& final(self).ped_counter == old(self).ped_counter
                        }
                    })
                    &&& spec_no_overtaking(final(self).state.vehicles@)
                    &&& ((exists|j: int| 0 <= j < evs@.len()
                            && (#[trigger] evs@[j]).1 is StopSimulation)
                            <==> evs@[0].0 == old(self).end_time)
                    &&& final(self).state.vehicles@.len()
                            <= old(self).state.vehicles@.len() + 1
                    &&& final(self).state.pedestrians@.len()
                            <= old(self).state.pedestrians@.len() + 1
                },
                Err(e) => e == KernelError::Overtaking || e == KernelError::NoCrossings,
            },
            ({
                let sel = old(self).spec_selected_events();
                let nocross = !spec_has_stop(sel) && spec_has_pedestrian_arrival(sel)
                    && old(self).road.num_crossings() == 0;
                &&& (r == Err::<Vec<Event>, KernelError>(KernelError::NoCrossings)
                        <==> nocross)
                &&& (!nocross ==> (r == Err::<Vec<Event>, KernelError>(
                        KernelError::Overtaking)
                        <==> !spec_no_overtaking(spec_step_vehicles(*old(self), sel))))
            }),
            r == Err::<Vec<Event>, KernelError>(KernelError::Overtaking) ==>
                !spec_no_overtaking(final(self).state.vehicles@),
    {
        let ghost o = *old(self);
        let evs = self.next_events();
        let m = evs[0].time();
        let curr = self.state.timestamp();
        let dt = m - curr;
        proof {
            assert(per_ms(ACCELERATION_VALUE as int) == 3);
            assert forall|i: int| 0 <= i < self.state.vehicles@.len()
                && (#[trigger] self.state.vehicles@[i]).acceleration > 0
                implies self.state.vehicles@[i].speed
                    + per_ms(self.state.vehicles@[i].acceleration as int) * (dt as int)
                    <= MAX_SPEED by {
                assert(self.state.vehicles@[i].wf());
                assert(self.state.vehicles@[i].acceleration == ACCELERATION_VALUE);
                assert(3 * (m - curr) <= MAX_SPEED - self.state.vehicles@[i].speed);
            }
            assert forall|i: int| 0 <= i < self.state.vehicles@.len()
                implies (#[trigger] self.state.vehicles@[i]).position
                    + 14 * (dt as int) + 1 <= crate::obstacle::MAX_COORD by {
                assert(self.state.vehicles@[i].position
                    <= MAX_ROAD_LENGTH + 15 * self.state.timestamp);
            }
        }
        self.state.update(crate::time::TimeDelta::new(dt));
        proof {
            assert forall|x: int| 0 <= x < self.state.vehicles@.len()
                implies {
                    let v = #[trigger] self.state.vehicles@[x];
                    &&& v.id == o.state.vehicles@[x].id
                    &&& v.position <= MAX_ROAD_LENGTH + 15 * (m as int)
                } by {
                let before = o.state.vehicles@[x];
                assert(self.state.vehicles@[x]
                    == crate::vehicle::spec_rolled(before, dt as int));
                assert(before.wf());
                assert(before.speed <= MAX_SPEED);
                assert(before.acceleration > 0 ==>
                    before.speed + per_ms(before.acceleration as int) * (dt as int)
                        <= MAX_SPEED) by {
                    if before.acceleration > 0 {
                        assert(before.acceleration == ACCELERATION_VALUE);
                        assert(3 * (m - curr) <= MAX_SPEED - before.speed);
                    }
                }
                crate::vehicle::lemma_displacement_bounds(
                    before.speed as int, before.acceleration as int, dt as int);
                assert(before.position <= MAX_ROAD_LENGTH + 15 * (curr as int));
            }
            assert(self.wf());
        }
        let ghost rolled = self.state.vehicles@;
        let ne = evs.len();
        let mut q: usize = 0;
        while q < ne
            invariant
                ne == evs@.len(),
                ne >= 1,
                q <= ne,
                o.wf(),
                self.state.vehicles@ == spec_apply_continuous(rolled, evs@, q as int),
                forall|j: int| 0 <= j < evs@.len() ==>
                    o.event_ok(#[trigger] evs@[j]),
                self.wf(),
                self.state.timestamp == m,
                self.state.vehicles@.len() == o.state.vehicles@.len(),
                self.state.pedestrians == o.state.pedestrians,
                self.veh_counter == o.veh_counter,
                self.ped_counter == o.ped_counter,
                EventDrivenSim::spec_frame(o, *self),
            decreases ne - q,
        {
            let ev = evs[q];
            let ghost pre = *self;
            proof {
                assert(spec_apply_continuous(rolled, evs@, q as int + 1)
                    == spec_apply_continuous_event(
                        spec_apply_continuous(rolled, evs@, q as int),
                        evs@[q as int]));
            }
            match ev.1 {
                EventType::VehicleAccelerate(idx) => {
                    self.handle_event(ev.1);
                    proof {
                        lemma_wf_after_mode_update(pre, *self, idx as int,
                            (Car {
                                acceleration: ACCELERATION_VALUE,
                                ..pre.state.vehicles@[idx as int]
                            }));
                    }
                },
                EventType::SpeedLimitReached(idx) => {
                    self.handle_event(ev.1);
                    proof {
                        lemma_wf_after_mode_update(pre, *self, idx as int,
                            (Car {
                                speed: MAX_SPEED,
                                acceleration: 0,
                                ..pre.state.vehicles@[idx as int]
                            }));
                    }
                },
                EventType::ZeroSpeedReached(idx) => {
                    self.handle_event(ev.1);
                    proof {
                        lemma_wf_after_mode_update(pre, *self, idx as int,
                            (Car {
                                speed: 0,
                                acceleration: 0,
                                ..pre.state.vehicles@[idx as int]
                            }));
                    }
                },
                EventType::StaticSpeedReached(idx) => {
                    self.handle_event(ev.1);
                    proof {
                        lemma_wf_after_mode_update(pre, *self, idx as int,
                            (Car {
                                acceleration: 0,
                                ..pre.state.vehicles@[idx as int]
                            }));
                    }
                },
                EventType::ReactionToObstacle(idx) => {
                    self.handle_event(ev.1);
                    proof {
                        lemma_wf_after_mode_update(pre, *self, idx as int,
                            (Car {
                                acceleration: crate::vehicle::DECCELERATION_VALUE,
                                ..pre.state.vehicles@[idx as int]
                            }));
                    }
                },
                EventType::EmergencyStop(idx) => {
                    self.handle_event(ev.1);
                    proof {
                        lemma_wf_after_mode_update(pre, *self, idx as int,
                            (Car {
                                speed: 0,
                                acceleration: 0,
                                ..pre.state.vehicles@[idx as int]
                            }));
                    }
                },
                _ => {
                },
            }
            proof {
                assert(self.state.vehicles@
                    == spec_apply_continuous_event(pre.state.vehicles@, ev));
            }
            q = q + 1;
        }
        let nv0 = self.state.get_vehicles().len();
        let ghost after_continuous = self.state.vehicles@;
        let mut d: usize = nv0;
        while d > 0
            invariant
                o.wf(),
                self.wf(),
                d <= self.state.vehicles@.len(),
                self.state.vehicles@.len() <= o.state.vehicles@.len(),
                spec_apply_exits(self.state.vehicles@, evs@, d as int)
                    == spec_apply_exits(after_continuous, evs@, nv0 as int),
                self.state.timestamp == m,
                self.state.pedestrians == o.state.pedestrians,
                self.veh_counter == o.veh_counter,
                self.ped_counter == o.ped_counter,
                EventDrivenSim::spec_frame(o, *self),
            decreases d,
        {
            let dd = d - 1;
            let ghost pre = *self;
            if contains_vehicle_exit(&evs, dd) {
                self.handle_event(EventType::VehicleExit(dd));
                proof {
                    lemma_wf_after_vehicle_remove(pre, *self, dd as int);
                }
            }
            proof {
                assert(spec_apply_exits(pre.state.vehicles@, evs@, d as int)
                    == spec_apply_exits(self.state.vehicles@, evs@, dd as int));
            }
            d = dd;
        }
        let ghost after_exits = self.state.vehicles@;
        let mut q2: usize = 0;
        while q2 < ne
            invariant
                ne == evs@.len(),
                q2 <= ne,
                o.wf(),
                self.wf(),
                self.state.timestamp == m,
                self.state.vehicles@ == after_exits,
                self.state.pedestrians@
                    == spec_apply_ped_exits(o.state.pedestrians@, evs@, q2 as int),
                self.state.vehicles@.len() <= o.state.vehicles@.len(),
                self.state.pedestrians@.len() <= o.state.pedestrians@.len(),
                self.veh_counter == o.veh_counter,
                self.ped_counter == o.ped_counter,
                EventDrivenSim::spec_frame(o, *self),
            decreases ne - q2,
        {
            let ev = evs[q2];
            let ghost pre = *self;
            match ev.1 {
                EventType::PedestrianExit(id) => {
                    self.handle_event(ev.1);
                    proof {
                        if exists|x: int| 0 <= x < pre.state.pedestrians@.len()
                            && (#[trigger] pre.state.pedestrians@[x]).id == id {
                            let x = choose|x: int|
                                0 <= x < pre.state.pedestrians@.len()
                                && (#[trigger] pre.state.pedestrians@[x]).id == id
                                && (forall|j: int| 0 <= j < x ==>
                                    (#[trigger] pre.state.pedestrians@[j]).id != id)
                                && self.state.pedestrians@
                                    == pre.state.pedestrians@.remove(x);
                            lemma_wf_after_ped_remove(pre, *self, x);
                            assert(spec_is_first_ped_with_id(
                                pre.state.pedestrians@, id, x));
                            let x2 = choose|k: int| spec_is_first_ped_with_id(
                                pre.state.pedestrians@, id, k);
                            lemma_first_ped_unique(
                                pre.state.pedestrians@, id, x2, x);
                            assert(self.state.pedestrians@
                                == spec_remove_ped(pre.state.pedestrians@, id));
                        } else {
                            assert(self.state.pedestrians == pre.state.pedestrians);
                            assert(self.state.vehicles == pre.state.vehicles);
                            assert(self.wf());
                            assert(forall|k: int| !spec_is_first_ped_with_id(
                                pre.state.pedestrians@, id, k));
                            assert(self.state.pedestrians@
                                == spec_remove_ped(pre.state.pedestrians@, id));
                        }
                    }
                },
                _ => {
                },
            }
            proof {
                assert(spec_apply_ped_exits(o.state.pedestrians@, evs@, q2 as int + 1)
                    == match evs@[q2 as int].1 {
                        EventType::PedestrianExit(id) => spec_remove_ped(
                            spec_apply_ped_exits(o.state.pedestrians@, evs@,
                                q2 as int), id),
                        _ => spec_apply_ped_exits(o.state.pedestrians@, evs@,
                            q2 as int),
                    });
            }
            q2 = q2 + 1;
        }
        let stop_present = contains_stop(&evs);
        if !stop_present {
            if contains_vehicle_arrival(&evs) {
                let ghost pre = *self;
                self.handle_event(EventType::VehicleArrival);
                proof {
                    assert forall|x: int| 0 <= x < self.state.vehicles@.len()
                        implies {
                            let v = #[trigger] self.state.vehicles@[x];
                            &&& v.wf()
                            &&& v.speed <= MAX_SPEED
                            &&& v.id < self.veh_counter
                            &&& v.position <= MAX_ROAD_LENGTH + 15 * self.state.timestamp
                        } by {
                        if x < pre.state.vehicles@.len() {
                            assert(pre.state.vehicles@[x].wf());
                            assert(pre.state.vehicles@[x].speed <= MAX_SPEED);
                        }
                    }
                    assert forall|x: int, y: int|
                        0 <= x < y < self.state.vehicles@.len()
                        implies (#[trigger] self.state.vehicles@[x]).id
                            < (#[trigger] self.state.vehicles@[y]).id by {
                        if y < pre.state.vehicles@.len() {
                            assert(pre.state.vehicles@[x].id
                                < pre.state.vehicles@[y].id);
                        } else {
                            assert(pre.state.vehicles@[x].id < pre.veh_counter);
                        }
                    }
                    assert(self.wf());
                }
            }
            if contains_pedestrian_arrival(&evs) {
                if self.road.get_crossings(&Direction::Up).len() == 0 {
                    proof {
                        assert(!spec_has_stop(evs@)
                            && spec_has_pedestrian_arrival(evs@)
                            && o.road.num_crossings() == 0);
                    }
                    return Err(KernelError::NoCrossings);
                }
                let ghost pre = *self;
                self.handle_event(EventType::PedestrianArrival);
                proof {
                    let p = self.state.pedestrians@.last();
                    let c = choose|c: int| 0 <= c < pre.road.num_crossings()
                        && *p.location == (#[trigger] pre.road.up_seq()[c]).0;
                    assert((*p.location).spec_id() as int == c);
                    assert(0 <= (*p.location).spec_stop_ms()
                        <= crate::pedestrian::MAX_TIME);
                    assert forall|x: int| 0 <= x < self.state.pedestrians@.len()
                        implies {
                            let pd = #[trigger] self.state.pedestrians@[x];
                            &&& pd.wf()
                            &&& 0 <= (*pd.location).spec_id() < self.road.num_crossings()
                            &&& self.state.timestamp <= pd.spec_exit_time()
                            &&& pd.arrival_time <= self.state.timestamp
                            &&& pd.id < self.ped_counter
                        } by {
                        if x < pre.state.pedestrians@.len() {
                            assert(self.state.pedestrians@[x]
                                == pre.state.pedestrians@[x]);
                            assert(pre.state.pedestrians@[x].wf());
                            assert(0 <= (*pre.state.pedestrians@[x].location).spec_id()
                                < pre.road.num_crossings());
                            assert(pre.state.timestamp
                                <= pre.state.pedestrians@[x].spec_exit_time());
                            assert(pre.state.pedestrians@[x].arrival_time
                                <= pre.state.timestamp);
                            assert(pre.state.pedestrians@[x].id < pre.ped_counter);
                        }
                    }
                    assert(self.wf());
                }
            }
        }
        proof {
            assert(evs@[0].0 == m);
            assert(rolled == crate::state::spec_advanced_vehicles(
                o.state.vehicles@, evs@[0].0 - o.state.timestamp));
            assert(after_continuous
                == spec_apply_continuous(rolled, evs@, evs@.len() as int));
            assert(nv0 as int == rolled.len());
            assert(self.state.vehicles@ == spec_step_vehicles(o, evs@));
            assert(!(!spec_has_stop(evs@) && spec_has_pedestrian_arrival(evs@)
                && o.road.num_crossings() == 0));
        }
        if !check_no_overtaking(self.state.get_vehicles()) {
            return Err(KernelError::Overtaking);
        }
        Ok(evs)
    }

    /// Runs kernel iterations until the clock reaches the end time or the
    /// step budget runs out.  The outcome says whether the end time was
    /// reached and how many iterations ran: the flag holds exactly when
    /// the clock stands at the end time, and a run that falls short has
    /// spent its whole budget.  An error is a breach one of the steps
    /// detected: `Overtaking` leaves the offending state in place, and
    /// `NoCrossings` can only arise on a road without crossings.
    pub fn run(&mut self, max_steps: u64) -> (r: Result<(bool, u64), KernelError>)
        requires
            old(self).wf(),
            old(self).state.vehicles@.len() + max_steps < usize::MAX,
            old(self).state.pedestrians@.len() + max_steps < usize::MAX,
            old(self).veh_counter + max_steps < u64::MAX,
            old(self).ped_counter + max_steps < u64::MAX,
            old(self).road.num_crossings() <= 1_000_000,
        ensures
            EventDrivenSim::spec_frame(*old(self), *final(self)),
            match r {
                Ok(outcome) => {
                    &&& final(self).wf()
                    &&& outcome.1 <= max_steps
                    &&& (outcome.0 <==> final(self).state.timestamp
                            == final(self).end_time)
                    &&& (!outcome.0 ==> outcome.1 == max_steps)
                },
                Err(e) => e == KernelError::Overtaking || e == KernelError::NoCrossings,
            },
            r == Err::<(bool, u64), KernelError>(KernelError::Overtaking) ==>
                !spec_no_overtaking(final(self).state.vehicles@),
            r == Err::<(bool, u64), KernelError>(KernelError::NoCrossings) ==>
                final(self).road.num_crossings() == 0,
    {
        let mut steps: u64 = 0;
        while steps < max_steps && self.state.timestamp() < self.end_time
            invariant
                self.wf(),
                steps <= max_steps,
                self.state.vehicles@.len() + (max_steps - steps) < usize::MAX,
                self.state.pedestrians@.len() + (max_steps - steps) < usize::MAX,
                self.veh_counter + (max_steps - steps) < u64::MAX,
                self.ped_counter + (max_steps - steps) < u64::MAX,
                self.road.num_crossings() <= 1_000_000,
                EventDrivenSim::spec_frame(*old(self), *self),
            ensures
                self.wf(),
                EventDrivenSim::spec_frame(*old(self), *self),
                steps <= max_steps,
                steps >= max_steps || self.state.timestamp >= self.end_time,
            decreases max_steps - steps,
        {
            match self.step() {
                Ok(_) => {
                },
                Err(e) => {
                    return Err(e);
                },
            }
            steps = steps + 1;
        }
        if self.state.timestamp() >= self.end_time {
            proof {
                assert(self.state.timestamp == self.end_time);
            }
            Ok((true, steps))
        } else {
            Ok((false, steps))
        }
    }
}

/// Spatial tolerance of the gap test, in millimetres: the distance the
/// fastest vehicle covers in the millisecond lost to event rounding.
pub const GAP_TOLERANCE: i64 = 14;

impl EventDrivenSim {
    /// Every vehicle is at least its buffer (less the rounding tolerance)
    /// behind every active obstacle ahead of it: other vehicles in its
    /// direction, and active pedestrians' crossings.
    pub open spec fn spec_gaps_respected(&self) -> bool {
        &&& forall|i: int, j: int| 0 <= i < self.state.vehicles@.len()
                && 0 <= j < self.state.vehicles@.len()
                && (#[trigger] self.state.vehicles@[i]).id
                    != (#[trigger] self.state.vehicles@[j]).id
                && self.state.vehicles@[i].direction == self.state.vehicles@[j].direction
                && self.state.vehicles@[j].position >= self.state.vehicles@[i].position
                ==> self.state.vehicles@[j].position - self.state.vehicles@[i].position
                        >= self.state.vehicles@[i].buffer_zone - GAP_TOLERANCE
        &&& forall|i: int, k: int| 0 <= i < self.state.vehicles@.len()
                && 0 <= k < self.state.pedestrians@.len()
                && ((#[trigger] self.state.pedestrians@[k]).arrival_time
                    <= self.state.timestamp
                    < self.state.pedestrians@[k].spec_exit_time())
                && self.road.spec_crossing_position(
                        (*self.state.pedestrians@[k].location).spec_id() as int,
                        (#[trigger] self.state.vehicles@[i]).direction)
                    >= self.state.vehicles@[i].position
                ==> self.road.spec_crossing_position(
                        (*self.state.pedestrians@[k].location).spec_id() as int,
                        self.state.vehicles@[i].direction)
                        - self.state.vehicles@[i].position
                    >= self.state.vehicles@[i].buffer_zone - GAP_TOLERANCE
    }

    /// Checks the safety margins of the current snapshot; see
    /// `spec_gaps_respected`.
    pub fn check_min_gaps(&self) -> (r: bool)
        requires
            self.wf(),
        ensures
            r <==> self.spec_gaps_respected(),
    {
        let nv = self.state.get_vehicles().len();
        let np = self.state.get_pedestrians().len();
        let now = self.state.timestamp();
        let mut i: usize = 0;
        while i < nv
            invariant
                self.wf(),
                now == self.state.timestamp,
                nv == self.state.vehicles@.len(),
                np == self.state.pedestrians@.len(),
                i <= nv,
                forall|a: int, b: int| 0 <= a < i && 0 <= b < nv
                    && (#[trigger] self.state.vehicles@[a]).id
                        != (#[trigger] self.state.vehicles@[b]).id
                    && self.state.vehicles@[a].direction
                        == self.state.vehicles@[b].direction
                    && self.state.vehicles@[b].position
                        >= self.state.vehicles@[a].position
                    ==> self.state.vehicles@[b].position
                            - self.state.vehicles@[a].position
                        >= self.state.vehicles@[a].buffer_zone - GAP_TOLERANCE,
                forall|a: int, k: int| 0 <= a < i && 0 <= k < np
                    && ((#[trigger] self.state.pedestrians@[k]).arrival_time <= now
                        < self.state.pedestrians@[k].spec_exit_time())
                    && self.road.spec_crossing_position(
                            (*self.state.pedestrians@[k].location).spec_id() as int,
                            (#[trigger] self.state.vehicles@[a]).direction)
                        >= self.state.vehicles@[a].position
                    ==> self.road.spec_crossing_position(
                            (*self.state.pedestrians@[k].location).spec_id() as int,
                            self.state.vehicles@[a].direction)
                            - self.state.vehicles@[a].position
                        >= self.state.vehicles@[a].buffer_zone - GAP_TOLERANCE,
            decreases nv - i,
        {
            let v = self.state.get_vehicle(i);
            proof {
                assert(self.state.vehicles@[i as int].wf());
            }
            let mut j: usize = 0;
            while j < nv
                invariant
                    self.wf(),
                    nv == self.state.vehicles@.len(),
                    i < nv,
                    j <= nv,
                    v == self.state.vehicles@[i as int],
                    v.wf(),
                    forall|b: int| 0 <= b < j
                        && (#[trigger] self.state.vehicles@[b]).id != v.id
                        && self.state.vehicles@[b].direction == v.direction
                        && self.state.vehicles@[b].position >= v.position
                        ==> self.state.vehicles@[b].position - v.position
                            >= v.buffer_zone - GAP_TOLERANCE,
                decreases nv - j,
            {
                let w = self.state.get_vehicle(j);
                proof {
                    assert(self.state.vehicles@[j as int].wf());
                }
                if w.id != v.id
                    && crate::vehicle::direction_eq(w.direction, v.direction)
                    && w.position >= v.position
                    && w.position - v.position < v.buffer_zone - GAP_TOLERANCE {
                    return false;
                }
                j = j + 1;
            }
            let mut k: usize = 0;
            while k < np
                invariant
                    self.wf(),
                    now == self.state.timestamp,
                    nv == self.state.vehicles@.len(),
                    np == self.state.pedestrians@.len(),
                    i < nv,
                    k <= np,
                    v == self.state.vehicles@[i as int],
                    v.wf(),
                    forall|kk: int| 0 <= kk < k
                        && ((#[trigger] self.state.pedestrians@[kk]).arrival_time <= now
                            < self.state.pedestrians@[kk].spec_exit_time())
                        && self.road.spec_crossing_position(
                                (*self.state.pedestrians@[kk].location).spec_id() as int,
                                v.direction)
                            >= v.position
                        ==> self.road.spec_crossing_position(
                                (*self.state.pedestrians@[kk].location).spec_id() as int,
                                v.direction) - v.position
                            >= v.buffer_zone - GAP_TOLERANCE,
                decreases np - k,
            {
                let p = self.state.get_pedestrian(k);
                proof {
                    assert(self.state.pedestrians@[k as int].wf());
                    assert(0 <= (*self.state.pedestrians@[k as int].location).spec_id()
                        < self.road.num_crossings());
                }
                if p.is_active(now) {
                    let cpos = p.location.get_position(&self.road, &v.direction);
                    if cpos >= v.position && cpos - v.position
                        < v.buffer_zone - GAP_TOLERANCE {
                        return false;
                    }
                }
                k = k + 1;
            }
            i = i + 1;
        }
        true
    }
}

/// Checks the no-overtaking invariant of the vehicle list.
pub fn check_no_overtaking(vehicles: &Vec<Car>) -> (r: bool)
    ensures
        r <==> spec_no_overtaking(vehicles@),
{
    let n = vehicles.len();
    let mut a: usize = 0;
    while a < n
        invariant
            n == vehicles@.len(),
            a <= n,
            forall|i: int, j: int| 0 <= i < j < n && i < a
                && (#[trigger] vehicles@[i]).direction
                    == (#[trigger] vehicles@[j]).direction
                ==> vehicles@[i].position >= vehicles@[j].position,
        decreases n - a,
    {
        let mut b: usize = a + 1;
        while b < n
            invariant
                n == vehicles@.len(),
                a < n,
                a + 1 <= b <= n,
                forall|j: int| a < j < b
                    && (#[trigger] vehicles@[j]).direction == vehicles@[a as int].direction
                    ==> vehicles@[a as int].position >= vehicles@[j].position,
            decreases n - b,
        {
            if crate::vehicle::direction_eq(vehicles[a].direction, vehicles[b].direction)
                && vehicles[a].position < vehicles[b].position {
                return false;
            }
            b = b + 1;
        }
        a = a + 1;
    }
    true
}

} // verus!
