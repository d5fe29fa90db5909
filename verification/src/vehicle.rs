use vstd::prelude::*;
use crate::ID;
use crate::time::TimeDelta;
use crate::road::{Crossing, Direction, Road};
use crate::pedestrian::Pedestrian;
use crate::obstacle::{Obstacle, MAX_COORD, SPEED_BOUND, MAX_GAP};
use crate::numeric::round_nearest;
use crate::numeric::div_round_nearest_i128;
use crate::numeric::lemma_round_nearest_bounds;

verus! {

/// The speed cap, in millimetres per second (13.41 m/s).
pub const MAX_SPEED: i64 = 13_410;

/// Acceleration while in the `Accelerate` mode, in mm/s^2 (+3 m/s^2).
pub const ACCELERATION_VALUE: i64 = 3_000;

/// Acceleration while in the `Deccelerate` mode, in mm/s^2 (-4 m/s^2).
pub const DECCELERATION_VALUE: i64 = -4_000;

/// Length of a car, in millimetres.
pub const CAR_LENGTH: i64 = 4_000;

/// Minimum acceptable gap to any obstacle, in millimetres.
pub const CAR_BUFFER_ZONE: i64 = 1_000;

/// Control mode of a vehicle; the acceleration is derived from it.
#[derive(Debug, Clone, Copy, PartialEq, Eq, Structural)]
pub enum Action {
    Accelerate,
    Deccelerate,
    StaticSpeed,
}

/// The acceleration that a control mode sets.
pub open spec fn spec_action_acceleration(action: Action) -> int {
    match action {
        Action::Accelerate => ACCELERATION_VALUE as int,
        Action::Deccelerate => DECCELERATION_VALUE as int,
        Action::StaticSpeed => 0,
    }
}

/// Acceleration per millisecond: accelerations are multiples of 1000, so
/// this is exact.
pub open spec fn per_ms(a: int) -> int {
    a / 1000
}

/// Whether a vehicle rolling forward by `dt` milliseconds from speed `v`
/// under acceleration `a` would come to rest strictly within the span.
pub open spec fn spec_stops_within(v: int, a: int, dt: int) -> bool {
    a < 0 && 1000 * v <= (-a) * dt
}

/// Speed after rolling forward by `dt` milliseconds: `v + a dt`, clamped at
/// zero where a deceleration reaches rest within the span.
pub open spec fn spec_rolled_speed(v: int, a: int, dt: int) -> int {
    if spec_stops_within(v, a, dt) {
        0
    } else {
        v + per_ms(a) * dt
    }
}

/// Displacement over `dt` milliseconds: the fixed-point rounding of
/// `v dt + a dt^2 / 2`, with the span clamped at the stopping instant where
/// a deceleration reaches rest.
pub open spec fn spec_displacement(v: int, a: int, dt: int) -> int {
    if spec_stops_within(v, a, dt) {
        round_nearest(v * v, 2 * (-a))
    } else {
        round_nearest(2000 * v * dt + a * dt * dt, 2_000_000)
    }
}

/// The car as it stands after rolling forward by `dt` milliseconds.
pub open spec fn spec_rolled(car: Car, dt: int) -> Car {
    Car {
        position: (car.position + spec_displacement(
            car.speed as int, car.acceleration as int, dt)) as i64,
        speed: spec_rolled_speed(car.speed as int, car.acceleration as int, dt) as i64,
        ..car
    }
}

/// Rolling forward by nothing changes nothing: advancing by `dt` and then
/// by zero is advancing by `dt` alone.
pub proof fn lemma_roll_zero(car: Car)
    requires
        car.speed >= 0,
    ensures
        spec_rolled(car, 0) == car,
{
    if spec_stops_within(car.speed as int, car.acceleration as int, 0) {
        assert(car.speed == 0) by (nonlinear_arith)
            requires 1000 * car.speed <= 0, car.speed >= 0;
        assert(round_nearest(0, 2 * (-(car.acceleration as int))) == 0) by {
            vstd::arithmetic::div_mod::lemma_fundamental_div_mod(
                2 * 0 + 2 * (-(car.acceleration as int)),
                2 * (2 * (-(car.acceleration as int))));
            let q = 2 * (-(car.acceleration as int));
            assert(q / (2 * q) == 0) by (nonlinear_arith) requires q > 0;
        }
    } else {
        assert(2000 * (car.speed as int) * 0 + (car.acceleration as int) * 0 * 0 == 0)
            by (nonlinear_arith);
        assert(round_nearest(0, 2_000_000) == 0) by {
            assert(2_000_000int / 4_000_000 == 0);
        }
        assert((car.speed as int) + per_ms(car.acceleration as int) * 0
            == car.speed) by (nonlinear_arith);
    }
}

/// A car on the road.  Positions are millimetres along the car's own
/// direction of travel; speeds mm/s; accelerations mm/s^2.
#[derive(Debug, Clone, Copy)]
pub struct Car {
    pub id: ID,
    pub length: i64,
    pub buffer_zone: i64,
    pub direction: Direction,
    pub position: i64,
    pub speed: i64,
    pub acceleration: i64,
}

impl Car {
    pub open spec fn wf(&self) -> bool {
        &&& 0 <= self.position <= MAX_COORD
        &&& 0 <= self.speed <= SPEED_BOUND
        &&& (self.acceleration == ACCELERATION_VALUE || self.acceleration == 0
                || self.acceleration == DECCELERATION_VALUE)
        &&& 0 <= self.length <= MAX_GAP
        &&& 0 <= self.buffer_zone <= MAX_GAP
    }

    pub fn new(id: ID, direction: Direction, speed: i64, action: Action) -> (car: Car)
        requires
            0 <= speed <= SPEED_BOUND,
        ensures
            car.id == id,
            car.direction == direction,
            car.speed == speed,
            car.position == 0,
            car.length == CAR_LENGTH,
            car.buffer_zone == CAR_BUFFER_ZONE,
            car.acceleration == spec_action_acceleration(action),
            car.wf(),
    {
        let mut car = Car {
            id,
            position: 0,
            length: CAR_LENGTH,
            buffer_zone: CAR_BUFFER_ZONE,
            direction,
            speed,
            acceleration: 0,
        };
        car.action(action);
        car
    }

    /// Sets the control mode and the acceleration derived from it.
    pub fn action(&mut self, action: Action)
        ensures
            *final(self) == (Car {
                acceleration: spec_action_acceleration(action) as i64,
                ..*old(self)
            }),
    {
        match action {
            Action::Accelerate => self.acceleration = ACCELERATION_VALUE,
            Action::Deccelerate => self.acceleration = DECCELERATION_VALUE,
            Action::StaticSpeed => self.acceleration = 0,
        };
    }

    pub fn get_id(&self) -> (r: ID)
        ensures r == self.id,
    {
        self.id
    }

    pub fn set_id(&mut self, id: ID)
        ensures *final(self) == (Car { id, ..*old(self) }),
    {
        self.id = id;
    }

    pub fn get_length(&self) -> (r: i64)
        ensures r == self.length,
    {
        self.length
    }

    pub fn get_buffer_zone(&self) -> (r: i64)
        ensures r == self.buffer_zone,
    {
        self.buffer_zone
    }

    pub fn get_direction(&self) -> (r: Direction)
        ensures r == self.direction,
    {
        self.direction
    }

    pub fn get_veh_position(&self) -> (r: i64)
        ensures r == self.position,
    {
        self.position
    }

    pub fn set_position(&mut self, position: i64)
        ensures *final(self) == (Car { position, ..*old(self) }),
    {
        self.position = position;
    }

    pub fn get_speed(&self) -> (r: i64)
        ensures r == self.speed,
    {
        self.speed
    }

    pub fn set_speed(&mut self, speed: i64)
        ensures *final(self) == (Car { speed, ..*old(self) }),
    {
        self.speed = speed;
    }

    pub fn get_acceleration(&self) -> (r: i64)
        ensures r == self.acceleration,
    {
        self.acceleration
    }

    /// This car seen as an obstacle by a follower in the same direction.
    /// Its occupied length is not added to the gap: the buffer convention
    /// measures from the follower's front to the obstacle's position.
    pub fn as_obstacle(&self) -> (o: Obstacle)
        ensures
            o == (Obstacle {
                position: self.position,
                speed: self.speed,
                acceleration: self.acceleration,
                length: 0,
            }),
    {
        Obstacle {
            position: self.position,
            speed: self.speed,
            acceleration: self.acceleration,
            length: 0,
        }
    }

    /// Advances position and speed by `x += v dt + a dt^2 / 2`,
    /// `v += a dt`.  A deceleration is cut off at the instant speed
    /// reaches zero, so speed never becomes negative.
    pub fn roll_forward_by(&mut self, time_delta: TimeDelta)
        requires
            old(self).wf(),
            0 <= time_delta.0 <= MAX_TIME_DELTA,
            old(self).speed <= MAX_SPEED,
            old(self).acceleration > 0 ==>
                old(self).speed + per_ms(old(self).acceleration as int) * time_delta.0
                    <= MAX_SPEED,
        ensures
            final(self).speed == spec_rolled_speed(
                old(self).speed as int, old(self).acceleration as int, time_delta.0 as int),
            final(self).position == old(self).position + spec_displacement(
                old(self).speed as int, old(self).acceleration as int, time_delta.0 as int),
            final(self).id == old(self).id,
            final(self).length == old(self).length,
            final(self).buffer_zone == old(self).buffer_zone,
            final(self).direction == old(self).direction,
            final(self).acceleration == old(self).acceleration,
            0 <= final(self).speed <= MAX_SPEED,
            old(self).position <= final(self).position
                <= old(self).position + 14 * time_delta.0 + 1,
            time_delta.0 == 0 ==> final(self).position == old(self).position,
            *final(self) == spec_rolled(*old(self), time_delta.0 as int),
    {
        let dt = time_delta.0;
        let v = self.speed;
        let a = self.acceleration;
        proof {
            lemma_displacement_bounds(v as int, a as int, dt as int);
            if a < 0 {
                assert(0 <= (-(a as int)) * (dt as int) <= 4000 * MAX_TIME_DELTA)
                    by (nonlinear_arith)
                    requires a == -4000, 0 <= dt <= MAX_TIME_DELTA;
            }
        }
        if a < 0 && 1000 * v <= (-a) * dt {
            proof {
                assert((v as int) * (v as int) <= 13_410 * 13_410) by (nonlinear_arith)
                    requires 0 <= v <= 13_410;
            }
            let d = div_round_nearest_i128(
                (v as i128) * (v as i128),
                2 * (-(a as i128)),
            );
            self.position = self.position + (d as i64);
            self.speed = 0;
        } else {
            proof {
                lemma_roll_numerator_in_range(v as int, a as int, dt as int);
                assert(0 <= 2000 * (v as int) * (dt as int)
                    <= 2000 * 13_410 * MAX_TIME_DELTA) by (nonlinear_arith)
                    requires 0 <= v <= 13_410, 0 <= dt <= MAX_TIME_DELTA;
                assert(-4000 * MAX_TIME_DELTA <= (a as int) * (dt as int)
                    <= 3000 * MAX_TIME_DELTA) by (nonlinear_arith)
                    requires -4000 <= a <= 3000, 0 <= dt <= MAX_TIME_DELTA;
                assert(
                    -4000 * MAX_TIME_DELTA * MAX_TIME_DELTA
                    <= (a as int) * (dt as int) * (dt as int)
                    <= 3000 * MAX_TIME_DELTA * MAX_TIME_DELTA
                ) by (nonlinear_arith)
                    requires
                        -4000 * MAX_TIME_DELTA <= (a as int) * (dt as int)
                            <= 3000 * MAX_TIME_DELTA,
                        0 <= dt <= MAX_TIME_DELTA;
            }
            let num: i128 = 2000 * (v as i128) * (dt as i128)
                + (a as i128) * (dt as i128) * (dt as i128);
            let d = div_round_nearest_i128(num, 2_000_000);
            self.position = self.position + (d as i64);
            let step: i64 = a.checked_div_euclid(1000).unwrap();
            self.speed = v + step * dt;
        }
    }
}

impl Car {
    /// Negative relative position means the obstacle is in front.
    pub fn relative_position(&self, obstacle: &Obstacle) -> (r: i64)
        requires
            self.wf(),
            obstacle.wf(),
            self.position <= obstacle.position,
        ensures
            r == self.position - obstacle.position,
            r <= 0,
    {
        self.position - obstacle.position
    }

    /// Negative relative position means the other vehicle is in front.
    pub fn relative_veh_position(&self, vehicle: &Car) -> (r: i64)
        requires
            self.wf(),
            vehicle.wf(),
            self.position <= vehicle.position,
        ensures
            r == self.position - vehicle.position,
            r <= 0,
    {
        self.position - vehicle.position
    }

    /// Positive relative speed means this car is faster than the obstacle.
    pub fn relative_speed(&self, obstacle: &Obstacle) -> (r: i64)
        requires
            self.wf(),
            obstacle.wf(),
        ensures
            r == self.speed - obstacle.speed,
    {
        self.speed - obstacle.speed
    }

    pub fn relative_acceleration(&self, obstacle: &Obstacle) -> (r: i64)
        requires
            self.wf(),
            obstacle.wf(),
        ensures
            r == self.acceleration - obstacle.acceleration,
    {
        self.acceleration - obstacle.acceleration
    }

    /// The nearest crossing at or ahead of this car's position, in its own
    /// direction of travel, with that direction's position.
    pub fn next_crossing(&self, road: &Road) -> (r: Option<(Crossing, i64)>)
        requires
            road.wf(),
        ensures
            match r {
                Some(cp) => exists|i: int|
                    0 <= i < road.dir_seq(self.direction).len()
                        && #[trigger] road.dir_seq(self.direction)[i] == cp
                        && cp.1 >= self.position
                        && forall|j: int| 0 <= j < i ==>
                            (#[trigger] road.dir_seq(self.direction)[j]).1 < self.position,
                None => forall|j: int|
                    0 <= j < road.dir_seq(self.direction).len() ==>
                        (#[trigger] road.dir_seq(self.direction)[j]).1 < self.position,
            },
    {
        let crossings = road.get_crossings(&self.direction);
        let n = crossings.len();
        let mut i: usize = 0;
        while i < n
            invariant
                n == road.dir_seq(self.direction).len(),
                crossings@ == road.dir_seq(self.direction),
                i <= n,
                forall|j: int| 0 <= j < i ==>
                    (#[trigger] road.dir_seq(self.direction)[j]).1 < self.position,
            decreases n - i,
        {
            let (crossing, position) = crossings[i];
            if position >= self.position {
                return Some((crossing, position));
            }
            i = i + 1;
        }
        None
    }

    /// Whether `vehicles[j]` stands ahead of this car in its own direction.
    pub open spec fn spec_is_ahead(&self, vehicles: Seq<Car>, j: int) -> bool {
        &&& 0 <= j < vehicles.len()
        &&& vehicles[j].id != self.id
        &&& vehicles[j].direction == self.direction
        &&& vehicles[j].position >= self.position
    }

    /// The nearest vehicle ahead in the same direction: the one with the
    /// least position at or beyond this car's own, earliest slot first.
    pub fn next_vehicle(&self, vehicles: &Vec<Car>) -> (r: Option<usize>)
        ensures
            match r {
                Some(j) => {
                    &&& self.spec_is_ahead(vehicles@, j as int)
                    &&& forall|k: int| self.spec_is_ahead(vehicles@, k) ==>
                            vehicles@[j as int].position <= #[trigger] vehicles@[k].position
                    &&& forall|k: int| self.spec_is_ahead(vehicles@, k)
                            && vehicles@[k].position == vehicles@[j as int].position
                            ==> j <= k
                },
                None => forall|k: int| !self.spec_is_ahead(vehicles@, k),
            },
    {
        let n = vehicles.len();
        let mut best: Option<usize> = None;
        let mut k: usize = 0;
        while k < n
            invariant
                n == vehicles@.len(),
                k <= n,
                match best {
                    Some(b) => {
                        &&& self.spec_is_ahead(vehicles@, b as int)
                        &&& b < k
                        &&& forall|m: int| m < k && self.spec_is_ahead(vehicles@, m) ==>
                                vehicles@[b as int].position
                                    <= #[trigger] vehicles@[m].position
                        &&& forall|m: int| m < k && self.spec_is_ahead(vehicles@, m)
                                && vehicles@[m].position == vehicles@[b as int].position
                                ==> b <= m
                    },
                    None => forall|m: int| m < k ==> !self.spec_is_ahead(vehicles@, m),
                },
            decreases n - k,
        {
            let candidate = vehicles[k].id != self.id
                && direction_eq(vehicles[k].direction, self.direction)
                && vehicles[k].position >= self.position;
            if candidate {
                match best {
                    Some(b) => {
                        if vehicles[k].position < vehicles[b].position {
                            best = Some(k);
                        }
                    },
                    None => {
                        best = Some(k);
                    },
                }
            }
            k = k + 1;
        }
        best
    }

    /// Whether `ped` is an obstacle for this car at instant `now`: active
    /// and at a crossing at or ahead of the car's position.
    pub open spec fn spec_ped_blocks(
        &self, road: Road, ped: Pedestrian, now: int) -> bool {
        &&& ped.arrival_time <= now < ped.spec_exit_time()
        &&& road.spec_crossing_position((*ped.location).spec_id() as int, self.direction)
                >= self.position
    }

    /// The first active pedestrian whose crossing lies at or ahead of this
    /// car, in arrival order.
    pub fn next_pedestrian(
        &self,
        road: &Road,
        pedestrians: &Vec<Pedestrian>,
        now: crate::Time,
    ) -> (r: Option<usize>)
        requires
            road.wf(),
            forall|j: int| 0 <= j < pedestrians@.len() ==> (#[trigger] pedestrians@[j]).wf(),
            forall|j: int| 0 <= j < pedestrians@.len() ==>
                0 <= (*(#[trigger] pedestrians@[j]).location).spec_id()
                    < road.num_crossings(),
        ensures
            match r {
                Some(i) => {
                    &&& 0 <= i < pedestrians@.len()
                    &&& self.spec_ped_blocks(*road, pedestrians@[i as int], now as int)
                    &&& forall|j: int| 0 <= j < i ==>
                            !self.spec_ped_blocks(*road, #[trigger] pedestrians@[j], now as int)
                },
                None => forall|j: int| 0 <= j < pedestrians@.len() ==>
                    !self.spec_ped_blocks(*road, #[trigger] pedestrians@[j], now as int),
            },
    {
        let n = pedestrians.len();
        let mut i: usize = 0;
        while i < n
            invariant
                n == pedestrians@.len(),
                i <= n,
                road.wf(),
                forall|j: int| 0 <= j < pedestrians@.len() ==>
                    (#[trigger] pedestrians@[j]).wf(),
                forall|j: int| 0 <= j < pedestrians@.len() ==>
                    0 <= (*(#[trigger] pedestrians@[j]).location).spec_id()
                        < road.num_crossings(),
                forall|j: int| 0 <= j < i ==>
                    !self.spec_ped_blocks(*road, #[trigger] pedestrians@[j], now as int),
            decreases n - i,
        {
            let ped = &pedestrians[i];
            if ped.is_active(now) {
                let pos = ped.location.get_position(road, &self.direction);
                if pos >= self.position {
                    return Some(i);
                }
            }
            i = i + 1;
        }
        None
    }
}

/// A vehicle holding its speed moves by exactly its speed times the
/// span: with zero acceleration the position after `dt` milliseconds is
/// the old one plus the fixed-point rounding of `v dt`, and the speed is
/// unchanged.
pub proof fn lemma_static_speed_displacement(car: Car, dt: int)
    requires
        car.wf(),
        car.acceleration == 0,
        car.speed <= MAX_SPEED,
        0 <= dt <= MAX_TIME_DELTA,
    ensures
        spec_rolled(car, dt).position
            == car.position + round_nearest(car.speed * dt, 1000),
        spec_rolled(car, dt).speed == car.speed,
{
    lemma_displacement_bounds(car.speed as int, car.acceleration as int, dt);
    let p = car.speed as int * dt;
    assert(2000 * car.speed * dt + car.acceleration * dt * dt == 2000 * p)
        by (nonlinear_arith)
        requires p == car.speed * dt, car.acceleration == 0;
    assert(2000 * car.speed * dt == 2000 * p) by (nonlinear_arith)
        requires p == car.speed * dt;
    assert(0 * dt * dt == 0) by (nonlinear_arith);
    assert(round_nearest(2000 * p, 2_000_000) == round_nearest(p, 1000)) by {
        let r = round_nearest(p, 1000);
        vstd::arithmetic::div_mod::lemma_fundamental_div_mod(2 * p + 1000, 2000);
        vstd::arithmetic::div_mod::lemma_mod_bound(2 * p + 1000, 2000);
        let rem = (2 * p + 1000) % 2000;
        assert(2 * p + 1000 == 2000 * r + rem);
        assert(2 * (2000 * p) + 2_000_000 == 2 * 2_000_000 * r + 2000 * rem)
            by (nonlinear_arith)
            requires 2 * p + 1000 == 2000 * r + rem;
        vstd::arithmetic::div_mod::lemma_fundamental_div_mod_converse(
            2 * (2000 * p) + 2_000_000, 2int * 2_000_000, r, 2000 * rem);
    }
    assert(per_ms(0int) == 0);
    assert(car.speed + 0 * dt == car.speed) by (nonlinear_arith);
}

/// Equality of directions, usable from executable code.
pub fn direction_eq(a: Direction, b: Direction) -> (r: bool)
    ensures
        r <==> a == b,
{
    match (a, b) {
        (Direction::Up, Direction::Up) => true,
        (Direction::Down, Direction::Down) => true,
        _ => false,
    }
}

/// Upper bound on a single time step, in milliseconds.
pub const MAX_TIME_DELTA: i64 = 1_000_000_000_000;

/// In the unclamped branch with nonzero acceleration the step is short
/// (the speed cap bounds an acceleration, the stopping instant bounds a
/// deceleration), so the displacement numerator stays small.
proof fn lemma_roll_numerator_in_range(v: int, a: int, dt: int)
    requires
        0 <= v <= MAX_SPEED,
        a == ACCELERATION_VALUE || a == 0 || a == DECCELERATION_VALUE,
        0 <= dt <= MAX_TIME_DELTA,
        a > 0 ==> v + per_ms(a) * dt <= MAX_SPEED,
        !spec_stops_within(v, a, dt) || a >= 0,
    ensures
        -0x1000_0000_0000_0000_0000_0000_0000_0000 < 2000 * v * dt + a * dt * dt
            < 0x1000_0000_0000_0000_0000_0000_0000_0000,
{
    if a > 0 {
        assert(per_ms(a) == 3);
        assert(dt <= 4470) by (nonlinear_arith)
            requires v + 3 * dt <= MAX_SPEED, 0 <= v, MAX_SPEED == 13_410;
        assert(2000 * v * dt + a * dt * dt <= 2000 * 13_410 * 4470 + 3000 * 4470 * 4470)
            by (nonlinear_arith)
            requires 0 <= v <= 13_410, 0 <= dt <= 4470, a == 3000;
        assert(2000 * v * dt + a * dt * dt >= 0) by (nonlinear_arith)
            requires 0 <= v, 0 <= dt, a == 3000;
    } else if a < 0 {
        assert(1000 * v > (-a) * dt);
        assert(dt <= 4000) by (nonlinear_arith)
            requires 1000 * v > 4000 * dt, 0 <= v <= 13_410, a == -4000, -a == 4000;
        assert(0 <= 2000 * v * dt + a * dt * dt <= 2000 * 13_410 * 4000)
            by (nonlinear_arith)
            requires 0 <= v <= 13_410, 0 <= dt, 1000 * v > 4000 * dt, a == -4000;
    } else {
        assert(0 <= 2000 * v * dt <= 2000 * 13_410 * MAX_TIME_DELTA) by (nonlinear_arith)
            requires 0 <= v <= 13_410, 0 <= dt <= MAX_TIME_DELTA;
    }
}

/// The displacement of one roll is non-negative, at most `14 dt + 1`
/// millimetres for a vehicle within the speed cap, and zero for `dt == 0`.
pub proof fn lemma_displacement_bounds(v: int, a: int, dt: int)
    requires
        0 <= v <= MAX_SPEED,
        a == ACCELERATION_VALUE || a == 0 || a == DECCELERATION_VALUE,
        0 <= dt <= MAX_TIME_DELTA,
        a > 0 ==> v + per_ms(a) * dt <= MAX_SPEED,
    ensures
        0 <= spec_displacement(v, a, dt) <= 14 * dt + 1,
        dt == 0 ==> spec_displacement(v, a, dt) == 0,
        0 <= spec_rolled_speed(v, a, dt),
        spec_rolled_speed(v, a, dt) <= if a > 0 { MAX_SPEED as int } else { v },
{
    if spec_stops_within(v, a, dt) {
        let p = v * v;
        let q = 2 * (-a);
        assert(q == 8000);
        let r = round_nearest(p, q);
        lemma_round_nearest_bounds(p, q);
        assert(p >= 0) by (nonlinear_arith)
            requires p == v * v;
        assert(p <= 53_640 * dt) by (nonlinear_arith)
            requires p == v * v, 1000 * v <= 4000 * dt, 0 <= v <= 13_410;
        assert(r <= 14 * dt + 1) by (nonlinear_arith)
            requires q * r <= p + q, p <= 53_640 * dt, q == 8000, 0 <= dt;
        if dt == 0 {
            assert(v == 0) by (nonlinear_arith) requires 1000 * v <= 0, 0 <= v;
            assert(round_nearest(0, 8000) == 0) by {
                assert(8000int / 16_000 == 0);
            }
        }
    } else {
        let p = 2000 * v * dt + a * dt * dt;
        let r = round_nearest(p, 2_000_000);
        lemma_round_nearest_bounds(p, 2_000_000);
        if a > 0 {
            assert(per_ms(a) == 3);
            assert(0 <= p <= 26_820_000 * dt) by (nonlinear_arith)
                requires
                    p == 2000 * v * dt + a * dt * dt,
                    a == 3000, 3 * dt <= 13_410 - v, 0 <= dt, 0 <= v <= 13_410;
        } else if a < 0 {
            assert(per_ms(a) == -4);
            assert(0 <= p <= 26_820_000 * dt) by (nonlinear_arith)
                requires
                    p == 2000 * v * dt + a * dt * dt,
                    a == -4000, 0 <= v <= 13_410, 0 <= dt, 1000 * v > 4000 * dt;
            assert(v + per_ms(a) * dt >= 0) by (nonlinear_arith)
                requires per_ms(a) == -4, 1000 * v > 4000 * dt;
        } else {
            assert(0 <= p <= 26_820_000 * dt) by (nonlinear_arith)
                requires
                    p == 2000 * v * dt + a * dt * dt,
                    a == 0, 0 <= v <= 13_410, 0 <= dt;
        }
        assert(r <= 14 * dt + 1) by (nonlinear_arith)
            requires
                2_000_000 * r <= p + 2_000_000,
                p <= 26_820_000 * dt,
                0 <= dt;
        if dt == 0 {
            assert(p == 0) by (nonlinear_arith)
                requires p == 2000 * v * dt + a * dt * dt, dt == 0;
            assert(round_nearest(0, 2_000_000) == 0) by {
                assert(2_000_000int / 4_000_000 == 0);
            }
        }
    }
}

} // verus!
