use vstd::prelude::*;
use crate::{ID, Time};
use crate::time::TimeDelta;

verus! {

/// Time a pedestrian occupies a crossing, in milliseconds.
pub const CROSSING_TIME_MS: Time = 10_000;

/// Pelican crossings: delay from button press to the lights turning red.
pub const WAIT_TIME_MS: Time = 5_000;

/// Pelican crossings: minimum green period between two stops.
pub const GO_TIME_MS: Time = 5_000;

/// Upper bound on road length, in millimetres (1000 km).
pub const MAX_ROAD_LENGTH: i64 = 1_000_000_000;

/// Direction of travel along the road.  Positions are measured from the
/// road's origin in the `Up` direction; the `Down` view mirrors them.
#[derive(Debug, Clone, Copy, PartialEq, Eq, Structural)]
pub enum Direction {
    Up,
    Down,
}

/// A pedestrian crossing.  Crossings carry no position of their own:
/// position is a property of the road.
#[derive(Debug, Clone, Copy, PartialEq, Eq, Structural)]
pub enum Crossing {
    Zebra { id: ID, cross_time: TimeDelta },
    Pelican { id: ID, stop_time: TimeDelta, wait_time: TimeDelta, go_time: TimeDelta },
}

impl Crossing {
    pub open spec fn spec_id(&self) -> ID {
        match *self {
            Crossing::Zebra { id, .. } => id,
            Crossing::Pelican { id, .. } => id,
        }
    }

    /// The time traffic is stopped once a pedestrian occupies the crossing.
    pub open spec fn spec_stop_ms(&self) -> Time {
        match *self {
            Crossing::Zebra { cross_time, .. } => cross_time.0,
            Crossing::Pelican { stop_time, .. } => stop_time.0,
        }
    }

    /// The delay from a pedestrian's arrival to the traffic being stopped.
    pub open spec fn spec_wait_ms(&self) -> Time {
        match *self {
            Crossing::Zebra { .. } => 0,
            Crossing::Pelican { wait_time, .. } => wait_time.0,
        }
    }

    /// The same crossing with its identifier replaced.
    pub open spec fn spec_with_id(&self, new_id: ID) -> Crossing {
        match *self {
            Crossing::Zebra { cross_time, .. } => Crossing::Zebra { id: new_id, cross_time },
            Crossing::Pelican { stop_time, wait_time, go_time, .. } =>
                Crossing::Pelican { id: new_id, stop_time, wait_time, go_time },
        }
    }

    pub fn zebra(id: ID) -> (c: Crossing)
        ensures
            c == (Crossing::Zebra { id, cross_time: TimeDelta(CROSSING_TIME_MS) }),
    {
        Crossing::Zebra { id, cross_time: TimeDelta::new(CROSSING_TIME_MS) }
    }

    pub fn pelican(id: ID) -> (c: Crossing)
        ensures
            c == (Crossing::Pelican {
                id,
                stop_time: TimeDelta(CROSSING_TIME_MS),
                wait_time: TimeDelta(WAIT_TIME_MS),
                go_time: TimeDelta(GO_TIME_MS),
            }),
    {
        Crossing::Pelican {
            id,
            stop_time: TimeDelta::new(CROSSING_TIME_MS),
            wait_time: TimeDelta::new(WAIT_TIME_MS),
            go_time: TimeDelta::new(GO_TIME_MS),
        }
    }

    pub fn set_id(&mut self, new_id: ID)
        ensures
            *final(self) == old(self).spec_with_id(new_id),
    {
        match self {
            Crossing::Zebra { id, .. } => *id = new_id,
            Crossing::Pelican { id, .. } => *id = new_id,
        };
    }

    pub fn get_id(&self) -> (r: ID)
        ensures
            r == self.spec_id(),
    {
        match self {
            Crossing::Zebra { id, .. } => *id,
            Crossing::Pelican { id, .. } => *id,
        }
    }

    pub fn stop_time(&self) -> (r: TimeDelta)
        ensures
            r.0 == self.spec_stop_ms(),
    {
        match self {
            Crossing::Zebra { cross_time, .. } => *cross_time,
            Crossing::Pelican { stop_time, .. } => *stop_time,
        }
    }

    pub fn arrival_to_stop_time(&self) -> (r: TimeDelta)
        ensures
            r.0 == self.spec_wait_ms(),
    {
        match self {
            Crossing::Zebra { .. } => TimeDelta::new(0),
            Crossing::Pelican { wait_time, .. } => *wait_time,
        }
    }

    pub fn min_time_to_next_stop(&self) -> (r: TimeDelta)
        ensures
            (self matches Crossing::Zebra { .. } ==> r.0 == 0),
            (self matches Crossing::Pelican { go_time, .. } ==> r == go_time),
    {
        match self {
            Crossing::Zebra { .. } => TimeDelta::new(0),
            Crossing::Pelican { go_time, .. } => *go_time,
        }
    }
}

/// Errors of road construction and positional queries.
#[derive(Debug, Clone, Copy, PartialEq, Eq, Structural)]
pub enum RoadError {
    /// A crossing's identifier is not present on the road.
    UnknownCrossing,
    /// A crossing position lies outside `[0, length]`.
    PositionOutOfRange,
    /// Two crossings share one position.
    DuplicatePosition,
}

/// A fixed-length road segment with an ordered list of crossings.
/// Every position is in millimetres.
pub struct Road {
    pub length: i64,
    pub crossings_up: Vec<(Crossing, i64)>,
    pub crossings_down: Vec<(Crossing, i64)>,
}

impl Road {
    pub open spec fn spec_length(&self) -> int {
        self.length as int
    }

    /// The crossings with positions measured in the `Up` direction.
    pub open spec fn up_seq(&self) -> Seq<(Crossing, i64)> {
        self.crossings_up@
    }

    pub open spec fn num_crossings(&self) -> int {
        self.crossings_up@.len() as int
    }

    /// The crossing list seen from `direction`.
    pub open spec fn dir_seq(&self, direction: Direction) -> Seq<(Crossing, i64)> {
        match direction {
            Direction::Up => self.crossings_up@,
            Direction::Down => self.crossings_down@,
        }
    }

    /// Position of crossing `id` from the origin of `direction`.
    pub open spec fn spec_crossing_position(&self, id: int, direction: Direction) -> int {
        match direction {
            Direction::Up => self.crossings_up@[id].1 as int,
            Direction::Down => self.spec_length() - self.crossings_up@[id].1 as int,
        }
    }

    /// Well-formedness: positions lie in `[0, length]` and increase strictly
    /// in the `Up` direction; identifiers are `0, 1, 2, ...` by position
    /// order; the `Down` view mirrors the `Up` view.
    pub open spec fn wf(&self) -> bool {
        &&& 0 <= self.length <= MAX_ROAD_LENGTH
        &&& self.crossings_down@.len() == self.crossings_up@.len()
        &&& forall|i: int| 0 <= i < self.crossings_up@.len() ==>
                0 <= (#[trigger] self.crossings_up@[i]).1 <= self.length
        &&& forall|i: int| 0 <= i < self.crossings_up@.len() ==>
                (#[trigger] self.crossings_up@[i]).0.spec_id() as int == i
        &&& forall|i: int| 0 <= i < self.crossings_up@.len() ==>
                0 <= (#[trigger] self.crossings_up@[i]).0.spec_stop_ms()
                    <= crate::pedestrian::MAX_TIME
        &&& forall|i: int| 0 <= i && i + 1 < self.crossings_up@.len() ==>
                (#[trigger] self.crossings_up@[i]).1 < self.crossings_up@[i + 1].1
        &&& forall|i: int| 0 <= i < self.crossings_down@.len() ==>
                (#[trigger] self.crossings_down@[i]) == (
                    self.crossings_up@[self.crossings_up@.len() - 1 - i].0,
                    (self.length - self.crossings_up@[self.crossings_up@.len() - 1 - i].1) as i64,
                )
    }

    /// Builds a road from crossings given in the `Up` direction.
    pub fn new(length: i64, crossings: Vec<(Crossing, i64)>) -> (road: Road)
        requires
            0 <= length <= MAX_ROAD_LENGTH,
            forall|i: int| 0 <= i < crossings@.len() ==>
                0 <= (#[trigger] crossings@[i]).1 <= length,
            forall|i: int| 0 <= i < crossings@.len() ==>
                (#[trigger] crossings@[i]).0.spec_id() as int == i,
            forall|i: int| 0 <= i < crossings@.len() ==>
                0 <= (#[trigger] crossings@[i]).0.spec_stop_ms()
                    <= crate::pedestrian::MAX_TIME,
            forall|i: int| 0 <= i && i + 1 < crossings@.len() ==>
                (#[trigger] crossings@[i]).1 < crossings@[i + 1].1,
        ensures
            road.wf(),
            road.spec_length() == length,
            road.up_seq() == crossings@,
    {
        let n = crossings.len();
        let mut crossings_down: Vec<(Crossing, i64)> = Vec::new();
        let mut i: usize = 0;
        while i < n
            invariant
                n == crossings@.len(),
                0 <= length <= MAX_ROAD_LENGTH,
                forall|j: int| 0 <= j < crossings@.len() ==>
                    0 <= (#[trigger] crossings@[j]).1 <= length,
                i <= n,
                crossings_down@.len() == i,
                forall|j: int| 0 <= j < i ==>
                    (#[trigger] crossings_down@[j]) == (
                        crossings@[n - 1 - j].0,
                        (length - crossings@[n - 1 - j].1) as i64,
                    ),
            decreases n - i,
        {
            let (crossing, pos) = crossings[n - 1 - i];
            crossings_down.push((crossing, length - pos));
            i = i + 1;
        }
        Road { length, crossings_up: crossings, crossings_down }
    }

    pub fn get_length(&self) -> (r: i64)
        ensures
            r == self.spec_length(),
    {
        self.length
    }

    /// The crossings in the given direction, each with its position from
    /// that direction's origin, ordered by increasing position.
    pub fn get_crossings(&self, direction: &Direction) -> (r: &Vec<(Crossing, i64)>)
        ensures
            *direction == Direction::Up ==> r@ == self.crossings_up@,
            *direction == Direction::Down ==> r@ == self.crossings_down@,
    {
        match direction {
            Direction::Up => &self.crossings_up,
            Direction::Down => &self.crossings_down,
        }
    }

    /// Position of the crossing with identifier `id`, measured from the
    /// origin of `direction`.
    pub fn get_crossing_position(&self, id: &ID, direction: Direction) -> (r: i64)
        requires
            self.wf(),
            0 <= *id < self.num_crossings(),
        ensures
            r == self.spec_crossing_position(*id as int, direction),
    {
        let n = self.crossings_up.len();
        assert((*id as int) < (n as int));
        let idx = *id as usize;
        match direction {
            Direction::Up => self.crossings_up[idx].1,
            Direction::Down => self.length - self.crossings_up[idx].1,
        }
    }

    /// Positional query that reports `UnknownCrossing` for an absent
    /// identifier instead of demanding its presence.
    pub fn position_of(&self, id: ID, direction: Direction) -> (r: Result<i64, RoadError>)
        requires
            self.wf(),
        ensures
            (id as int) < self.num_crossings() ==>
                r == Ok::<i64, RoadError>(self.spec_crossing_position(id as int, direction) as i64),
            (id as int) >= self.num_crossings() ==>
                r == Err::<i64, RoadError>(RoadError::UnknownCrossing),
    {
        if id < self.crossings_up.len() as u64 {
            Ok(self.get_crossing_position(&id, direction))
        } else {
            Err(RoadError::UnknownCrossing)
        }
    }
}

/// Whether the two configuration lists describe distinct positions:
/// strictly increasing within each list and disjoint across them.
pub open spec fn spec_distinct_positions(z: Seq<i64>, p: Seq<i64>) -> bool {
    &&& forall|a: int| 0 <= a && a + 1 < z.len() ==> #[trigger] z[a] < z[a + 1]
    &&& forall|a: int| 0 <= a && a + 1 < p.len() ==> #[trigger] p[a] < p[a + 1]
    &&& forall|a: int, b: int| 0 <= a < z.len() && 0 <= b < p.len() ==>
            #[trigger] z[a] != #[trigger] p[b]
}

/// Merges the two position lists into one list tagged with the crossing
/// kind (`true` for pelican); for distinct ordered inputs the result is
/// ordered by position.
#[verifier::spinoff_prover]
fn merge_positions(
    zebra_positions: &Vec<i64>,
    pelican_positions: &Vec<i64>,
) -> (combined: Vec<(bool, i64)>)
    requires
        zebra_positions@.len() + pelican_positions@.len() < 1_000_000,
    ensures
        combined@.len() == zebra_positions@.len() + pelican_positions@.len(),
        forall|a: int| 0 <= a < zebra_positions@.len() ==> exists|q: int|
            0 <= q < combined@.len() && #[trigger] combined@[q]
                == (false, #[trigger] zebra_positions@[a]),
        forall|a: int| 0 <= a < pelican_positions@.len() ==> exists|q: int|
            0 <= q < combined@.len() && #[trigger] combined@[q]
                == (true, #[trigger] pelican_positions@[a]),
        forall|q: int| 0 <= q < combined@.len() ==>
            ((#[trigger] combined@[q]).0 ==> exists|a: int|
                0 <= a < pelican_positions@.len() && combined@[q].1
                    == #[trigger] pelican_positions@[a]),
        forall|q: int| 0 <= q < combined@.len() ==>
            (!(#[trigger] combined@[q]).0 ==> exists|a: int|
                0 <= a < zebra_positions@.len() && combined@[q].1
                    == #[trigger] zebra_positions@[a]),
        spec_distinct_positions(zebra_positions@, pelican_positions@) ==>
            forall|q: int| 0 <= q && q + 1 < combined@.len() ==>
                (#[trigger] combined@[q]).1 < combined@[q + 1].1,
{
    let nz = zebra_positions.len();
    let np = pelican_positions.len();
    let mut combined: Vec<(bool, i64)> = Vec::new();
    let mut iz: usize = 0;
    let mut ip: usize = 0;
    while iz < nz || ip < np
        invariant
            nz == zebra_positions@.len(),
            np == pelican_positions@.len(),
            iz <= nz,
            ip <= np,
            combined@.len() == iz + ip,
            forall|a: int| 0 <= a < iz ==> exists|q: int|
                0 <= q < combined@.len() && #[trigger] combined@[q]
                    == (false, #[trigger] zebra_positions@[a]),
            forall|a: int| 0 <= a < ip ==> exists|q: int|
                0 <= q < combined@.len() && #[trigger] combined@[q]
                    == (true, #[trigger] pelican_positions@[a]),
            forall|q: int| 0 <= q < combined@.len() ==>
                ((#[trigger] combined@[q]).0 ==> exists|a: int|
                    0 <= a < np && combined@[q].1
                        == #[trigger] pelican_positions@[a]),
            forall|q: int| 0 <= q < combined@.len() ==>
                (!(#[trigger] combined@[q]).0 ==> exists|a: int|
                    0 <= a < nz && combined@[q].1
                        == #[trigger] zebra_positions@[a]),
            spec_distinct_positions(zebra_positions@, pelican_positions@) ==> {
                &&& forall|q: int| 0 <= q && q + 1 < combined@.len() ==>
                        (#[trigger] combined@[q]).1 < combined@[q + 1].1
                &&& (combined@.len() > 0 && iz < nz ==>
                        combined@.last().1 < zebra_positions@[iz as int])
                &&& (combined@.len() > 0 && ip < np ==>
                        combined@.last().1 < pelican_positions@[ip as int])
            },
        decreases nz + np - iz - ip,
    {
        let ghost combined0 = combined@;
        let ghost iz0 = iz;
        let ghost ip0 = ip;
        let take_zebra = if iz < nz {
            if ip < np {
                zebra_positions[iz] <= pelican_positions[ip]
            } else {
                true
            }
        } else {
            false
        };
        if take_zebra {
            combined.push((false, zebra_positions[iz]));
            iz = iz + 1;
        } else {
            combined.push((true, pelican_positions[ip]));
            ip = ip + 1;
        }
        proof {
            assert forall|a: int| 0 <= a < iz implies exists|q: int|
                0 <= q < combined@.len() && #[trigger] combined@[q]
                    == (false, #[trigger] zebra_positions@[a]) by {
                if take_zebra && a == iz - 1 {
                    assert(combined@[combined0.len() as int]
                        == (false, zebra_positions@[a]));
                } else {
                    let q0 = choose|q: int| 0 <= q < combined0.len()
                        && #[trigger] combined0[q] == (false, zebra_positions@[a]);
                    assert(combined@[q0] == (false, zebra_positions@[a]));
                }
            }
            assert forall|a: int| 0 <= a < ip implies exists|q: int|
                0 <= q < combined@.len() && #[trigger] combined@[q]
                    == (true, #[trigger] pelican_positions@[a]) by {
                if !take_zebra && a == ip - 1 {
                    assert(combined@[combined0.len() as int]
                        == (true, pelican_positions@[a]));
                } else {
                    let q0 = choose|q: int| 0 <= q < combined0.len()
                        && #[trigger] combined0[q]
                            == (true, pelican_positions@[a]);
                    assert(combined@[q0] == (true, pelican_positions@[a]));
                }
            }
            if spec_distinct_positions(zebra_positions@, pelican_positions@) {
                let pushed = combined@.last();
                if combined0.len() > 0 {
                    assert(combined0.last().1 < pushed.1);
                }
                if iz < nz {
                    assert(pushed.1 < zebra_positions@[iz as int]) by {
                        if take_zebra {
                            assert(zebra_positions@[iz0 as int]
                                < zebra_positions@[iz0 + 1]);
                        } else {
                            assert(pelican_positions@[ip0 as int]
                                != zebra_positions@[iz as int]);
                        }
                    }
                }
                if ip < np {
                    assert(pushed.1 < pelican_positions@[ip as int]) by {
                        if take_zebra {
                            assert(zebra_positions@[iz0 as int]
                                != pelican_positions@[ip as int]);
                        } else {
                            assert(pelican_positions@[ip0 as int]
                                < pelican_positions@[ip0 + 1]);
                        }
                    }
                }
            }
        }
    }
    combined
}

/// Validates merged crossing positions: inside `[0, length]` and
/// strictly increasing.  Distinct in-range positions always pass.
fn validate_positions(combined: &Vec<(bool, i64)>, length: i64)
    -> (r: Result<(), RoadError>)
    requires
        0 <= length <= MAX_ROAD_LENGTH,
    ensures
        r is Ok ==> {
            &&& forall|q: int| 0 <= q < combined@.len() ==>
                    0 <= (#[trigger] combined@[q]).1 <= length
            &&& forall|q: int| 0 <= q && q + 1 < combined@.len() ==>
                    (#[trigger] combined@[q]).1 < combined@[q + 1].1
        },
        r is Err ==> (r == Err::<(), RoadError>(RoadError::PositionOutOfRange)
            || r == Err::<(), RoadError>(RoadError::DuplicatePosition)),
        ((forall|q: int| 0 <= q < combined@.len() ==>
                0 <= (#[trigger] combined@[q]).1 <= length)
            && (forall|q: int| 0 <= q && q + 1 < combined@.len() ==>
                (#[trigger] combined@[q]).1 < combined@[q + 1].1))
            ==> r is Ok,
{
    let n = combined.len();
    let mut v: usize = 0;
    while v < n
        invariant
            n == combined@.len(),
            v <= n,
            0 <= length <= MAX_ROAD_LENGTH,
            forall|q: int| 0 <= q < v ==>
                0 <= (#[trigger] combined@[q]).1 <= length,
            forall|q: int| 0 <= q && q + 1 < v ==>
                (#[trigger] combined@[q]).1 < combined@[q + 1].1,
        decreases n - v,
    {
        if combined[v].1 < 0 || combined[v].1 > length {
            return Err(RoadError::PositionOutOfRange);
        }
        if v > 0 {
            if combined[v - 1].1 >= combined[v].1 {
                return Err(RoadError::DuplicatePosition);
            }
        }
        v = v + 1;
    }
    Ok(())
}

/// Builds the crossing list from validated merged positions, assigning
/// identifiers in position order.
fn build_crossings(combined: &Vec<(bool, i64)>) -> (crossings: Vec<(Crossing, i64)>)
    requires
        combined@.len() < 1_000_000,
    ensures
        crossings@.len() == combined@.len(),
        forall|q: int| 0 <= q < crossings@.len() ==>
            (#[trigger] crossings@[q]).1 == combined@[q].1,
        forall|q: int| 0 <= q < crossings@.len() ==>
            (#[trigger] crossings@[q]).0.spec_id() as int == q,
        forall|q: int| 0 <= q < crossings@.len() ==>
            ((#[trigger] crossings@[q]).0 is Pelican <==> combined@[q].0),
        forall|q: int| 0 <= q < crossings@.len() ==>
            0 <= (#[trigger] crossings@[q]).0.spec_stop_ms()
                <= crate::pedestrian::MAX_TIME,
{
    let n = combined.len();
    let mut crossings: Vec<(Crossing, i64)> = Vec::new();
    let mut w: usize = 0;
    while w < n
        invariant
            n == combined@.len(),
            n < 1_000_000,
            w <= n,
            crossings@.len() == w,
            forall|q: int| 0 <= q < w ==> (#[trigger] crossings@[q]).1
                == combined@[q].1,
            forall|q: int| 0 <= q < w ==>
                (#[trigger] crossings@[q]).0.spec_id() as int == q,
            forall|q: int| 0 <= q < w ==>
                ((#[trigger] crossings@[q]).0 is Pelican <==> combined@[q].0),
            forall|q: int| 0 <= q < w ==>
                0 <= (#[trigger] crossings@[q]).0.spec_stop_ms()
                    <= crate::pedestrian::MAX_TIME,
        decreases n - w,
    {
        let (is_pelican, position) = combined[w];
        let crossing = if is_pelican {
            Crossing::pelican(w as u64)
        } else {
            Crossing::zebra(w as u64)
        };
        crossings.push((crossing, position));
        w = w + 1;
    }
    crossings
}

/// The merge, with only what road assembly needs of it: the count.
/// (The full contract of `merge_positions` stands on its own; keeping it
/// out of scope here keeps the assembly proof light.)
fn merge_for_config(
    zebra_positions: &Vec<i64>,
    pelican_positions: &Vec<i64>,
) -> (combined: Vec<(bool, i64)>)
    requires
        zebra_positions@.len() + pelican_positions@.len() < 1_000_000,
    ensures
        combined@.len() == zebra_positions@.len() + pelican_positions@.len(),
        forall|q: int| 0 <= q < combined@.len() ==>
            ((#[trigger] combined@[q]).0 ==> exists|a: int|
                0 <= a < pelican_positions@.len() && combined@[q].1
                    == #[trigger] pelican_positions@[a]),
        forall|q: int| 0 <= q < combined@.len() ==>
            (!(#[trigger] combined@[q]).0 ==> exists|a: int|
                0 <= a < zebra_positions@.len() && combined@[q].1
                    == #[trigger] zebra_positions@[a]),
        spec_distinct_positions(zebra_positions@, pelican_positions@) ==>
            forall|q: int| 0 <= q && q + 1 < combined@.len() ==>
                (#[trigger] combined@[q]).1 < combined@[q + 1].1,
{
    merge_positions(zebra_positions, pelican_positions)
}

impl Road {
    /// Builds the road from a configuration's two ordered position lists,
    /// merging them by position and assigning identifiers `0, 1, 2, ...`
    /// in position order.  A position outside `[0, length]` is
    /// `PositionOutOfRange`; a repeated or out-of-order position (within
    /// a list or across the two) is `DuplicatePosition`.  Distinct
    /// ordered positions inside the road always build.
    #[verifier::spinoff_prover]
    #[verifier::rlimit(60)]
    pub fn from_config(
        length: i64,
        zebra_positions: &Vec<i64>,
        pelican_positions: &Vec<i64>,
    ) -> (r: Result<Road, RoadError>)
        requires
            0 <= length <= MAX_ROAD_LENGTH,
            zebra_positions@.len() + pelican_positions@.len() < 1_000_000,
        ensures
            match r {
                Ok(road) => {
                    &&& road.wf()
                    &&& road.spec_length() == length
                    &&& road.num_crossings()
                            == zebra_positions@.len() + pelican_positions@.len()
                    &&& forall|k: int| 0 <= k < road.num_crossings() ==>
                            ((#[trigger] road.up_seq()[k]).0 is Zebra ==> exists|a: int|
                                0 <= a < zebra_positions@.len()
                                    && road.up_seq()[k].1
                                        == #[trigger] zebra_positions@[a])
                    &&& forall|k: int| 0 <= k < road.num_crossings() ==>
                            ((#[trigger] road.up_seq()[k]).0 is Pelican ==> exists|a: int|
                                0 <= a < pelican_positions@.len()
                                    && road.up_seq()[k].1
                                        == #[trigger] pelican_positions@[a])
                },
                Err(e) => e == RoadError::PositionOutOfRange
                    || e == RoadError::DuplicatePosition,
            },
            (spec_distinct_positions(zebra_positions@, pelican_positions@)
                && (forall|a: int| 0 <= a < zebra_positions@.len() ==>
                        0 <= #[trigger] zebra_positions@[a] <= length)
                && (forall|a: int| 0 <= a < pelican_positions@.len() ==>
                        0 <= #[trigger] pelican_positions@[a] <= length))
                ==> r is Ok,
    {
        let nz = zebra_positions.len();
        let np = pelican_positions.len();
        let combined = merge_for_config(zebra_positions, pelican_positions);
        proof {
            if spec_distinct_positions(zebra_positions@, pelican_positions@)
                && (forall|a: int| 0 <= a < zebra_positions@.len() ==>
                        0 <= #[trigger] zebra_positions@[a] <= length)
                && (forall|a: int| 0 <= a < pelican_positions@.len() ==>
                        0 <= #[trigger] pelican_positions@[a] <= length) {
                assert forall|q: int| 0 <= q < combined@.len()
                    implies 0 <= (#[trigger] combined@[q]).1 <= length by {
                    if combined@[q].0 {
                        let a = choose|a: int| 0 <= a < pelican_positions@.len()
                            && combined@[q].1 == #[trigger] pelican_positions@[a];
                        assert(0 <= pelican_positions@[a] <= length);
                    } else {
                        let a = choose|a: int| 0 <= a < zebra_positions@.len()
                            && combined@[q].1 == #[trigger] zebra_positions@[a];
                        assert(0 <= zebra_positions@[a] <= length);
                    }
                }
            }
        }
        let checked = validate_positions(&combined, length);
        match checked {
            Err(e) => {
                Err(e)
            },
            Ok(()) => {
                proof {
                    assert(checked is Ok);
                    assert(forall|q: int| 0 <= q < combined@.len() ==>
                        0 <= (#[trigger] combined@[q]).1 <= length);
                    assert(forall|q: int| 0 <= q && q + 1 < combined@.len() ==>
                        (#[trigger] combined@[q]).1 < combined@[q + 1].1);
                }
                let crossings = build_crossings(&combined);
                proof {
                    assert forall|i: int| 0 <= i && i + 1 < crossings@.len()
                        implies (#[trigger] crossings@[i]).1 < crossings@[i + 1].1 by {
                        assert(crossings@[i].1 == combined@[i].1);
                        assert(crossings@[i + 1].1 == combined@[i + 1].1);
                        assert(combined@[i].1 < combined@[i + 1].1);
                    }
                }
                let road = Road::new(length, crossings);
                proof {
                    assert forall|k: int| 0 <= k < road.num_crossings()
                        implies ((#[trigger] road.up_seq()[k]).0 is Zebra
                            ==> exists|a: int| 0 <= a < zebra_positions@.len()
                                && road.up_seq()[k].1
                                    == #[trigger] zebra_positions@[a]) by {
                        if road.up_seq()[k].0 is Zebra {
                            assert(!combined@[k].0);
                            let a0 = choose|a: int| 0 <= a < zebra_positions@.len()
                                && combined@[k].1 == #[trigger] zebra_positions@[a];
                            assert(road.up_seq()[k].1 == zebra_positions@[a0]);
                        }
                    }
                    assert forall|k: int| 0 <= k < road.num_crossings()
                        implies ((#[trigger] road.up_seq()[k]).0 is Pelican
                            ==> exists|a: int| 0 <= a < pelican_positions@.len()
                                && road.up_seq()[k].1
                                    == #[trigger] pelican_positions@[a]) by {
                        if road.up_seq()[k].0 is Pelican {
                            assert(combined@[k].0);
                            let a0 = choose|a: int| 0 <= a < pelican_positions@.len()
                                && combined@[k].1 == #[trigger] pelican_positions@[a];
                            assert(road.up_seq()[k].1 == pelican_positions@[a0]);
                        }
                    }
                }
                Ok(road)
            },
        }
    }
}

/// Mirroring the road: the two directional positions of any crossing sum
/// to the road length.
pub proof fn lemma_mirror_positions_sum(road: Road, id: int)
    requires
        road.wf(),
        0 <= id < road.num_crossings(),
    ensures
        road.spec_crossing_position(id, Direction::Up)
            + road.spec_crossing_position(id, Direction::Down) == road.spec_length(),
{
}

impl Crossing {
    /// Position of this crossing on `road`, from the origin of `direction`.
    pub fn get_position(&self, road: &Road, direction: &Direction) -> (r: i64)
        requires
            road.wf(),
            0 <= self.spec_id() < road.num_crossings(),
        ensures
            r == road.spec_crossing_position(self.spec_id() as int, *direction),
    {
        let id = self.get_id();
        road.get_crossing_position(&id, *direction)
    }

    /// A crossing does not move.
    pub fn get_speed(&self) -> (r: i64)
        ensures
            r == 0,
    {
        0
    }

    /// A crossing does not accelerate.
    pub fn get_acceleration(&self) -> (r: i64)
        ensures
            r == 0,
    {
        0
    }
}

} // verus!
