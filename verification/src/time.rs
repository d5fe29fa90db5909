use vstd::prelude::*;
use crate::Time;

verus! {

/// Milliseconds per second: the resolution of the simulation clock.
pub const TIME_RESOLUTION: Time = 1000;

/// A span of time on the simulation clock, in milliseconds.
#[derive(Debug, PartialEq, Eq, Structural, Clone, Copy)]
pub struct TimeDelta(pub Time);

impl TimeDelta {
    pub fn new(millis: Time) -> (d: TimeDelta)
        ensures
            d.0 == millis,
    {
        TimeDelta(millis)
    }

    pub fn from_secs(secs: Time) -> (d: TimeDelta)
        requires
            -9_000_000_000_000_000 <= secs <= 9_000_000_000_000_000,
        ensures
            d.0 == secs * 1000,
    {
        TimeDelta(secs * TIME_RESOLUTION)
    }

    pub fn millis(&self) -> (m: Time)
        ensures
            m == self.0,
    {
        self.0
    }

    /// The instant reached by starting at `rhs` and waiting for this span.
    pub fn add_to(&self, rhs: Time) -> (t: Time)
        requires
            i64::MIN <= self.0 + rhs <= i64::MAX,
        ensures
            t == self.0 + rhs,
    {
        rhs + self.0
    }
}

impl std::ops::Add<Time> for TimeDelta {
    type Output = Time;

    fn add(self, rhs: Time) -> (t: Time) {
        self.add_to(rhs)
    }
}

impl vstd::std_specs::ops::AddSpecImpl<Time> for TimeDelta {
    open spec fn obeys_add_spec() -> bool {
        true
    }

    open spec fn add_req(self, rhs: Time) -> bool {
        i64::MIN <= self.0 + rhs <= i64::MAX
    }

    open spec fn add_spec(self, rhs: Time) -> Time {
        (self.0 + rhs) as Time
    }
}

impl From<i64> for TimeDelta {
    fn from(millis: i64) -> (d: TimeDelta) {
        TimeDelta(millis)
    }
}

impl vstd::std_specs::convert::FromSpecImpl<i64> for TimeDelta {
    open spec fn obeys_from_spec() -> bool {
        true
    }

    open spec fn from_spec(millis: i64) -> TimeDelta {
        TimeDelta(millis)
    }
}

} // verus!
