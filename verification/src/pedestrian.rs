use vstd::prelude::*;
use std::rc::Rc;
use crate::{ID, Time};
use crate::road::Crossing;

verus! {

/// Upper bound on clock values the simulation works with, in milliseconds.
pub const MAX_TIME: Time = 1_000_000_000_000;

/// Someone standing at a crossing.
pub trait Person {
    spec fn spec_id(&self) -> ID;

    spec fn spec_location(&self) -> Crossing;

    spec fn spec_arrival(&self) -> Time;

    fn set_id(&mut self, id: ID)
        ensures
            final(self).spec_id() == id,
            final(self).spec_location() == old(self).spec_location(),
            final(self).spec_arrival() == old(self).spec_arrival(),
    ;

    fn get_id(&self) -> (r: ID)
        ensures
            r == self.spec_id(),
    ;

    fn location(&self) -> (r: &Rc<Crossing>)
        ensures
            **r == self.spec_location(),
    ;

    fn arrival_time(&self) -> (r: Time)
        ensures
            r == self.spec_arrival(),
    ;
}

/// A pedestrian occupying a crossing from its arrival instant on.
#[derive(Debug)]
pub struct Pedestrian {
    pub id: ID,
    pub location: Rc<Crossing>,
    pub arrival_time: Time,
}

impl Pedestrian {
    /// Arrival and crossing time small enough that no window overflows.
    pub open spec fn wf(&self) -> bool {
        &&& 0 <= self.arrival_time <= MAX_TIME
        &&& 0 <= (*self.location).spec_stop_ms() <= MAX_TIME
    }

    /// The instant this pedestrian's crossing window ends.
    pub open spec fn spec_exit_time(&self) -> int {
        self.arrival_time + (*self.location).spec_stop_ms()
    }

    pub fn new(id: ID, location: Rc<Crossing>, arrival_time: Time) -> (p: Pedestrian)
        ensures
            p.id == id,
            *p.location == *location,
            p.arrival_time == arrival_time,
    {
        Pedestrian { id, location, arrival_time }
    }

    /// A pedestrian is an obstacle exactly over
    /// `[arrival, arrival + stop_time)`.
    pub fn is_active(&self, time: Time) -> (r: bool)
        requires
            self.wf(),
        ensures
            r <==> self.arrival_time <= time < self.spec_exit_time(),
    {
        let arrival_time = self.arrival_time;
        let crossing_time = self.location.stop_time();
        let end_time = crossing_time.add_to(arrival_time);
        time < end_time && time >= arrival_time
    }

    /// The instant this pedestrian's crossing window ends.
    pub fn exit_time(&self) -> (r: Time)
        requires
            self.wf(),
        ensures
            r == self.spec_exit_time(),
    {
        self.location.stop_time().add_to(self.arrival_time)
    }
}

impl Person for Pedestrian {
    open spec fn spec_id(&self) -> ID {
        self.id
    }

    open spec fn spec_location(&self) -> Crossing {
        *self.location
    }

    open spec fn spec_arrival(&self) -> Time {
        self.arrival_time
    }

    fn set_id(&mut self, id: ID) {
        self.id = id;
    }

    fn get_id(&self) -> (r: ID) {
        self.id
    }

    fn location(&self) -> (r: &Rc<Crossing>) {
        &self.location
    }

    fn arrival_time(&self) -> (r: Time) {
        self.arrival_time
    }
}

} // verus!
