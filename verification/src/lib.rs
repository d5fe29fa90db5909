use vstd::prelude::*;

pub mod numeric;
pub mod time;
pub mod road;
pub mod pedestrian;
pub mod obstacle;
pub mod vehicle;
pub mod reaction;
pub mod events;
pub mod state;
pub mod simulation;
pub mod event_driven_sim;

verus! {

/// Milliseconds on the simulation clock.
pub type Time = i64;

/// Identifier for vehicles, pedestrians and crossings.
pub type ID = u64;

} // verus!
