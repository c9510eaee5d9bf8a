use vstd::prelude::*;

pub mod cadence;
pub mod pairs;
pub mod scheduler;
pub mod trail;

verus! {

// The integer side of an n-body viewer's real-time stepping:
// - `pairs`: the unordered body pairs the force accumulator visits, each once;
// - `scheduler`: how many fixed micro-steps fit in a frame's wall-clock budget;
// - `cadence`: which frames add a trail entry;
// - `trail`: fixed-length per-body position histories, newest first.
// The vector arithmetic itself (forces, integration, center of mass) runs on
// floating-point values in the host program.

} // verus!
