//! Bubs World: a population of simple agents on a 2D plane, each steered by a
//! small feedforward network, selected across generations by a genetic
//! algorithm so that behaviours that avoid lethal danger zones propagate.
//!
//! All simulation state is held in fixed-point integer coordinates so that
//! every step of the simulation is an exact, verified function of the state.
use vstd::prelude::*;

pub mod agent;
pub mod engine;
pub mod network;
pub mod population;
pub mod rng;
pub mod world;
pub mod zone;

verus! {

/// Clamp a coordinate into the closed interval `[0, hi]`.
pub fn clamp_coord(v: i64, hi: i64) -> (r: i64)
    requires
        0 <= hi,
    ensures
        r == clamp_spec(v as int, hi as int),
        0 <= r <= hi,
{
    if v < 0 {
        0
    } else if v > hi {
        hi
    } else {
        v
    }
}

/// What `clamp_coord` returns: `v` pulled into `[0, hi]`.
pub open spec fn clamp_spec(v: int, hi: int) -> int {
    if v < 0 {
        0
    } else if v > hi {
        hi
    } else {
        v
    }
}

} // verus!
