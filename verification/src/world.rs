//! The simulated plane: a rectangle of fixed-point integer coordinates.
use vstd::prelude::*;

verus! {

/// Coordinates, world extents and zone extents stay within `MAX_DIM`, so
/// coordinate sums and scaled products never overflow an `i64`.
pub const MAX_DIM: i64 = 1000000000;

/// World extents. An agent position is valid when it lies in
/// `[0, width] x [0, height]`.
#[derive(Clone, Copy)]
pub struct World {
    pub width: i64,
    pub height: i64,
}

impl World {
    pub open spec fn wf(&self) -> bool {
        &&& 1 <= self.width <= MAX_DIM as int
        &&& 1 <= self.height <= MAX_DIM as int
    }

    pub fn new(width: i64, height: i64) -> (r: Option<Self>)
        ensures
            match r {
                Some(w) => w.wf() && w.width == width && w.height == height,
                None => !(1 <= width <= MAX_DIM as int && 1 <= height <= MAX_DIM as int),
            },
    {
        if 1 <= width && width <= MAX_DIM && 1 <= height && height <= MAX_DIM {
            Some(World { width, height })
        } else {
            None
        }
    }
}

} // verus!
