//! Danger zones: axis-aligned rectangles that kill an agent standing in
//! them. Purely geometric and shared read-only during a tick.
use vstd::prelude::*;

use crate::world::MAX_DIM;

verus! {

/// An axis-aligned rectangle. Containment is inclusive on all four edges.
#[derive(Clone, Copy)]
pub struct DangerZone {
    pub x: i64,
    pub y: i64,
    pub w: i64,
    pub h: i64,
}

impl DangerZone {
    pub open spec fn wf(&self) -> bool {
        &&& -(MAX_DIM as int) <= self.x <= MAX_DIM as int
        &&& -(MAX_DIM as int) <= self.y <= MAX_DIM as int
        &&& 0 <= self.w <= MAX_DIM as int
        &&& 0 <= self.h <= MAX_DIM as int
    }

    /// What `contains` decides: the point lies within the rectangle,
    /// boundary included on both axes.
    pub open spec fn contains_spec(&self, px: int, py: int) -> bool {
        &&& self.x <= px <= self.x + self.w
        &&& self.y <= py <= self.y + self.h
    }

    pub fn new(x: i64, y: i64, w: i64, h: i64) -> (r: Option<Self>)
        ensures
            match r {
                Some(z) => {
                    &&& z.wf()
                    &&& z.x == x
                    &&& z.y == y
                    &&& z.w == w
                    &&& z.h == h
                },
                None => !(-(MAX_DIM as int) <= x <= MAX_DIM as int
                    && -(MAX_DIM as int) <= y <= MAX_DIM as int && 0 <= w <= MAX_DIM as int && 0
                    <= h <= MAX_DIM as int),
            },
    {
        if -MAX_DIM <= x && x <= MAX_DIM && -MAX_DIM <= y && y <= MAX_DIM && 0 <= w && w <= MAX_DIM
            && 0 <= h && h <= MAX_DIM {
            Some(DangerZone { x, y, w, h })
        } else {
            None
        }
    }

    /// Inclusive point containment.
    pub fn contains(&self, px: i64, py: i64) -> (r: bool)
        requires
            self.wf(),
        ensures
            r == self.contains_spec(px as int, py as int),
    {
        px >= self.x && px <= self.x + self.w && py >= self.y && py <= self.y + self.h
    }
}

/// The point lies in at least one of the zones.
pub open spec fn in_any_zone_spec(zones: Seq<DangerZone>, px: int, py: int) -> bool {
    exists|i: int| 0 <= i < zones.len() && (#[trigger] zones[i]).contains_spec(px, py)
}

/// Every zone of the list is well formed.
pub open spec fn zones_wf(zones: Seq<DangerZone>) -> bool {
    forall|i: int| 0 <= i < zones.len() ==> (#[trigger] zones[i]).wf()
}

pub fn in_any_zone(zones: &Vec<DangerZone>, px: i64, py: i64) -> (r: bool)
    requires
        zones_wf(zones@),
    ensures
        r == in_any_zone_spec(zones@, px as int, py as int),
{
    let n: usize = zones.len();
    let mut i: usize = 0;
    while i < n
        invariant
            n == zones@.len(),
            i <= n,
            zones_wf(zones@),
            forall|j: int| 0 <= j < i ==> !(#[trigger] zones@[j]).contains_spec(px as int, py as int),
        decreases n - i,
    {
        if zones[i].contains(px, py) {
            return true;
        }
        i = i + 1;
    }
    false
}

} // verus!
