//! A plain two-component vector of scaled integers.

use crate::fixed::in_range;
use vstd::prelude::*;

verus! {

/// A 2D vector; each component is a signed count of `1/SCALE` world units.
#[derive(Clone, Copy, Debug, PartialEq, Eq, Structural)]
pub struct Vec2 {
    pub x: i64,
    pub y: i64,
}

/// Both components of `v` lie within `[-limit, limit]`.
pub open spec fn vec_in_range(v: Vec2, limit: int) -> bool {
    in_range(v.x as int, limit) && in_range(v.y as int, limit)
}

impl Vec2 {
    /// The zero vector.
    pub fn zero() -> (r: Vec2)
        ensures
            r.x == 0,
            r.y == 0,
    {
        Vec2 { x: 0, y: 0 }
    }
}

} // verus!
