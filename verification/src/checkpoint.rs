//! Circular targets the pod must pass through in order.

use crate::num::sqrt_floor;
use crate::point::dist_sq;
use crate::point::Point;
use crate::point::Projection;
use vstd::prelude::*;

verus! {

/// Collision radius of every checkpoint, in distance units.
pub const CHECKPOINT_RADIUS: i64 = 600;

/// The square of [`CHECKPOINT_RADIUS`], precomputed.
pub const CHECKPOINT_RADIUS_SQ: i64 = 360_000;

/// Coordinate bound for checkpoints: keeps every product of the swept
/// collision test inside `i128`, with room for the synthetic terminal
/// checkpoint extrapolated past the course.
pub const CP_COORD_LIMIT: i64 = 2_000_000;

/// An immutable circular target with a fixed radius.
#[derive(Debug, Clone, Copy, PartialEq, Eq, Structural)]
pub struct CheckPoint {
    pub x: i64,
    pub y: i64,
    pub r: i64,
    pub r2: i64,
}

impl CheckPoint {
    /// The well-formedness every constructor establishes: the fixed radius,
    /// its precomputed square, and bounded coordinates.
    pub open spec fn wf(self) -> bool {
        &&& self.r == CHECKPOINT_RADIUS
        &&& self.r2 == CHECKPOINT_RADIUS_SQ
        &&& -CP_COORD_LIMIT <= self.x <= CP_COORD_LIMIT
        &&& -CP_COORD_LIMIT <= self.y <= CP_COORD_LIMIT
    }

    /// The checkpoint's centre as a point.
    pub open spec fn pos(self) -> Point {
        Point { x: self.x, y: self.y }
    }

    /// Builds a checkpoint at the given coordinates with the fixed radius.
    pub fn from_i32(x: i32, y: i32) -> (c: CheckPoint)
        requires
            -CP_COORD_LIMIT <= x <= CP_COORD_LIMIT,
            -CP_COORD_LIMIT <= y <= CP_COORD_LIMIT,
        ensures
            c.x == x,
            c.y == y,
            c.wf(),
    {
        CheckPoint { x: x as i64, y: y as i64, r: CHECKPOINT_RADIUS, r2: CHECKPOINT_RADIUS_SQ }
    }

    /// Builds a checkpoint from whole-unit coordinates.
    pub fn from_i64(x: i64, y: i64) -> (c: CheckPoint)
        requires
            -CP_COORD_LIMIT <= x <= CP_COORD_LIMIT,
            -CP_COORD_LIMIT <= y <= CP_COORD_LIMIT,
        ensures
            c.x == x,
            c.y == y,
            c.wf(),
    {
        CheckPoint { x, y, r: CHECKPOINT_RADIUS, r2: CHECKPOINT_RADIUS_SQ }
    }

    /// An independent copy.
    pub fn clone_checkpoint(&self) -> (c: CheckPoint)
        ensures
            c == *self,
    {
        CheckPoint { x: self.x, y: self.y, r: self.r, r2: self.r2 }
    }

    /// Euclidean distance from the centre to `other`, rounded down.
    pub fn distance(&self, other: &Point) -> (d: u64)
        requires
            self.wf(),
            other.in_range(),
        ensures
            d == sqrt_floor(dist_sq(self.pos(), *other) as nat),
    {
        let p = Point { x: self.x, y: self.y };
        p.distance(other)
    }

    /// Squared distance from the centre to `other`, exactly.
    pub fn distance_sq(&self, other: &Point) -> (d: u128)
        requires
            self.wf(),
            other.in_range(),
        ensures
            d == dist_sq(self.pos(), *other),
    {
        let p = Point { x: self.x, y: self.y };
        p.distance_sq(other)
    }

    /// The orthogonal projection of the centre onto the line through `a`
    /// and `b` (see [`Point::closest`]).
    pub fn closest(&self, a: &Point, b: &Point) -> (r: Projection)
        requires
            self.wf(),
            a.in_range(),
            b.in_range(),
        ensures
            r.den > 0,
            crate::point::proj_den(*a, *b) != 0 ==> r.x_num == crate::point::proj_x_num(
                self.pos(),
                *a,
                *b,
            ) && r.y_num == crate::point::proj_y_num(self.pos(), *a, *b) && r.den
                == crate::point::proj_den(*a, *b),
            crate::point::proj_den(*a, *b) == 0 ==> r.x_num == self.x && r.y_num == self.y && r.den
                == 1,
    {
        let p = Point { x: self.x, y: self.y };
        p.closest(a, b)
    }

    /// Squared distance of the centre from the origin, exactly.
    pub fn norm_sq(&self) -> (d: u128)
        requires
            self.wf(),
        ensures
            d == dist_sq(self.pos(), Point { x: 0, y: 0 }),
    {
        let p = Point { x: self.x, y: self.y };
        p.norm_sq()
    }

    /// Distance of the centre from the origin, rounded down.
    pub fn norm(&self) -> (d: u64)
        requires
            self.wf(),
        ensures
            d == sqrt_floor(dist_sq(self.pos(), Point { x: 0, y: 0 }) as nat),
    {
        let p = Point { x: self.x, y: self.y };
        p.norm()
    }
}

} // verus!
