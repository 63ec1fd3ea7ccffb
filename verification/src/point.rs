//! Plain two-dimensional integer points: distances, norms, and the exact
//! orthogonal projection of a point onto the infinite line through two
//! other points.

use crate::num::isqrt;
use crate::num::sqrt_floor;
use vstd::prelude::*;

verus! {

/// Coordinate bound under which every product in the geometry fits `i128`.
/// It admits every 32-bit coordinate.
pub const COORD_LIMIT: i64 = 2_147_483_648;

/// A 2D point (or vector) with whole-unit coordinates.
#[derive(Debug, Clone, Copy, PartialEq, Eq, Structural)]
pub struct Point {
    pub x: i64,
    pub y: i64,
}

/// The exact orthogonal projection of a point onto a line, kept as a
/// rational point: the projected coordinates are `x_num / den` and
/// `y_num / den`, with `den > 0`.
#[derive(Debug, Clone, Copy, PartialEq, Eq, Structural)]
pub struct Projection {
    pub x_num: i128,
    pub y_num: i128,
    pub den: i128,
}

/// Squared Euclidean distance between two points, exactly.
pub open spec fn dist_sq(a: Point, b: Point) -> int {
    (a.x - b.x) * (a.x - b.x) + (a.y - b.y) * (a.y - b.y)
}

/// Denominator of the normal-form projection: the squared length of the
/// direction of the line through `a` and `b`.  Zero exactly when `a == b`.
pub open spec fn proj_den(a: Point, b: Point) -> int {
    let da = b.y - a.y;
    let db = a.x - b.x;
    da * da + db * db
}

/// Numerator of the projected x coordinate of `p` onto the line `a`-`b`.
pub open spec fn proj_x_num(p: Point, a: Point, b: Point) -> int {
    let da = b.y - a.y;
    let db = a.x - b.x;
    let c1 = da * a.x + db * a.y;
    let c2 = da * p.y - db * p.x;
    da * c1 - db * c2
}

/// Numerator of the projected y coordinate of `p` onto the line `a`-`b`.
pub open spec fn proj_y_num(p: Point, a: Point, b: Point) -> int {
    let da = b.y - a.y;
    let db = a.x - b.x;
    let c1 = da * a.x + db * a.y;
    let c2 = da * p.y - db * p.x;
    da * c2 + db * c1
}

impl Point {
    /// Whether both coordinates lie within [`COORD_LIMIT`].
    pub open spec fn in_range(self) -> bool {
        -COORD_LIMIT <= self.x <= COORD_LIMIT && -COORD_LIMIT <= self.y <= COORD_LIMIT
    }

    /// Builds a point from 32-bit coordinates.
    pub fn from_i32(x: i32, y: i32) -> (p: Point)
        ensures
            p.x == x,
            p.y == y,
            p.in_range(),
    {
        Point { x: x as i64, y: y as i64 }
    }

    /// Squared Euclidean distance to `other`, exactly.
    pub fn distance_sq(&self, other: &Point) -> (d: u128)
        requires
            self.in_range(),
            other.in_range(),
        ensures
            d == dist_sq(*self, *other),
            d <= 0x2_0000_0000_0000_0000u128,
    {
        let dx = self.x as i128 - other.x as i128;
        let dy = self.y as i128 - other.y as i128;
        proof {
            assert(0 <= dx * dx <= 0x1_0000_0000_0000_0000i128 && 0 <= dy * dy
                <= 0x1_0000_0000_0000_0000i128) by (nonlinear_arith)
                requires
                    -0x1_0000_0000i128 <= dx <= 0x1_0000_0000i128,
                    -0x1_0000_0000i128 <= dy <= 0x1_0000_0000i128,
            ;
        }
        (dx * dx + dy * dy) as u128
    }

    /// Euclidean distance to `other`, rounded down to a whole unit.
    pub fn distance(&self, other: &Point) -> (d: u64)
        requires
            self.in_range(),
            other.in_range(),
        ensures
            d == sqrt_floor(dist_sq(*self, *other) as nat),
    {
        let sq = self.distance_sq(other);
        let r = isqrt(sq);
        proof {
            crate::num::lemma_sqrt_floor_bounds(sq as nat);
            assert(r <= 0x2_0000_0000u128) by (nonlinear_arith)
                requires
                    r * r <= 0x2_0000_0000_0000_0000i128,
                    r >= 0,
            ;
        }
        r as u64
    }

    /// Squared distance from the origin, exactly.
    pub fn norm_sq(&self) -> (d: u128)
        requires
            self.in_range(),
        ensures
            d == dist_sq(*self, Point { x: 0, y: 0 }),
    {
        self.distance_sq(&Point { x: 0, y: 0 })
    }

    /// Distance from the origin, rounded down to a whole unit.
    pub fn norm(&self) -> (d: u64)
        requires
            self.in_range(),
        ensures
            d == sqrt_floor(dist_sq(*self, Point { x: 0, y: 0 }) as nat),
    {
        self.distance(&Point { x: 0, y: 0 })
    }

    /// Componentwise sum.
    pub fn plus(&self, other: &Point) -> (p: Point)
        requires
            self.in_range(),
            other.in_range(),
        ensures
            p.x == self.x + other.x,
            p.y == self.y + other.y,
    {
        Point { x: self.x + other.x, y: self.y + other.y }
    }

    /// Componentwise difference.
    pub fn minus(&self, other: &Point) -> (p: Point)
        requires
            self.in_range(),
            other.in_range(),
        ensures
            p.x == self.x - other.x,
            p.y == self.y - other.y,
    {
        Point { x: self.x - other.x, y: self.y - other.y }
    }

    /// The orthogonal projection of `self` onto the infinite line through
    /// `a` and `b`, via the normal-form projection.  It is a full line
    /// projection, not clamped to the `[a, b]` span.  When `a` and `b`
    /// coincide the point itself is returned (a point is defined to already
    /// lie on a zero-length segment).
    pub fn closest(&self, a: &Point, b: &Point) -> (r: Projection)
        requires
            self.in_range(),
            a.in_range(),
            b.in_range(),
        ensures
            r.den > 0,
            proj_den(*a, *b) != 0 ==> r.x_num == proj_x_num(*self, *a, *b) && r.y_num
                == proj_y_num(*self, *a, *b) && r.den == proj_den(*a, *b),
            proj_den(*a, *b) == 0 ==> r.x_num == self.x && r.y_num == self.y && r.den == 1,
    {
        let da = b.y as i128 - a.y as i128;
        let db = a.x as i128 - b.x as i128;
        proof {
            lemma_proj_products(
                da as int,
                db as int,
                a.x as int,
                a.y as int,
                self.x as int,
                self.y as int,
            );
        }
        let c1 = da * (a.x as i128) + db * (a.y as i128);
        let c2 = da * (self.y as i128) - db * (self.x as i128);
        let det = da * da + db * db;
        if det != 0 {
            Projection { x_num: da * c1 - db * c2, y_num: da * c2 + db * c1, den: det }
        } else {
            Projection { x_num: self.x as i128, y_num: self.y as i128, den: 1 }
        }
    }
}

/// Bounds for every product in the normal-form projection, so that the
/// computation stays inside `i128`.
proof fn lemma_proj_products(da: int, db: int, ax: int, ay: int, px: int, py: int)
    requires
        -0x1_0000_0000 <= da <= 0x1_0000_0000,
        -0x1_0000_0000 <= db <= 0x1_0000_0000,
        -0x8000_0000 <= ax <= 0x8000_0000,
        -0x8000_0000 <= ay <= 0x8000_0000,
        -0x8000_0000 <= px <= 0x8000_0000,
        -0x8000_0000 <= py <= 0x8000_0000,
    ensures
        -0x8000_0000_0000_0000int <= da * ax <= 0x8000_0000_0000_0000int,
        -0x8000_0000_0000_0000int <= db * ay <= 0x8000_0000_0000_0000int,
        -0x8000_0000_0000_0000int <= db * px <= 0x8000_0000_0000_0000int,
        -0x8000_0000_0000_0000int <= da * py <= 0x8000_0000_0000_0000int,
        0 <= da * da <= 0x1_0000_0000_0000_0000int,
        0 <= db * db <= 0x1_0000_0000_0000_0000int,
        -0x2_0000_0000_0000_0000_0000_0000int <= da * (da * ax + db * ay)
            <= 0x2_0000_0000_0000_0000_0000_0000int,
        -0x2_0000_0000_0000_0000_0000_0000int <= db * (da * py - db * px)
            <= 0x2_0000_0000_0000_0000_0000_0000int,
        -0x2_0000_0000_0000_0000_0000_0000int <= da * (da * py - db * px)
            <= 0x2_0000_0000_0000_0000_0000_0000int,
        -0x2_0000_0000_0000_0000_0000_0000int <= db * (da * ax + db * ay)
            <= 0x2_0000_0000_0000_0000_0000_0000int,
        -0x4_0000_0000_0000_0000_0000_0000int <= da * (da * ax + db * ay) - db * (da * py - db
            * px) <= 0x4_0000_0000_0000_0000_0000_0000int,
        -0x4_0000_0000_0000_0000_0000_0000int <= da * (da * py - db * px) + db * (da * ax + db
            * ay) <= 0x4_0000_0000_0000_0000_0000_0000int,
{
    assert(-0x8000_0000_0000_0000int <= da * ax <= 0x8000_0000_0000_0000int
        && -0x8000_0000_0000_0000int <= db * ay <= 0x8000_0000_0000_0000int
        && -0x8000_0000_0000_0000int <= db * px <= 0x8000_0000_0000_0000int
        && -0x8000_0000_0000_0000int <= da * py <= 0x8000_0000_0000_0000int && 0 <= da * da
        <= 0x1_0000_0000_0000_0000int && 0 <= db * db <= 0x1_0000_0000_0000_0000int)
        by (nonlinear_arith)
        requires
            -0x1_0000_0000 <= da <= 0x1_0000_0000,
            -0x1_0000_0000 <= db <= 0x1_0000_0000,
            -0x8000_0000 <= ax <= 0x8000_0000,
            -0x8000_0000 <= ay <= 0x8000_0000,
            -0x8000_0000 <= px <= 0x8000_0000,
            -0x8000_0000 <= py <= 0x8000_0000,
    ;
    let c1 = da * ax + db * ay;
    let c2 = da * py - db * px;
    assert(-0x2_0000_0000_0000_0000_0000_0000int <= da * c1 <= 0x2_0000_0000_0000_0000_0000_0000int
        && -0x2_0000_0000_0000_0000_0000_0000int <= db * c2
        <= 0x2_0000_0000_0000_0000_0000_0000int && -0x2_0000_0000_0000_0000_0000_0000int <= da * c2
        <= 0x2_0000_0000_0000_0000_0000_0000int && -0x2_0000_0000_0000_0000_0000_0000int <= db * c1
        <= 0x2_0000_0000_0000_0000_0000_0000int) by (nonlinear_arith)
        requires
            -0x1_0000_0000 <= da <= 0x1_0000_0000,
            -0x1_0000_0000 <= db <= 0x1_0000_0000,
            -0x1_0000_0000_0000_0000int <= c1 <= 0x1_0000_0000_0000_0000int,
            -0x1_0000_0000_0000_0000int <= c2 <= 0x1_0000_0000_0000_0000int,
    ;
}

/// The projection law for [`Point::closest`] on a proper line: the exact
/// rational point `(x_num / den, y_num / den)` lies on the line through
/// `a` and `b`, and the segment from the query point to it is orthogonal
/// to the line.  Both statements are cleared of the common denominator.
pub proof fn lemma_closest_is_projection(p: Point, a: Point, b: Point)
    requires
        proj_den(a, b) != 0,
    ensures
        (b.x - a.x) * (proj_y_num(p, a, b) - a.y * proj_den(a, b)) == (b.y - a.y) * (proj_x_num(
            p,
            a,
            b,
        ) - a.x * proj_den(a, b)),
        (p.x * proj_den(a, b) - proj_x_num(p, a, b)) * (b.x - a.x) + (p.y * proj_den(a, b)
            - proj_y_num(p, a, b)) * (b.y - a.y) == 0,
{
    let da = b.y - a.y;
    let db = a.x - b.x;
    let c1 = da * a.x + db * a.y;
    let c2 = da * p.y - db * p.x;
    let den = da * da + db * db;
    let xn = da * c1 - db * c2;
    let yn = da * c2 + db * c1;
    let k = da * (a.y - p.y) + db * (p.x - a.x);
    let m = da * (p.x - a.x) + db * (p.y - a.y);
    assert(xn - a.x * den == db * k) by (nonlinear_arith)
        requires
            c1 == da * a.x + db * a.y,
            c2 == da * p.y - db * p.x,
            den == da * da + db * db,
            xn == da * c1 - db * c2,
            k == da * (a.y - p.y) + db * (p.x - a.x),
    ;
    assert(yn - a.y * den == -(da * k)) by (nonlinear_arith)
        requires
            c1 == da * a.x + db * a.y,
            c2 == da * p.y - db * p.x,
            den == da * da + db * db,
            yn == da * c2 + db * c1,
            k == da * (a.y - p.y) + db * (p.x - a.x),
    ;
    assert(p.x * den - xn == da * m) by (nonlinear_arith)
        requires
            c1 == da * a.x + db * a.y,
            c2 == da * p.y - db * p.x,
            den == da * da + db * db,
            xn == da * c1 - db * c2,
            m == da * (p.x - a.x) + db * (p.y - a.y),
    ;
    assert(p.y * den - yn == db * m) by (nonlinear_arith)
        requires
            c1 == da * a.x + db * a.y,
            c2 == da * p.y - db * p.x,
            den == da * da + db * db,
            yn == da * c2 + db * c1,
            m == da * (p.x - a.x) + db * (p.y - a.y),
    ;
    assert((-db) * (yn - a.y * den) == da * (xn - a.x * den)) by (nonlinear_arith)
        requires
            xn - a.x * den == db * k,
            yn - a.y * den == -(da * k),
    ;
    assert((p.x * den - xn) * (-db) + (p.y * den - yn) * da == 0) by (nonlinear_arith)
        requires
            p.x * den - xn == da * m,
            p.y * den - yn == db * m,
    ;
}

impl Projection {
    /// Whether this exact rational point equals the whole-unit point `p`.
    pub fn equals_point(&self, p: &Point) -> (r: bool)
        requires
            0 < self.den <= 0x2_0000_0000_0000_0000i128,
            -0x4_0000_0000_0000_0000_0000_0000i128 <= self.x_num
                <= 0x4_0000_0000_0000_0000_0000_0000i128,
            -0x4_0000_0000_0000_0000_0000_0000i128 <= self.y_num
                <= 0x4_0000_0000_0000_0000_0000_0000i128,
            p.in_range(),
        ensures
            r == (self.x_num == p.x * self.den && self.y_num == p.y * self.den),
    {
        proof {
            assert(-0x1_0000_0000_0000_0000_0000_0000int <= p.x as int * self.den
                <= 0x1_0000_0000_0000_0000_0000_0000int && -0x1_0000_0000_0000_0000_0000_0000int
                <= p.y as int * self.den <= 0x1_0000_0000_0000_0000_0000_0000int)
                by (nonlinear_arith)
                requires
                    -0x8000_0000 <= p.x <= 0x8000_0000,
                    -0x8000_0000 <= p.y <= 0x8000_0000,
                    0 < self.den <= 0x2_0000_0000_0000_0000i128,
            ;
        }
        self.x_num == (p.x as i128) * self.den && self.y_num == (p.y as i128) * self.den
    }
}

} // verus!
