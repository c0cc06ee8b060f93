//! Points of the integer grid, the ranges the panel works in, and the
//! exact arithmetic the shapes share.

use vstd::prelude::*;

verus! {

/// Largest magnitude of a world coordinate.
pub const WORLD_MAX: i64 = 200_000_000;

/// Largest magnitude of a pointer coordinate that the panel tells apart.
pub const DEVICE_MAX: i64 = 1_000_000;

/// Distance, in world units, below which a point counts as touching.
pub const HIT_TOLERANCE: i64 = 10;

/// A point, or a displacement, of the integer grid.
#[derive(Clone, Copy, Debug, PartialEq, Eq, Structural)]
pub struct Coordinate {
    pub x: i64,
    pub y: i64,
}

/// Whether `v` lies in the closed range `-limit ..= limit`.
pub open spec fn within(v: int, limit: int) -> bool {
    -limit <= v <= limit
}

/// `v` moved to the nearest value of `-limit ..= limit`.
pub open spec fn clamped(v: int, limit: int) -> int {
    if v < -limit {
        -limit
    } else if v > limit {
        limit
    } else {
        v
    }
}

/// The square of the Euclidean distance between two points.
pub open spec fn dist_sq(a: Coordinate, b: Coordinate) -> int {
    (a.x - b.x) * (a.x - b.x) + (a.y - b.y) * (a.y - b.y)
}

/// Whether two points are closer than the hit tolerance.
pub open spec fn near(a: Coordinate, b: Coordinate) -> bool {
    dist_sq(a, b) < HIT_TOLERANCE * HIT_TOLERANCE
}

impl Coordinate {
    /// Whether the point lies in the world.
    pub open spec fn in_world(self) -> bool {
        within(self.x as int, WORLD_MAX as int) && within(self.y as int, WORLD_MAX as int)
    }

    /// Whether the point lies in the range of pointer positions.
    pub open spec fn in_device(self) -> bool {
        within(self.x as int, DEVICE_MAX as int) && within(self.y as int, DEVICE_MAX as int)
    }

    pub fn new(x: i64, y: i64) -> (c: Coordinate)
        ensures
            c.x == x,
            c.y == y,
    {
        Coordinate { x, y }
    }
}

/// Clamps `v` into `-limit ..= limit`.
pub fn clamp(v: i64, limit: i64) -> (r: i64)
    requires
        0 <= limit,
    ensures
        r == clamped(v as int, limit as int),
{
    if v < -limit {
        -limit
    } else if v > limit {
        limit
    } else {
        v
    }
}

/// The quotient of `a` by a positive `b`, rounded toward minus infinity.
pub fn floor_div(a: i64, b: i64) -> (q: i64)
    requires
        0 < b,
        i64::MIN < a,
    ensures
        q == a as int / b as int,
{
    if a >= 0 {
        a / b
    } else {
        let n: i64 = -a;
        let t: i64 = (n - 1) / b;
        assert(a as int / b as int == -((n - 1) as int / b as int) - 1) by (nonlinear_arith)
            requires
                n == -a,
                n > 0,
                b > 0,
        ;
        -t - 1
    }
}

/// The square of the distance between two points of the world.
pub fn distance_sq(a: Coordinate, b: Coordinate) -> (d: i64)
    requires
        a.in_world(),
        b.in_world(),
    ensures
        d == dist_sq(a, b),
        0 <= d <= 320_000_000_000_000_000,
{
    let dx: i64 = a.x - b.x;
    let dy: i64 = a.y - b.y;
    assert(0 <= dx * dx <= 400_000_000 * 400_000_000) by (nonlinear_arith)
        requires
            -400_000_000 <= dx <= 400_000_000,
    ;
    assert(0 <= dy * dy <= 400_000_000 * 400_000_000) by (nonlinear_arith)
        requires
            -400_000_000 <= dy <= 400_000_000,
    ;
    dx * dx + dy * dy
}

/// Whether two points of the world are closer than the hit tolerance.
pub fn is_near(a: Coordinate, b: Coordinate) -> (r: bool)
    requires
        a.in_world(),
        b.in_world(),
    ensures
        r == near(a, b),
{
    distance_sq(a, b) < HIT_TOLERANCE * HIT_TOLERANCE
}

} // verus!
