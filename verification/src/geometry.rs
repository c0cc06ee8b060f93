//! Tests of a point against a box and against a segment.

use crate::coord::{dist_sq, is_near, near, Coordinate, HIT_TOLERANCE};
use vstd::prelude::*;

verus! {

/// Whether `p` lies in the closed box that has `c1` and `c2` as opposite
/// corners, in whatever order they are given.
pub open spec fn in_box(c1: Coordinate, c2: Coordinate, p: Coordinate) -> bool {
    &&& (c1.x <= p.x <= c2.x || c2.x <= p.x <= c1.x)
    &&& (c1.y <= p.y <= c2.y || c2.y <= p.y <= c1.y)
}

/// Calls `geo::Rect::new` on the two corners and `Intersects::intersects`
/// on the rectangle and the point. `Rect::new` orders the corners on each
/// axis; `intersects` is true when the point is no less than the minimum and
/// no more than the maximum on both axes.
#[verifier::external_body]
pub(crate) fn box_intersects(c1: Coordinate, c2: Coordinate, p: Coordinate) -> (r: bool)
    ensures
        r == in_box(c1, c2, p),
{
    let rect = geo::Rect::new(geo::Coord { x: c1.x, y: c1.y }, geo::Coord { x: c2.x, y: c2.y });
    geo::Intersects::intersects(&rect, &geo::Coord { x: p.x, y: p.y })
}

/// The scalar product of `b - a` and `p - a`.
pub open spec fn along(a: Coordinate, b: Coordinate, p: Coordinate) -> int {
    (b.x - a.x) * (p.x - a.x) + (b.y - a.y) * (p.y - a.y)
}

/// Twice the signed area of the triangle `a`, `b`, `p`.
pub open spec fn across(a: Coordinate, b: Coordinate, p: Coordinate) -> int {
    (b.x - a.x) * (p.y - a.y) - (b.y - a.y) * (p.x - a.x)
}

/// Whether `p` is closer than the hit tolerance to the segment from `a` to
/// `b`. Where the foot of the perpendicular from `p` falls before `a` or
/// after `b`, the nearer end decides; between them the distance to the line
/// does, whose square is `across² / |b - a|²`.
pub open spec fn near_segment(a: Coordinate, b: Coordinate, p: Coordinate) -> bool {
    if along(a, b, p) <= 0 {
        near(p, a)
    } else if along(a, b, p) >= dist_sq(a, b) {
        near(p, b)
    } else {
        across(a, b, p) * across(a, b, p) < HIT_TOLERANCE * HIT_TOLERANCE * dist_sq(a, b)
    }
}

/// The product of two numbers of magnitude at most `m` has magnitude at most
/// `m * m`.
pub proof fn lemma_product_bound(u: int, v: int, m: int)
    requires
        -m <= u <= m,
        -m <= v <= m,
    ensures
        -(m * m) <= u * v <= m * m,
{
    assert(-(m * m) <= u * v <= m * m) by (nonlinear_arith)
        requires
            -m <= u <= m,
            -m <= v <= m,
    ;
}

/// Whether `p` is closer than the hit tolerance to the segment from `a` to
/// `b`, all three in the world.
pub fn is_near_segment(a: Coordinate, b: Coordinate, p: Coordinate) -> (r: bool)
    requires
        a.in_world(),
        b.in_world(),
        p.in_world(),
    ensures
        r == near_segment(a, b, p),
{
    let dx: i64 = b.x - a.x;
    let dy: i64 = b.y - a.y;
    let px: i64 = p.x - a.x;
    let py: i64 = p.y - a.y;
    proof {
        lemma_product_bound(dx as int, px as int, 400_000_000);
        lemma_product_bound(dy as int, py as int, 400_000_000);
        lemma_product_bound(dx as int, dx as int, 400_000_000);
        lemma_product_bound(dy as int, dy as int, 400_000_000);
        lemma_product_bound(dx as int, py as int, 400_000_000);
        lemma_product_bound(dy as int, px as int, 400_000_000);
        assert(dx * dx >= 0 && dy * dy >= 0) by (nonlinear_arith);
    }
    let t: i64 = dx * px + dy * py;
    let len: i64 = dx * dx + dy * dy;
    assert(len == dist_sq(a, b)) by (nonlinear_arith)
        requires
            len == dx * dx + dy * dy,
            dx == b.x - a.x,
            dy == b.y - a.y,
    ;
    if t <= 0 {
        is_near(p, a)
    } else if t >= len {
        is_near(p, b)
    } else {
        let c: i64 = dx * py - dy * px;
        proof {
            lemma_product_bound(c as int, c as int, 320_000_000_000_000_000);
            assert(c * c >= 0) by (nonlinear_arith);
        }
        let c2: i128 = (c as i128) * (c as i128);
        let bound: i128 = 100 * (len as i128);
        assert(HIT_TOLERANCE * HIT_TOLERANCE * dist_sq(a, b) == 100 * len) by (nonlinear_arith)
            requires
                HIT_TOLERANCE == 10,
                dist_sq(a, b) == len,
        ;
        assert(c == across(a, b, p));
        c2 < bound
    }
}

} // verus!
