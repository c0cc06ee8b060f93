//! The viewport: where the world's origin sits on the device, and the zoom.
//!
//! The scale counts hundredths, so 100 shows the world at its own size. The
//! origin is kept in hundredths of a device unit, which lets a change of
//! scale keep the point under the pointer exactly where it is.

use crate::coord::{clamp, clamped, floor_div, Coordinate, DEVICE_MAX, WORLD_MAX};
use vstd::arithmetic::div_mod::{
    lemma_fundamental_div_mod, lemma_fundamental_div_mod_converse, lemma_hoist_over_denominator,
    lemma_mod_bound,
};
use vstd::prelude::*;

verus! {

/// The scale that shows the world at its own size.
pub const SCALE_UNIT: i64 = 100;

/// The smallest scale: the floor that keeps the zoom above zero.
pub const SCALE_MIN: i64 = 1;

/// The largest scale.
pub const SCALE_MAX: i64 = 10_000;

/// Largest magnitude of an origin coordinate, in hundredths of a device unit.
pub const ORIGIN_MAX: i64 = 100_000_000;

#[derive(Clone, Copy, Debug, PartialEq, Eq, Structural)]
pub struct Viewport {
    /// The device position of the world's origin, in hundredths of a device
    /// unit.
    pub origin: Coordinate,
    /// The zoom, in hundredths.
    pub scale: i64,
}

/// `val` moved to the nearest scale of `SCALE_MIN ..= SCALE_MAX`.
pub open spec fn clamped_scale(val: int) -> int {
    if val < SCALE_MIN {
        SCALE_MIN as int
    } else if val > SCALE_MAX {
        SCALE_MAX as int
    } else {
        val
    }
}

/// The world coordinate under the device coordinate `d`, on one axis with
/// origin `origin` and scale `scale`: `(d - origin) / scale`, counted in
/// hundredths and rounded down. A `d` beyond the device range counts as the
/// edge of that range.
pub open spec fn axis_to_world(origin: int, scale: int, d: int) -> int {
    (SCALE_UNIT * clamped(d, DEVICE_MAX as int) - origin) / scale
}

/// The device position, in hundredths of a device unit, of the world
/// coordinate `w` on one axis: `origin + w * scale`.
pub open spec fn axis_to_device_fine(origin: int, scale: int, w: int) -> int {
    origin + w * scale
}

/// The device coordinate of the world coordinate `w` on one axis, rounded
/// down to a whole device unit.
pub open spec fn axis_to_device(origin: int, scale: int, w: int) -> int {
    axis_to_device_fine(origin, scale, w) / (SCALE_UNIT as int)
}

/// A world length as it shows on the device, rounded down.
pub open spec fn scaled(scale: int, len: int) -> int {
    len * scale / (SCALE_UNIT as int)
}

/// A quotient by a positive number is no larger in magnitude than the
/// dividend.
pub proof fn lemma_quotient_bound(a: int, b: int, m: int)
    requires
        -m <= a <= m,
        1 <= b,
    ensures
        -m <= a / b <= m,
{
    assert(-m <= a / b <= m) by (nonlinear_arith)
        requires
            -m <= a <= m,
            1 <= b,
    ;
}

/// By how much a world coordinate falls short when it is sent to the device
/// and back, on one axis: the hundredths by which its device position is
/// past a whole device unit, counted in world units and rounded up.
pub open spec fn axis_shortfall(origin: int, scale: int, w: int) -> int {
    (axis_to_device_fine(origin, scale, w) % (SCALE_UNIT as int) + scale - 1) / scale
}

/// On one axis, a world coordinate sent to the device and back comes out
/// short by `axis_shortfall`, which is not negative and less than one device
/// unit and one world unit together.
pub proof fn lemma_axis_there_and_back(origin: int, scale: int, w: int)
    requires
        1 <= scale,
        -DEVICE_MAX <= axis_to_device(origin, scale, w) <= DEVICE_MAX,
    ensures
        axis_to_world(origin, scale, axis_to_device(origin, scale, w)) == w - axis_shortfall(
            origin,
            scale,
            w,
        ),
        axis_to_world(origin, scale, axis_to_device(origin, scale, w)) <= w,
        (w - axis_to_world(origin, scale, axis_to_device(origin, scale, w))) * scale < SCALE_UNIT
            + scale,
        axis_to_device_fine(origin, scale, w) % (SCALE_UNIT as int) == 0 ==> axis_to_world(
            origin,
            scale,
            axis_to_device(origin, scale, w),
        ) == w,
{
    lemma_axis_shortfall(origin, scale, w);
    let f = origin + w * scale;
    let d = f / 100;
    let n = 100 * d - origin;
    let back = n / scale;
    lemma_fundamental_div_mod(f, 100);
    lemma_mod_bound(f, 100);
    lemma_fundamental_div_mod(n, scale);
    lemma_mod_bound(n, scale);
    assert(back == axis_to_world(origin, scale, d));
    assert(n <= w * scale);
    assert(w * scale - 100 < n);
    assert(back * scale <= n) by (nonlinear_arith)
        requires
            n == scale * back + n % scale,
            0 <= n % scale,
    ;
    assert(n < back * scale + scale) by (nonlinear_arith)
        requires
            n == scale * back + n % scale,
            n % scale < scale,
    ;
    assert(back <= w) by (nonlinear_arith)
        requires
            back * scale <= w * scale,
            1 <= scale,
    ;
    assert((w - back) * scale < 100 + scale) by (nonlinear_arith)
        requires
            w * scale - 100 < back * scale + scale,
    ;
}

/// The shortfall is what is missing: the device position without its part
/// past a whole unit, taken back to the world, is the coordinate less the
/// shortfall.
proof fn lemma_axis_shortfall(origin: int, scale: int, w: int)
    requires
        1 <= scale,
    ensures
        (100 * (axis_to_device_fine(origin, scale, w) / 100) - origin) / scale == w
            - axis_shortfall(origin, scale, w),
        axis_to_device_fine(origin, scale, w) % 100 == 0 ==> axis_shortfall(origin, scale, w) == 0,
{
    let f = origin + w * scale;
    let r = f % 100;
    let k = (r + scale - 1) / scale;
    let m = (r + scale - 1) % scale;
    let n = 100 * (f / 100) - origin;
    lemma_fundamental_div_mod(f, 100);
    lemma_mod_bound(f, 100);
    lemma_fundamental_div_mod(r + scale - 1, scale);
    lemma_mod_bound(r + scale - 1, scale);
    assert(n == scale * (w - k) + (scale - 1 - m)) by (nonlinear_arith)
        requires
            n == w * scale - r,
            r + scale - 1 == scale * k + m,
    ;
    lemma_fundamental_div_mod_converse(n, scale, w - k, scale - 1 - m);
    if r == 0 {
        assert(k == 0) by (nonlinear_arith)
            requires
                scale - 1 == scale * k + m,
                0 <= m < scale,
                1 <= scale,
        ;
    }
}

/// On one axis, after the scale changed from `scale` to `s` about the
/// device coordinate `d`, with the origin moved as `zoomed` moves it and not
/// clamped: the world coordinate that was under `d` shows at the very same
/// device position as before, and the world coordinate now under `d` is the
/// former one plus the part of a world unit by which `d` was past it,
/// measured at the new scale.
pub proof fn lemma_axis_pivot(origin: int, scale: int, s: int, d: int)
    requires
        1 <= scale,
        1 <= s,
    ensures
        ({
            let w = axis_to_world(origin, scale, d);
            let moved = origin + w * (scale - s);
            let past = (SCALE_UNIT * clamped(d, DEVICE_MAX as int) - origin) % scale;
            &&& axis_to_device_fine(moved, s, w) == axis_to_device_fine(origin, scale, w)
            &&& 0 <= past < scale
            &&& axis_to_world(moved, s, d) == w + past / s
            &&& past < s ==> axis_to_world(moved, s, d) == w
        }),
{
    let n = SCALE_UNIT * clamped(d, DEVICE_MAX as int) - origin;
    let w = n / scale;
    let past = n % scale;
    let moved = origin + w * (scale - s);
    lemma_fundamental_div_mod(n, scale);
    lemma_mod_bound(n, scale);
    assert(moved + w * s == origin + w * scale) by (nonlinear_arith)
        requires
            moved == origin + w * (scale - s),
    ;
    let m = SCALE_UNIT * clamped(d, DEVICE_MAX as int) - moved;
    assert(m == past + w * s) by (nonlinear_arith)
        requires
            m == n - w * (scale - s),
            n == scale * w + past,
    ;
    lemma_hoist_over_denominator(past, w, s as nat);
    assert(m / s == past / s + w);
    if past < s {
        assert(past / s == 0) by (nonlinear_arith)
            requires
                0 <= past < s,
        ;
    }
}

impl Viewport {
    /// The scale is in range and the origin within its bound.
    pub open spec fn wf(self) -> bool {
        &&& SCALE_MIN <= self.scale <= SCALE_MAX
        &&& -ORIGIN_MAX <= self.origin.x <= ORIGIN_MAX
        &&& -ORIGIN_MAX <= self.origin.y <= ORIGIN_MAX
    }

    /// The world point under a device point.
    pub open spec fn to_world(self, d: Coordinate) -> Coordinate {
        Coordinate {
            x: axis_to_world(self.origin.x as int, self.scale as int, d.x as int) as i64,
            y: axis_to_world(self.origin.y as int, self.scale as int, d.y as int) as i64,
        }
    }

    /// The device point that shows a world point.
    pub open spec fn to_device(self, w: Coordinate) -> Coordinate {
        Coordinate {
            x: axis_to_device(self.origin.x as int, self.scale as int, w.x as int) as i64,
            y: axis_to_device(self.origin.y as int, self.scale as int, w.y as int) as i64,
        }
    }

    /// The viewport after the scale was set to `val` about the device point
    /// `(x, y)`: the scale is `val` clamped to its range, and the origin moves
    /// by the world point under `(x, y)` times the drop in scale, clamped to
    /// its bound.
    pub open spec fn zoomed(self, val: int, x: int, y: int) -> Viewport {
        let s = clamped_scale(val);
        let wx = axis_to_world(self.origin.x as int, self.scale as int, x);
        let wy = axis_to_world(self.origin.y as int, self.scale as int, y);
        Viewport {
            origin: Coordinate {
                x: clamped(self.origin.x + wx * (self.scale - s), ORIGIN_MAX as int) as i64,
                y: clamped(self.origin.y + wy * (self.scale - s), ORIGIN_MAX as int) as i64,
            },
            scale: s as i64,
        }
    }

    /// The viewport after a pan from the device point `prev` to the device
    /// point `target`: the origin moves by their difference, clamped to its
    /// bound. Points beyond the device range count as its edge.
    pub open spec fn panned(self, prev: Coordinate, target: Coordinate) -> Viewport {
        let dx = clamped(target.x as int, DEVICE_MAX as int) - clamped(
            prev.x as int,
            DEVICE_MAX as int,
        );
        let dy = clamped(target.y as int, DEVICE_MAX as int) - clamped(
            prev.y as int,
            DEVICE_MAX as int,
        );
        Viewport {
            origin: Coordinate {
                x: clamped(self.origin.x + SCALE_UNIT * dx, ORIGIN_MAX as int) as i64,
                y: clamped(self.origin.y + SCALE_UNIT * dy, ORIGIN_MAX as int) as i64,
            },
            ..self
        }
    }

    /// The viewport at scale `SCALE_UNIT` whose world origin shows at the
    /// device point `(x, y)`, clamped to the device range.
    pub open spec fn at(x: int, y: int) -> Viewport {
        Viewport {
            origin: Coordinate {
                x: (SCALE_UNIT * clamped(x, DEVICE_MAX as int)) as i64,
                y: (SCALE_UNIT * clamped(y, DEVICE_MAX as int)) as i64,
            },
            scale: SCALE_UNIT,
        }
    }

    pub fn new(x: i64, y: i64) -> (v: Viewport)
        ensures
            v == Viewport::at(x as int, y as int),
            v.wf(),
    {
        Viewport {
            origin: Coordinate {
                x: SCALE_UNIT * clamp(x, DEVICE_MAX),
                y: SCALE_UNIT * clamp(y, DEVICE_MAX),
            },
            scale: SCALE_UNIT,
        }
    }

    fn axis_relative(origin: i64, scale: i64, d: i64) -> (w: i64)
        requires
            -ORIGIN_MAX <= origin <= ORIGIN_MAX,
            SCALE_MIN <= scale <= SCALE_MAX,
        ensures
            w == axis_to_world(origin as int, scale as int, d as int),
            -WORLD_MAX <= w <= WORLD_MAX,
    {
        let n: i64 = SCALE_UNIT * clamp(d, DEVICE_MAX) - origin;
        proof {
            lemma_quotient_bound(n as int, scale as int, WORLD_MAX as int);
        }
        floor_div(n, scale)
    }

    /// The world point under a device point.
    pub fn relative_coord(&self, coord: Coordinate) -> (r: Coordinate)
        requires
            self.wf(),
        ensures
            r == self.to_world(coord),
            r.in_world(),
    {
        Coordinate {
            x: Self::axis_relative(self.origin.x, self.scale, coord.x),
            y: Self::axis_relative(self.origin.y, self.scale, coord.y),
        }
    }

    fn axis_absolute(origin: i64, scale: i64, w: i64) -> (d: i64)
        requires
            -ORIGIN_MAX <= origin <= ORIGIN_MAX,
            SCALE_MIN <= scale <= SCALE_MAX,
            -WORLD_MAX <= w <= WORLD_MAX,
        ensures
            d == axis_to_device(origin as int, scale as int, w as int),
    {
        assert(-2_000_000_000_000 <= w * scale <= 2_000_000_000_000) by (nonlinear_arith)
            requires
                -200_000_000 <= w <= 200_000_000,
                1 <= scale <= 10_000,
        ;
        floor_div(origin + w * scale, SCALE_UNIT)
    }

    /// The device point that shows a world point.
    pub fn absolute_coord(&self, coord: Coordinate) -> (r: Coordinate)
        requires
            self.wf(),
            coord.in_world(),
        ensures
            r == self.to_device(coord),
    {
        Coordinate {
            x: Self::axis_absolute(self.origin.x, self.scale, coord.x),
            y: Self::axis_absolute(self.origin.y, self.scale, coord.y),
        }
    }

    /// A world length as it shows on the device.
    pub fn scale_len(&self, len: i64) -> (r: i64)
        requires
            self.wf(),
            -4 * WORLD_MAX <= len <= 4 * WORLD_MAX,
        ensures
            r == scaled(self.scale as int, len as int),
    {
        let scale: i64 = self.scale;
        assert(-8_000_000_000_000 <= len * scale <= 8_000_000_000_000) by (nonlinear_arith)
            requires
                -800_000_000 <= len <= 800_000_000,
                1 <= scale <= 10_000,
        ;
        floor_div(len * scale, SCALE_UNIT)
    }

    fn clamp_scale(val: i64) -> (s: i64)
        ensures
            s == clamped_scale(val as int),
    {
        if val < SCALE_MIN {
            SCALE_MIN
        } else if val > SCALE_MAX {
            SCALE_MAX
        } else {
            val
        }
    }

    fn axis_zoom(origin: i64, scale: i64, s: i64, d: i64) -> (o: i64)
        requires
            -ORIGIN_MAX <= origin <= ORIGIN_MAX,
            SCALE_MIN <= scale <= SCALE_MAX,
            SCALE_MIN <= s <= SCALE_MAX,
        ensures
            o == clamped(
                origin + axis_to_world(origin as int, scale as int, d as int) * (scale - s),
                ORIGIN_MAX as int,
            ),
    {
        let w: i64 = Self::axis_relative(origin, scale, d);
        let zoom: i64 = scale - s;
        assert(-2_000_000_000_000 <= w * zoom <= 2_000_000_000_000) by (nonlinear_arith)
            requires
                -200_000_000 <= w <= 200_000_000,
                -10_000 <= zoom <= 10_000,
        ;
        clamp(origin + w * zoom, ORIGIN_MAX)
    }

    /// Sets the scale to `val` about the device point `(x, y)`.
    pub fn set_scale(&mut self, val: i64, x: i64, y: i64)
        requires
            old(self).wf(),
        ensures
            *final(self) == old(self).zoomed(val as int, x as int, y as int),
            final(self).wf(),
    {
        let s: i64 = Self::clamp_scale(val);
        self.origin = Coordinate {
            x: Self::axis_zoom(self.origin.x, self.scale, s, x),
            y: Self::axis_zoom(self.origin.y, self.scale, s, y),
        };
        self.scale = s;
    }

    /// Pans by the difference of two device points.
    pub fn move_pos(&mut self, prev: Coordinate, target: Coordinate)
        requires
            old(self).wf(),
        ensures
            *final(self) == old(self).panned(prev, target),
            final(self).wf(),
    {
        let dx: i64 = clamp(target.x, DEVICE_MAX) - clamp(prev.x, DEVICE_MAX);
        let dy: i64 = clamp(target.y, DEVICE_MAX) - clamp(prev.y, DEVICE_MAX);
        self.origin = Coordinate {
            x: clamp(self.origin.x + SCALE_UNIT * dx, ORIGIN_MAX),
            y: clamp(self.origin.y + SCALE_UNIT * dy, ORIGIN_MAX),
        };
    }
}

/// A world point sent to the device and back, where it shows within the
/// device range, comes out on each axis short by the shortfall of that axis:
/// by nothing where the point shows at a whole device unit; never by as much
/// as one device unit and one world unit together; and so by at most one
/// world unit at any scale from `SCALE_UNIT` up.
pub proof fn law_transform_inverse(v: Viewport, w: Coordinate)
    requires
        v.wf(),
        w.in_world(),
        v.to_device(w).in_device(),
    ensures
        v.to_world(v.to_device(w)).x == w.x - axis_shortfall(
            v.origin.x as int,
            v.scale as int,
            w.x as int,
        ),
        v.to_world(v.to_device(w)).y == w.y - axis_shortfall(
            v.origin.y as int,
            v.scale as int,
            w.y as int,
        ),
        axis_to_device_fine(v.origin.x as int, v.scale as int, w.x as int) % (SCALE_UNIT as int)
            == 0 && axis_to_device_fine(v.origin.y as int, v.scale as int, w.y as int) % (
        SCALE_UNIT as int) == 0 ==> v.to_world(v.to_device(w)) == w,
        v.to_world(v.to_device(w)).x <= w.x,
        v.to_world(v.to_device(w)).y <= w.y,
        (w.x - v.to_world(v.to_device(w)).x) * v.scale < SCALE_UNIT + v.scale,
        (w.y - v.to_world(v.to_device(w)).y) * v.scale < SCALE_UNIT + v.scale,
        v.scale >= SCALE_UNIT ==> w.x - v.to_world(v.to_device(w)).x <= 1 && w.y - v.to_world(
            v.to_device(w),
        ).y <= 1,
{
    lemma_world_range(v, w);
    lemma_axis_there_and_back(v.origin.x as int, v.scale as int, w.x as int);
    lemma_axis_there_and_back(v.origin.y as int, v.scale as int, w.y as int);
    lemma_quotient_bound(
        SCALE_UNIT * v.to_device(w).x - v.origin.x,
        v.scale as int,
        WORLD_MAX as int,
    );
    lemma_quotient_bound(
        SCALE_UNIT * v.to_device(w).y - v.origin.y,
        v.scale as int,
        WORLD_MAX as int,
    );
    let bx = v.to_world(v.to_device(w)).x;
    let by = v.to_world(v.to_device(w)).y;
    let s = v.scale;
    if s >= SCALE_UNIT {
        assert(w.x - bx <= 1) by (nonlinear_arith)
            requires
                (w.x - bx) * s < 100 + s,
                s >= 100,
        ;
        assert(w.y - by <= 1) by (nonlinear_arith)
            requires
                (w.y - by) * s < 100 + s,
                s >= 100,
        ;
    }
}

/// The device coordinates of a world point fit the machine integers.
pub proof fn lemma_world_range(v: Viewport, w: Coordinate)
    requires
        v.wf(),
        w.in_world(),
    ensures
        -20_002_000_000 <= axis_to_device(v.origin.x as int, v.scale as int, w.x as int)
            <= 20_002_000_000,
        -20_002_000_000 <= axis_to_device(v.origin.y as int, v.scale as int, w.y as int)
            <= 20_002_000_000,
{
    let s = v.scale as int;
    let wx = w.x as int;
    let wy = w.y as int;
    assert(-2_000_000_000_000 <= wx * s <= 2_000_000_000_000) by (nonlinear_arith)
        requires
            -200_000_000 <= wx <= 200_000_000,
            1 <= s <= 10_000,
    ;
    assert(-2_000_000_000_000 <= wy * s <= 2_000_000_000_000) by (nonlinear_arith)
        requires
            -200_000_000 <= wy <= 200_000_000,
            1 <= s <= 10_000,
    ;
}

/// Zooming keeps the point under the pointer still. After `set_scale` about a
/// device point, where the origin did not meet its bound: the world point
/// that was under the pointer shows at the very same device position, to the
/// hundredth; and the world point now under the pointer is the former one
/// whenever the pointer was less than a new world unit past it, as it always
/// is when the scale does not drop.
pub proof fn law_zoom_pivot(v: Viewport, val: int, x: int, y: int)
    requires
        v.wf(),
        -ORIGIN_MAX <= v.origin.x + axis_to_world(v.origin.x as int, v.scale as int, x) * (v.scale
            - clamped_scale(val)) <= ORIGIN_MAX,
        -ORIGIN_MAX <= v.origin.y + axis_to_world(v.origin.y as int, v.scale as int, y) * (v.scale
            - clamped_scale(val)) <= ORIGIN_MAX,
    ensures
        ({
            let z = v.zoomed(val, x, y);
            let wx = axis_to_world(v.origin.x as int, v.scale as int, x);
            let wy = axis_to_world(v.origin.y as int, v.scale as int, y);
            let past_x = (SCALE_UNIT * clamped(x, DEVICE_MAX as int) - v.origin.x) % (
            v.scale as int);
            let past_y = (SCALE_UNIT * clamped(y, DEVICE_MAX as int) - v.origin.y) % (
            v.scale as int);
            &&& axis_to_device_fine(z.origin.x as int, z.scale as int, wx) == axis_to_device_fine(
                v.origin.x as int,
                v.scale as int,
                wx,
            )
            &&& axis_to_device_fine(z.origin.y as int, z.scale as int, wy) == axis_to_device_fine(
                v.origin.y as int,
                v.scale as int,
                wy,
            )
            &&& axis_to_world(z.origin.x as int, z.scale as int, x) == wx + past_x / (
            z.scale as int)
            &&& axis_to_world(z.origin.y as int, z.scale as int, y) == wy + past_y / (
            z.scale as int)
            &&& past_x < z.scale ==> axis_to_world(z.origin.x as int, z.scale as int, x) == wx
            &&& past_y < z.scale ==> axis_to_world(z.origin.y as int, z.scale as int, y) == wy
            &&& z.scale >= v.scale ==> axis_to_world(z.origin.x as int, z.scale as int, x) == wx
                && axis_to_world(z.origin.y as int, z.scale as int, y) == wy
        }),
{
    lemma_axis_pivot(v.origin.x as int, v.scale as int, clamped_scale(val), x);
    lemma_axis_pivot(v.origin.y as int, v.scale as int, clamped_scale(val), y);
}

} // verus!
