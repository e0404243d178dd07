//! Points, sizes and rectangles in fixed-point coordinates, and the rounding
//! division that the view transform is built on.
//!
//! A world coordinate counts millionths of a pixel at zoom 1; a screen
//! coordinate counts billionths of a pixel. A screen unit is a thousandth of
//! a world unit, so that a zoom kept in thousandths maps world onto screen
//! without rounding.
use vstd::prelude::*;

verus! {

/// World units in one pixel at zoom 1.
pub const WORLD_UNITS_PER_PIXEL: i64 = 1_000_000;

/// Screen units in one pixel.
pub const SCREEN_UNITS_PER_PIXEL: i64 = 1_000_000_000;

/// Largest magnitude of a world coordinate, a box extent or a view center
/// (about 70 million pixels).
pub const WORLD_LIMIT: i64 = 70_368_744_177_664;

/// Largest magnitude of a screen coordinate handed to the library (about a
/// billion pixels); every world point within `WORLD_LIMIT` maps inside it.
pub const SCREEN_LIMIT: i64 = 1_152_921_504_606_846_976;

/// A position, or a displacement, on the plane.
#[derive(Clone, Copy, Debug, PartialEq, Eq, Structural)]
pub struct Point {
    pub x: i64,
    pub y: i64,
}

/// A width and a height.
#[derive(Clone, Copy, Debug, PartialEq, Eq, Structural)]
pub struct Size {
    pub width: i64,
    pub height: i64,
}

/// An axis-aligned rectangle: its top-left corner and its size.
#[derive(Clone, Copy, Debug, PartialEq, Eq, Structural)]
pub struct Bounds {
    pub origin: Point,
    pub size: Size,
}

/// `x` forced into `[lo, hi]`.
pub open spec fn clamp(x: int, lo: int, hi: int) -> int {
    if x < lo {
        lo
    } else if x > hi {
        hi
    } else {
        x
    }
}

/// `n / d` rounded to the nearest integer, halves rounded up.
pub open spec fn rounded_quotient(n: int, d: int) -> int {
    (2 * n + d) / (2 * d)
}

/// The point `(x, y)` held within the world limit.
pub open spec fn world_point(x: int, y: int) -> Point {
    Point {
        x: clamp(x, -WORLD_LIMIT, WORLD_LIMIT as int) as i64,
        y: clamp(y, -WORLD_LIMIT, WORLD_LIMIT as int) as i64,
    }
}

impl Point {
    /// Both coordinates lie within `[-lim, lim]`.
    pub open spec fn within(self, lim: int) -> bool {
        -lim <= self.x <= lim && -lim <= self.y <= lim
    }

    pub open spec fn in_world(self) -> bool {
        self.within(WORLD_LIMIT as int)
    }

    pub open spec fn in_screen(self) -> bool {
        self.within(SCREEN_LIMIT as int)
    }
}

impl Size {
    /// Both extents lie within `[0, WORLD_LIMIT]`.
    pub open spec fn in_world(self) -> bool {
        0 <= self.width <= WORLD_LIMIT && 0 <= self.height <= WORLD_LIMIT
    }
}

impl Bounds {
    pub open spec fn left(self) -> int {
        self.origin.x as int
    }

    pub open spec fn right(self) -> int {
        self.origin.x + self.size.width
    }

    pub open spec fn top(self) -> int {
        self.origin.y as int
    }

    pub open spec fn bottom(self) -> int {
        self.origin.y + self.size.height
    }

    /// Each rectangle starts strictly before the other ends, on both axes;
    /// touching edges do not count.
    pub open spec fn overlap(self, other: Bounds) -> bool {
        &&& self.left() < other.right()
        &&& self.right() > other.left()
        &&& self.top() < other.bottom()
        &&& self.bottom() > other.top()
    }
}

/// The rounded quotient lies within half a divisor of the true one.
pub proof fn lemma_rounded_quotient_error(n: int, d: int)
    requires
        d > 0,
    ensures
        -d < 2 * (d * rounded_quotient(n, d) - n) <= d,
{
    let q = rounded_quotient(n, d);
    vstd::arithmetic::div_mod::lemma_fundamental_div_mod(2 * n + d, 2 * d);
    vstd::arithmetic::div_mod::lemma_mod_bound(2 * n + d, 2 * d);
    assert((2 * d) * q == 2 * (d * q)) by (nonlinear_arith);
}

/// Dividing a multiple of `d` by `d` needs no rounding.
pub proof fn lemma_rounded_quotient_exact(k: int, d: int)
    requires
        d > 0,
    ensures
        rounded_quotient(k * d, d) == k,
{
    assert(2 * (k * d) + d == k * (2 * d) + d) by (nonlinear_arith);
    vstd::arithmetic::div_mod::lemma_fundamental_div_mod_converse(2 * (k * d) + d, 2 * d, k, d);
}

/// `x` clamped into `[lo, hi]`.
pub fn clamp_i64(x: i64, lo: i64, hi: i64) -> (r: i64)
    requires
        lo <= hi,
    ensures
        r == clamp(x as int, lo as int, hi as int),
{
    if x < lo {
        lo
    } else if x > hi {
        hi
    } else {
        x
    }
}

/// `n / d` rounded down.
pub fn floor_div(n: i128, d: i128) -> (q: i128)
    requires
        d > 0,
        n >= 0,
    ensures
        q == n / d,
{
    n.checked_div_euclid(d).unwrap()
}

/// `n / d` rounded to the nearest integer, halves rounded up.
pub fn round_div(n: i64, d: i64) -> (q: i64)
    requires
        0 < d <= 0x4000_0000,
        -0x2000_0000_0000_0000 <= n <= 0x2000_0000_0000_0000,
    ensures
        q == rounded_quotient(n as int, d as int),
{
    proof {
        lemma_rounded_quotient_error(n as int, d as int);
    }
    assert(-0x2000_0000_0000_0000 <= rounded_quotient(n as int, d as int) <= 0x2000_0000_0000_0000)
        by (nonlinear_arith)
        requires
            -d < 2 * (d * rounded_quotient(n as int, d as int) - n) <= d,
            0 < d,
            -0x2000_0000_0000_0000 <= n <= 0x2000_0000_0000_0000,
    ;
    (2 * n + d).checked_div_euclid(2 * d).unwrap()
}

} // verus!
