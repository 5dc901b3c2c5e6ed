//! Limits about the origin, along one, two or three axes.

use crate::fixed::{saturate, saturated};
use vstd::prelude::*;

verus! {

/// `v` lies within `limit` of zero, the ends included.
pub open spec fn within(limit: int, v: int) -> bool {
    -limit <= v <= limit
}

/// `v` brought within `limit` of zero: first down to `limit`, then up to
/// `-limit`. Under a negative limit every value comes out as `-limit`.
pub open spec fn clipped(limit: int, v: int) -> int {
    let low = if v <= limit { v } else { limit };
    if low >= -limit { low } else { -limit }
}

/// Clipping under a limit that is not negative brings a value within it.
pub proof fn lemma_clipped_is_within(limit: int, v: int)
    requires
        limit >= 0,
    ensures
        within(limit, clipped(limit, v)),
        within(limit, v) ==> clipped(limit, v) == v,
{
}

fn in_limit(limit: i32, v: i32) -> (b: bool)
    ensures
        b == within(limit as int, v as int),
{
    -(limit as i64) <= v as i64 && v <= limit
}

fn clip(limit: i32, v: i32) -> (r: i32)
    ensures
        r == saturated(clipped(limit as int, v as int)),
        limit > i32::MIN ==> r == clipped(limit as int, v as int),
{
    let low: i64 = if v <= limit { v as i64 } else { limit as i64 };
    let floor: i64 = -(limit as i64);
    saturate(if low >= floor { low } else { floor })
}

/// A limit along the x axis.
#[derive(Clone, Copy, Debug, PartialEq, Eq, Structural)]
pub struct XLimits {
    pub x: i32,
}

impl XLimits {
    pub fn new(limit: i32) -> (r: Self)
        ensures
            r.x == limit,
    {
        Self { x: limit }
    }

    pub fn in_limit(&self, x: i32) -> (b: bool)
        ensures
            b == within(self.x as int, x as int),
    {
        in_limit(self.x, x)
    }

    pub fn clip(&self, x: i32) -> (r: i32)
        ensures
            r == saturated(clipped(self.x as int, x as int)),
    {
        clip(self.x, x)
    }
}

/// A limit along the y axis.
#[derive(Clone, Copy, Debug, PartialEq, Eq, Structural)]
pub struct YLimits {
    pub y: i32,
}

impl YLimits {
    pub fn new(limit: i32) -> (r: Self)
        ensures
            r.y == limit,
    {
        Self { y: limit }
    }

    pub fn in_limit(&self, y: i32) -> (b: bool)
        ensures
            b == within(self.y as int, y as int),
    {
        in_limit(self.y, y)
    }

    pub fn clip(&self, y: i32) -> (r: i32)
        ensures
            r == saturated(clipped(self.y as int, y as int)),
    {
        clip(self.y, y)
    }
}

/// A limit along the z axis.
#[derive(Clone, Copy, Debug, PartialEq, Eq, Structural)]
pub struct ZLimits {
    pub z: i32,
}

impl ZLimits {
    pub fn new(limit: i32) -> (r: Self)
        ensures
            r.z == limit,
    {
        Self { z: limit }
    }

    pub fn in_limit(&self, z: i32) -> (b: bool)
        ensures
            b == within(self.z as int, z as int),
    {
        in_limit(self.z, z)
    }

    pub fn clip(&self, z: i32) -> (r: i32)
        ensures
            r == saturated(clipped(self.z as int, z as int)),
    {
        clip(self.z, z)
    }
}

/// Limits along x and y.
#[derive(Clone, Copy, Debug, PartialEq, Eq, Structural)]
pub struct Limits2D {
    pub x: XLimits,
    pub y: YLimits,
}

impl Limits2D {
    pub fn new(x_limit: i32, y_limit: i32) -> (r: Self)
        ensures
            r.x.x == x_limit,
            r.y.y == y_limit,
    {
        Self { x: XLimits::new(x_limit), y: YLimits::new(y_limit) }
    }

    pub fn in_limits(&self, x: i32, y: i32) -> (b: bool)
        ensures
            b == (within(self.x.x as int, x as int) && within(self.y.y as int, y as int)),
    {
        self.x.in_limit(x) && self.y.in_limit(y)
    }

    pub fn in_x_limit(&self, x: i32) -> (b: bool)
        ensures
            b == within(self.x.x as int, x as int),
    {
        self.x.in_limit(x)
    }

    pub fn in_y_limit(&self, y: i32) -> (b: bool)
        ensures
            b == within(self.y.y as int, y as int),
    {
        self.y.in_limit(y)
    }

    pub fn clip(&self, x: i32, y: i32) -> (r: [i32; 2])
        ensures
            r[0] == saturated(clipped(self.x.x as int, x as int)),
            r[1] == saturated(clipped(self.y.y as int, y as int)),
    {
        [self.x.clip(x), self.y.clip(y)]
    }
}

/// Limits along x, y and z.
#[derive(Clone, Copy, Debug, PartialEq, Eq, Structural)]
pub struct Limits3D {
    pub x: XLimits,
    pub y: YLimits,
    pub z: ZLimits,
}

impl Limits3D {
    pub fn new(x_limit: i32, y_limit: i32, z_limit: i32) -> (r: Self)
        ensures
            r.x.x == x_limit,
            r.y.y == y_limit,
            r.z.z == z_limit,
    {
        Self { x: XLimits::new(x_limit), y: YLimits::new(y_limit), z: ZLimits::new(z_limit) }
    }

    pub fn in_limits(&self, x: i32, y: i32, z: i32) -> (b: bool)
        ensures
            b == (within(self.x.x as int, x as int) && within(self.y.y as int, y as int) && within(
                self.z.z as int,
                z as int,
            )),
    {
        self.x.in_limit(x) && self.y.in_limit(y) && self.z.in_limit(z)
    }

    pub fn in_x_limit(&self, x: i32) -> (b: bool)
        ensures
            b == within(self.x.x as int, x as int),
    {
        self.x.in_limit(x)
    }

    pub fn in_y_limit(&self, y: i32) -> (b: bool)
        ensures
            b == within(self.y.y as int, y as int),
    {
        self.y.in_limit(y)
    }

    pub fn in_z_limit(&self, z: i32) -> (b: bool)
        ensures
            b == within(self.z.z as int, z as int),
    {
        self.z.in_limit(z)
    }

    pub fn clip(&self, x: i32, y: i32, z: i32) -> (r: [i32; 3])
        ensures
            r[0] == saturated(clipped(self.x.x as int, x as int)),
            r[1] == saturated(clipped(self.y.y as int, y as int)),
            r[2] == saturated(clipped(self.z.z as int, z as int)),
    {
        [self.x.clip(x), self.y.clip(y), self.z.clip(z)]
    }
}

/// The rectangle about the origin in which a position may lie.
#[derive(Clone, Copy, Debug, PartialEq, Eq, Structural)]
pub struct Bounds2D {
    pub limits: Limits2D,
}

impl Bounds2D {
    pub fn new(x_limit: i32, y_limit: i32) -> (r: Self)
        ensures
            r.limits.x.x == x_limit,
            r.limits.y.y == y_limit,
    {
        Self { limits: Limits2D::new(x_limit, y_limit) }
    }

    /// The limit along x as a number.
    pub open spec fn x_limit(&self) -> int {
        self.limits.x.x as int
    }

    /// The limit along y as a number.
    pub open spec fn y_limit(&self) -> int {
        self.limits.y.y as int
    }

    pub fn in_bounds(&self, x: i32, y: i32) -> (b: bool)
        ensures
            b == (within(self.x_limit(), x as int) && within(self.y_limit(), y as int)),
    {
        self.limits.in_limits(x, y)
    }

    pub fn in_x_bound(&self, x: i32) -> (b: bool)
        ensures
            b == within(self.x_limit(), x as int),
    {
        self.limits.in_x_limit(x)
    }

    pub fn in_y_bound(&self, y: i32) -> (b: bool)
        ensures
            b == within(self.y_limit(), y as int),
    {
        self.limits.in_y_limit(y)
    }

    pub fn clip(&self, x: i32, y: i32) -> (r: [i32; 2])
        ensures
            r[0] == saturated(clipped(self.x_limit(), x as int)),
            r[1] == saturated(clipped(self.y_limit(), y as int)),
    {
        self.limits.clip(x, y)
    }

    pub fn x(&self) -> (r: i32)
        ensures
            r == self.x_limit(),
    {
        self.limits.x.x
    }

    pub fn y(&self) -> (r: i32)
        ensures
            r == self.y_limit(),
    {
        self.limits.y.y
    }
}

/// The box about the origin in which a position may lie.
#[derive(Clone, Copy, Debug, PartialEq, Eq, Structural)]
pub struct Bounds3D {
    pub limits: Limits3D,
}

impl Bounds3D {
    pub fn new(x_limit: i32, y_limit: i32, z_limit: i32) -> (r: Self)
        ensures
            r.limits.x.x == x_limit,
            r.limits.y.y == y_limit,
            r.limits.z.z == z_limit,
    {
        Self { limits: Limits3D::new(x_limit, y_limit, z_limit) }
    }

    pub fn in_bounds(&self, x: i32, y: i32, z: i32) -> (b: bool)
        ensures
            b == (within(self.limits.x.x as int, x as int) && within(
                self.limits.y.y as int,
                y as int,
            ) && within(self.limits.z.z as int, z as int)),
    {
        self.limits.in_limits(x, y, z)
    }

    pub fn in_x_bound(&self, x: i32) -> (b: bool)
        ensures
            b == within(self.limits.x.x as int, x as int),
    {
        self.limits.in_x_limit(x)
    }

    pub fn in_y_bound(&self, y: i32) -> (b: bool)
        ensures
            b == within(self.limits.y.y as int, y as int),
    {
        self.limits.in_y_limit(y)
    }

    pub fn in_z_bound(&self, z: i32) -> (b: bool)
        ensures
            b == within(self.limits.z.z as int, z as int),
    {
        self.limits.in_z_limit(z)
    }

    pub fn clip(&self, x: i32, y: i32, z: i32) -> (r: [i32; 3])
        ensures
            r[0] == saturated(clipped(self.limits.x.x as int, x as int)),
            r[1] == saturated(clipped(self.limits.y.y as int, y as int)),
            r[2] == saturated(clipped(self.limits.z.z as int, z as int)),
    {
        self.limits.clip(x, y, z)
    }
}

} // verus!
