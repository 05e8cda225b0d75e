//! Small vector types: fixed-point vectors for positions, velocities and the
//! viewport, integer vectors for grid coordinates and grid dimensions.

use crate::scalar::{saturate, Scalar};
use vstd::prelude::*;

verus! {

/// A two-dimensional fixed-point vector.
#[derive(Clone, Copy, Debug, PartialEq, Eq, Structural, Hash)]
pub struct Vec2 {
    /// Horizontal component.
    pub x: Scalar,
    /// Vertical component.
    pub y: Scalar,
}

impl Default for Vec2 {
    fn default() -> (r: Self)
        ensures
            r.x.raw == 0,
            r.y.raw == 0,
    {
        Vec2 { x: Scalar { raw: 0 }, y: Scalar { raw: 0 } }
    }
}

impl Vec2 {
    /// The vector with the given components.
    pub fn new(x: Scalar, y: Scalar) -> (r: Self)
        ensures
            r.x == x,
            r.y == y,
    {
        Vec2 { x, y }
    }

    /// Component-wise saturating sum.
    pub open spec fn spec_saturating_add(self, rhs: Vec2) -> Vec2 {
        Vec2 {
            x: Scalar { raw: saturate(self.x.raw + rhs.x.raw) },
            y: Scalar { raw: saturate(self.y.raw + rhs.y.raw) },
        }
    }

    /// Component-wise saturating difference.
    pub open spec fn spec_saturating_sub(self, rhs: Vec2) -> Vec2 {
        Vec2 {
            x: Scalar { raw: saturate(self.x.raw - rhs.x.raw) },
            y: Scalar { raw: saturate(self.y.raw - rhs.y.raw) },
        }
    }

    /// Component-wise sum, saturating at the ends of the range.
    pub fn saturating_add(self, rhs: Vec2) -> (r: Vec2)
        ensures
            r == self.spec_saturating_add(rhs),
    {
        Vec2 { x: self.x.saturating_add(rhs.x), y: self.y.saturating_add(rhs.y) }
    }

    /// Component-wise difference, saturating at the ends of the range.
    pub fn saturating_sub(self, rhs: Vec2) -> (r: Vec2)
        ensures
            r == self.spec_saturating_sub(rhs),
    {
        Vec2 { x: self.x.saturating_sub(rhs.x), y: self.y.saturating_sub(rhs.y) }
    }
}

/// A four-component fixed-point vector. As a viewport, `(x, y)` is the
/// bottom-left corner and `(z, w)` the top-right corner.
#[derive(Clone, Copy, Debug, PartialEq, Eq, Structural, Hash)]
pub struct Vec4 {
    /// First component.
    pub x: Scalar,
    /// Second component.
    pub y: Scalar,
    /// Third component.
    pub z: Scalar,
    /// Fourth component.
    pub w: Scalar,
}

impl Default for Vec4 {
    fn default() -> (r: Self)
        ensures
            r.x.raw == 0,
            r.y.raw == 0,
            r.z.raw == 0,
            r.w.raw == 0,
    {
        Vec4 {
            x: Scalar { raw: 0 },
            y: Scalar { raw: 0 },
            z: Scalar { raw: 0 },
            w: Scalar { raw: 0 },
        }
    }
}

impl Vec4 {
    /// The vector with the given components.
    pub fn new(x: Scalar, y: Scalar, z: Scalar, w: Scalar) -> (r: Self)
        ensures
            r.x == x,
            r.y == y,
            r.z == z,
            r.w == w,
    {
        Vec4 { x, y, z, w }
    }

    /// The first two components.
    pub open spec fn spec_xy(self) -> Vec2 {
        Vec2 { x: self.x, y: self.y }
    }

    /// The last two components.
    pub open spec fn spec_zw(self) -> Vec2 {
        Vec2 { x: self.z, y: self.w }
    }

    /// The first two components.
    pub fn xy(self) -> (r: Vec2)
        ensures
            r == self.spec_xy(),
    {
        Vec2 { x: self.x, y: self.y }
    }

    /// The last two components.
    pub fn zw(self) -> (r: Vec2)
        ensures
            r == self.spec_zw(),
    {
        Vec2 { x: self.z, y: self.w }
    }
}

/// A two-dimensional vector of signed integers.
#[derive(Clone, Copy, Debug, PartialEq, Eq, Structural, Hash)]
pub struct IVec2 {
    /// Horizontal component.
    pub x: i32,
    /// Vertical component.
    pub y: i32,
}

impl IVec2 {
    /// The vector with the given components.
    pub fn new(x: i32, y: i32) -> (r: Self)
        ensures
            r.x == x,
            r.y == y,
    {
        IVec2 { x, y }
    }
}

/// A two-dimensional vector of unsigned integers.
#[derive(Clone, Copy, Debug, PartialEq, Eq, Structural, Hash)]
pub struct UVec2 {
    /// Horizontal component.
    pub x: u32,
    /// Vertical component.
    pub y: u32,
}

impl Default for UVec2 {
    fn default() -> (r: Self)
        ensures
            r.x == 0,
            r.y == 0,
    {
        UVec2 { x: 0, y: 0 }
    }
}

impl UVec2 {
    /// The vector with the given components.
    pub fn new(x: u32, y: u32) -> (r: Self)
        ensures
            r.x == x,
            r.y == y,
    {
        UVec2 { x, y }
    }
}

} // verus!
