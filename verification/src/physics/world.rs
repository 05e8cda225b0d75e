//! The dimensions of the world of the pixel-map neighbour search.

use crate::math::Vec2;
use crate::scalar::{Scalar, ONE_RAW};
use vstd::prelude::*;

verus! {

/// How much the window magnifies the map.
pub const WINDOW_ZOOM: u32 = 3;

/// The number of particles.
pub const NUM_PARTICLES: usize = 10000;

/// Width of the map, in pixels.
pub const MAP_WIDTH: u32 = 300;

/// Height of the map, in pixels.
pub const MAP_HEIGHT: u32 = 300;

/// How many grid points there are to a pixel, along an axis.
pub const GRID_RESOLUTION: u32 = 2;

/// The radius of influence of a particle, in particle radii.
pub const INFLUENCE_FACTOR: u32 = 3;

/// The side of the square of pixels that a workgroup keeps in local memory.
pub const PIXEL_GRID_LOCAL_COLS: u32 = 25;

/// The dimensions of a world. Positions in it run from -1 to 1 along each
/// axis.
#[derive(Clone, Copy, Debug, PartialEq, Eq, Structural)]
pub struct World {
    /// The number of particles.
    pub num_particles: usize,
    /// Width of the map, in pixels.
    pub map_width: u32,
    /// Height of the map, in pixels.
    pub map_height: u32,
    /// How many grid points there are to a pixel, along an axis.
    pub grid_resolution: u32,
    /// The radius of influence of a particle, in particle radii.
    pub influence_factor: u32,
    /// The side of the square of pixels that a workgroup keeps in local
    /// memory.
    pub local_columns: u32,
}

impl Default for World {
    fn default() -> (r: Self)
        ensures
            r == spec_standard_world(),
            r.wf(),
    {
        World {
            num_particles: NUM_PARTICLES,
            map_width: MAP_WIDTH,
            map_height: MAP_HEIGHT,
            grid_resolution: GRID_RESOLUTION,
            influence_factor: INFLUENCE_FACTOR,
            local_columns: PIXEL_GRID_LOCAL_COLS,
        }
    }
}

/// The world of the standard dimensions.
pub open spec fn spec_standard_world() -> World {
    World {
        num_particles: NUM_PARTICLES,
        map_width: MAP_WIDTH,
        map_height: MAP_HEIGHT,
        grid_resolution: GRID_RESOLUTION,
        influence_factor: INFLUENCE_FACTOR,
        local_columns: PIXEL_GRID_LOCAL_COLS,
    }
}

/// The largest number of grid points along an axis of a world.
pub const MAX_GRID_SIDE: u32 = 32768;

impl World {
    /// Width of the pixel grid.
    pub open spec fn grid_width(&self) -> int {
        self.map_width * self.grid_resolution
    }

    /// Height of the pixel grid.
    pub open spec fn grid_height(&self) -> int {
        self.map_height * self.grid_resolution
    }

    /// The number of points of the pixel grid.
    pub open spec fn grid_size(&self) -> int {
        self.grid_width() * self.grid_height()
    }

    /// How far the influence of a particle reaches, in grid points.
    pub open spec fn reach(&self) -> int {
        self.influence_factor * self.grid_resolution
    }

    /// The distance within which a particle counts as a neighbour, as a raw
    /// scalar: the influence factor times the radius of a particle, which is
    /// half a pixel of a map that is two units wide.
    pub open spec fn influence_raw(&self) -> int {
        (self.influence_factor * ONE_RAW) / (self.map_width as int)
    }

    /// The map and its grid have at least one point along each axis and no
    /// more than [`MAX_GRID_SIDE`], and the reach of a particle is no longer
    /// than that either.
    pub open spec fn wf(&self) -> bool {
        &&& self.map_width >= 1
        &&& self.map_height >= 1
        &&& self.grid_resolution >= 1
        &&& self.grid_width() <= MAX_GRID_SIDE
        &&& self.grid_height() <= MAX_GRID_SIDE
        &&& self.reach() <= MAX_GRID_SIDE
        &&& self.influence_factor <= MAX_GRID_SIDE
        &&& self.local_columns <= MAX_GRID_SIDE
    }

    /// `position` lies in the world: between -1 and 1 along each axis.
    pub open spec fn covers(&self, position: Vec2) -> bool {
        &&& -ONE_RAW <= position.x.raw <= ONE_RAW
        &&& -ONE_RAW <= position.y.raw <= ONE_RAW
    }

    /// Width of the pixel grid.
    pub fn get_grid_width(&self) -> (r: u32)
        requires
            self.wf(),
        ensures
            r == self.grid_width(),
            1 <= r <= MAX_GRID_SIDE,
    {
        assert(1 <= self.map_width * self.grid_resolution) by (nonlinear_arith)
            requires
                self.map_width >= 1,
                self.grid_resolution >= 1,
        ;
        self.map_width * self.grid_resolution
    }

    /// Height of the pixel grid.
    pub fn get_grid_height(&self) -> (r: u32)
        requires
            self.wf(),
        ensures
            r == self.grid_height(),
            1 <= r <= MAX_GRID_SIDE,
    {
        assert(1 <= self.map_height * self.grid_resolution) by (nonlinear_arith)
            requires
                self.map_height >= 1,
                self.grid_resolution >= 1,
        ;
        self.map_height * self.grid_resolution
    }

    /// The distance within which a particle counts as a neighbour.
    pub fn influence(&self) -> (r: Scalar)
        requires
            self.wf(),
        ensures
            r.raw == self.influence_raw(),
            0 <= r.raw <= MAX_GRID_SIDE * ONE_RAW,
    {
        let numerator: i64 = self.influence_factor as i64 * ONE_RAW;
        proof {
            crate::scalar::lemma_floor_div_bounds(numerator as int, self.map_width as int);
        }
        Scalar::from_raw(numerator / (self.map_width as i64))
    }
}

/// Where a coordinate between -1 and 1 falls on an axis of `scale` grid
/// points: the coordinate is moved to between 0 and 1 and stretched over the
/// points. The result is a raw scalar.
pub open spec fn spec_scale(coordinate: int, scale: int) -> int {
    ((coordinate + ONE_RAW) / 2) * (scale - 1)
}

/// The grid point of a coordinate: the scaled coordinate, rounded down, and
/// zero where that is negative.
pub open spec fn spec_pixel(coordinate: int, scale: int) -> int {
    let floor = spec_scale(coordinate, scale) / (ONE_RAW as int);
    if floor < 0 {
        0
    } else {
        floor
    }
}

/// Where a coordinate falls on an axis of `scale` grid points, as a scalar.
pub fn scale(position: Scalar, points: u32) -> (r: Scalar)
    requires
        1 <= points <= MAX_GRID_SIDE,
        -ONE_RAW <= position.raw <= ONE_RAW,
    ensures
        r.raw == spec_scale(position.raw as int, points as int),
        0 <= r.raw <= (points - 1) * ONE_RAW,
{
    let half = crate::scalar::floor_div_i64(position.raw + ONE_RAW, 2);
    let stretch = (points - 1) as i64;
    assert(0 <= half * stretch <= stretch * 16777216) by (nonlinear_arith)
        requires
            0 <= half <= 16777216,
            0 <= stretch,
    ;
    assert(stretch * 16777216 <= 32768 * 16777216) by (nonlinear_arith)
        requires
            stretch <= 32768,
    ;
    Scalar::from_raw(half * stretch)
}

/// The grid point of a coordinate between -1 and 1 on an axis of `scale`
/// grid points.
pub fn pixel(position: Scalar, points: u32) -> (r: u32)
    requires
        1 <= points <= MAX_GRID_SIDE,
        -ONE_RAW <= position.raw <= ONE_RAW,
    ensures
        r == spec_pixel(position.raw as int, points as int),
        r < points,
{
    let scaled = scale(position, points);
    let floor = scaled.floor();
    proof {
        crate::scalar::lemma_floor_div_bounds(scaled.raw as int, ONE_RAW as int);
        let s = points as int - 1;
        assert((s * ONE_RAW) / (ONE_RAW as int) == s) by (nonlinear_arith);
        crate::scalar::lemma_floor_div_monotone(scaled.raw as int, s * ONE_RAW, ONE_RAW as int);
    }
    floor as u32
}

} // verus!
