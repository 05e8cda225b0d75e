//! The standard dimensions of the world of the workgroup-local neighbour
//! search.

use crate::physics::world::World;
use vstd::prelude::*;

verus! {

/// How much the window magnifies the map.
pub const WINDOW_ZOOM: u32 = 1;

/// The number of particles.
pub const NUM_PARTICLES: usize = 40000;

/// Width of the map, in pixels.
pub const MAP_WIDTH: u32 = 250;

/// Height of the map, in pixels.
pub const MAP_HEIGHT: u32 = 250;

/// How many grid points there are to a pixel, along an axis.
pub const RESOLUTION: u32 = 2;

/// The radius of influence of a particle, in particle radii.
pub const INFLUENCE_FACTOR: u32 = 3;

/// The side of the square of pixels that a workgroup keeps in local memory.
pub const PIXEL_GRID_LOCAL_COLS: u32 = 25;

/// The world of the standard dimensions.
pub fn standard() -> (r: World)
    ensures
        r.wf(),
        r.num_particles == NUM_PARTICLES,
        r.map_width == MAP_WIDTH,
        r.map_height == MAP_HEIGHT,
        r.grid_resolution == RESOLUTION,
        r.influence_factor == INFLUENCE_FACTOR,
        r.local_columns == PIXEL_GRID_LOCAL_COLS,
{
    World {
        num_particles: NUM_PARTICLES,
        map_width: MAP_WIDTH,
        map_height: MAP_HEIGHT,
        grid_resolution: RESOLUTION,
        influence_factor: INFLUENCE_FACTOR,
        local_columns: PIXEL_GRID_LOCAL_COLS,
    }
}

} // verus!
