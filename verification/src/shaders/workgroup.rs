//! The memory that the threads of a workgroup share.

use crate::compute::builder::{div_ceil, spec_div_ceil};
use crate::physics::world::World;
use crate::shaders::particle::{
    spec_blank_local, ParticleGlobal, ParticleIDGlobal, ParticleIDLocal, ParticleLocal,
};
use vstd::prelude::*;

verus! {

/// The number of threads of a workgroup.
pub const THREADS: u32 = 128;

/// The side of the square of grid points that [`WorkGroupData::populate`]
/// walks through.
pub const POPULATED_SIDE: u32 = 26;

/// Where the part of the pixel grid that a workgroup keeps lies on the whole
/// grid.
#[derive(Copy, Clone, Debug, PartialEq, Eq, Structural)]
pub struct WorkGroupDimensions {
    /// Column of the first grid point, which may be left of the grid.
    pub x: i32,
    /// Row of the first grid point, which may be below the grid.
    pub y: i32,
    /// The number of grid points in a row of the part.
    pub width: u32,
}

/// The memory of a workgroup.
#[derive(Debug)]
pub struct WorkGroupData {
    /// The workgroup's part of the pixel grid.
    pub pixel_grid: Vec<ParticleIDLocal>,
    /// The particles of the workgroup.
    pub particles: Vec<ParticleLocal>,
    /// The number of particles of the workgroup.
    pub particles_count: u32,
    /// For each thread a list of neighbours: first their number, then their
    /// IDs. The lists follow one another, each as long as
    /// [`WorkGroupData::spec_max_neighbours`].
    pub neighbours: Vec<ParticleIDLocal>,
    /// For each thread the number of neighbours that it found.
    pub neighbours_count: Vec<usize>,
    /// Where the workgroup's part of the pixel grid lies.
    pub dimensions: WorkGroupDimensions,
    /// The number of the workgroup.
    pub workgroup_id: u32,
    /// The world in which the workgroup works.
    pub world: World,
}

/// The number of grid points in a row of the part of the pixel grid that a
/// workgroup keeps: the local columns, and the reach of a particle on both
/// sides.
pub open spec fn spec_local_width(world: World) -> int {
    world.local_columns + world.influence_factor * 2
}

/// The number of workgroups in a row of the pixel grid.
pub open spec fn spec_workgroups_per_row(world: World) -> int {
    spec_div_ceil(world.grid_width(), world.local_columns as int)
}

/// Where the part of workgroup `workgroup_id` lies: workgroups are numbered
/// row by row, and each part starts the reach of a particle before the
/// workgroup's own column and row.
pub open spec fn spec_dimensions(world: World, workgroup_id: u32) -> WorkGroupDimensions {
    WorkGroupDimensions {
        x: (workgroup_id as int % spec_workgroups_per_row(world) - world.influence_factor) as i32,
        y: crate::scalar::saturate_i32(
            workgroup_id as int / spec_workgroups_per_row(world) - world.influence_factor,
        ),
        width: spec_local_width(world) as u32,
    }
}

impl WorkGroupData {
    /// The length of the list of neighbours of a thread: room for every grid
    /// point within reach.
    pub open spec fn spec_max_neighbours(world: World) -> int {
        (world.influence_factor * 2 + 1) * (world.influence_factor * 2 + 1)
    }

    /// The memory has the sizes that the world asks for.
    pub open spec fn wf(&self) -> bool {
        &&& self.world.wf()
        &&& self.world.local_columns >= 1
        &&& self.world.influence_factor <= 64
        &&& self.pixel_grid@.len() == self.world.local_columns * self.world.local_columns
        &&& self.particles@.len() == self.pixel_grid@.len()
        &&& self.neighbours_count@.len() == THREADS
        &&& self.neighbours@.len() == THREADS * Self::spec_max_neighbours(self.world)
        &&& self.particles_count <= self.particles@.len()
    }

    /// The neighbour in slot `slot` of the list of thread `thread_id`.
    pub open spec fn neighbour(&self, thread_id: int, slot: int) -> ParticleIDLocal {
        self.neighbours@[thread_id * Self::spec_max_neighbours(self.world) + slot]
    }

    /// The length of the list of neighbours of a thread.
    pub fn max_neighbours(world: &World) -> (r: usize)
        requires
            world.influence_factor <= 64,
        ensures
            r == Self::spec_max_neighbours(*world),
            1 <= r <= 129 * 129,
    {
        let side: usize = world.influence_factor as usize * 2 + 1;
        assert(1 <= side * side <= 129 * 129) by (nonlinear_arith)
            requires
                1 <= side <= 129,
        ;
        side * side
    }

    /// Empty memory for a workgroup in `world`.
    pub fn new(world: World) -> (r: Self)
        requires
            world.wf(),
            world.local_columns >= 1,
            world.influence_factor <= 64,
        ensures
            r.wf(),
            r.world == world,
            r.particles_count == 0,
            r.workgroup_id == 0,
            forall|i: int| 0 <= i < r.pixel_grid@.len() ==> (#[trigger] r.pixel_grid@[i]).id ==
                u32::MAX,
            forall|i: int| 0 <= i < r.neighbours_count@.len() ==> #[trigger] r.neighbours_count@[i]
                == 0,
    {
        let side = world.local_columns as usize;
        assert(side * side <= 32768 * 32768) by (nonlinear_arith)
            requires
                side <= 32768,
        ;
        let cells = side * side;
        let lists = THREADS as usize * Self::max_neighbours(&world);
        let mut pixel_grid: Vec<ParticleIDLocal> = Vec::new();
        let mut particles: Vec<ParticleLocal> = Vec::new();
        let mut neighbours_count: Vec<usize> = Vec::new();
        let mut i: usize = 0;
        while i < cells
            invariant
                0 <= i <= cells,
                pixel_grid@.len() == i,
                particles@.len() == i,
                forall|j: int| 0 <= j < i ==> (#[trigger] pixel_grid@[j]).id == u32::MAX,
            decreases cells - i,
        {
            pixel_grid.push(ParticleIDLocal { id: ParticleIDLocal::null() });
            particles.push(ParticleLocal::default());
            i += 1;
        }
        let mut thread: u32 = 0;
        while thread < THREADS
            invariant
                0 <= thread <= THREADS,
                neighbours_count@.len() == thread,
                forall|j: int| 0 <= j < thread ==> #[trigger] neighbours_count@[j] == 0,
            decreases THREADS - thread,
        {
            neighbours_count.push(0);
            thread += 1;
        }
        let mut neighbours: Vec<ParticleIDLocal> = Vec::new();
        let mut j: usize = 0;
        while j < lists
            invariant
                0 <= j <= lists,
                neighbours@.len() == j,
            decreases lists - j,
        {
            neighbours.push(ParticleIDLocal { id: 0 });
            j += 1;
        }
        WorkGroupData {
            pixel_grid,
            particles,
            particles_count: 0,
            neighbours,
            neighbours_count,
            dimensions: WorkGroupDimensions { x: 0, y: 0, width: 0 },
            workgroup_id: 0,
            world,
        }
    }

    /// Gets the memory ready for the workgroup: there are no particles in it
    /// yet, and its part of the pixel grid is where the workgroup's number
    /// puts it.
    pub fn populate(
        &mut self,
        thread_id: u32,
        pixel_grid_global: &[ParticleIDGlobal],
        particles_global: &[ParticleGlobal],
    )
        requires
            old(self).wf(),
        ensures
            final(self).wf(),
            final(self).particles_count == 0,
            final(self).dimensions == spec_dimensions(old(self).world, old(self).workgroup_id),
            final(self).pixel_grid == old(self).pixel_grid,
            final(self).particles == old(self).particles,
            final(self).neighbours == old(self).neighbours,
            final(self).neighbours_count == old(self).neighbours_count,
            final(self).workgroup_id == old(self).workgroup_id,
            final(self).world == old(self).world,
    {
        self.particles_count = 0;
        self.dimensions = self.calculate_dimensons();
        self.populater(thread_id, pixel_grid_global, particles_global);
    }

    /// The particle that thread `thread_id` works on in its round
    /// `iteration`: the threads share the particles out in turn. Once the
    /// particles have run out, it is a blank particle with the null ID.
    pub fn particle_for_work_item(&self, thread_id: u32, iteration: u32) -> (r: ParticleLocal)
        requires
            self.particles_count <= self.particles@.len(),
        ensures
            r == (if iteration * THREADS + thread_id >= self.particles_count {
                spec_blank_local(u32::MAX)
            } else {
                self.particles@[iteration * THREADS + thread_id]
            }),
    {
        assert(iteration * THREADS <= 0xffff_ffff * 128) by (nonlinear_arith)
            requires
                iteration <= 0xffff_ffff,
                THREADS == 128,
        ;
        let particle_id: u64 = (iteration as u64 * THREADS as u64) + thread_id as u64;
        if particle_id >= self.particles_count as u64 {
            let mut particle = ParticleLocal::default();
            particle.id_global.id = ParticleIDLocal::null();
            particle
        } else {
            self.particles[particle_id as usize]
        }
    }

    /// Notes `neighbour_id` as neighbour number `count` of thread
    /// `thread_id`. The first slot of a thread's list is kept for the number
    /// of its neighbours.
    pub fn store_neighbour(&mut self, thread_id: usize, count: usize, neighbour_id: ParticleIDLocal)
        requires
            old(self).wf(),
            thread_id < THREADS,
            count + 1 < Self::spec_max_neighbours(old(self).world),
        ensures
            final(self).wf(),
            final(self).neighbours@ == old(self).neighbours@.update(
                thread_id * Self::spec_max_neighbours(old(self).world) + count + 1,
                neighbour_id,
            ),
            final(self).pixel_grid == old(self).pixel_grid,
            final(self).particles == old(self).particles,
            final(self).particles_count == old(self).particles_count,
            final(self).neighbours_count == old(self).neighbours_count,
            final(self).dimensions == old(self).dimensions,
            final(self).workgroup_id == old(self).workgroup_id,
            final(self).world == old(self).world,
    {
        let length = Self::max_neighbours(&self.world);
        assert(thread_id * length + count + 1 < THREADS * length && thread_id * length <= 128
            * length) by (nonlinear_arith)
            requires
                thread_id < 128,
                count + 1 < length,
                THREADS == 128,
        ;
        let slot = thread_id * length + count + 1;
        self.neighbours[slot] = neighbour_id;
    }

    /// Where the workgroup's part of the pixel grid lies.
    fn calculate_dimensons(&self) -> (r: WorkGroupDimensions)
        requires
            self.world.wf(),
            self.world.local_columns >= 1,
        ensures
            r == spec_dimensions(self.world, self.workgroup_id),
    {
        let width_extra = self.world.local_columns + (self.world.influence_factor * 2);
        let (x, y) = self.workgroup_id_to_global_xy();
        WorkGroupDimensions { x, y, width: width_extra }
    }

    /// Column and row of the first grid point of the workgroup's part.
    fn workgroup_id_to_global_xy(&self) -> (r: (i32, i32))
        requires
            self.world.wf(),
            self.world.local_columns >= 1,
        ensures
            r.0 == spec_dimensions(self.world, self.workgroup_id).x,
            r.1 == spec_dimensions(self.world, self.workgroup_id).y,
    {
        let global_width = self.world.get_grid_width();
        let workgroup_width = self.world.local_columns;
        let workgroups_per_global_row = div_ceil(global_width, workgroup_width);
        proof {
            let per_row = spec_workgroups_per_row(self.world);
            vstd::arithmetic::div_mod::lemma_fundamental_div_mod(
                global_width + workgroup_width - 1,
                workgroup_width as int,
            );
            vstd::arithmetic::div_mod::lemma_mod_bound(
                global_width + workgroup_width - 1,
                workgroup_width as int,
            );
            assert(per_row >= 1) by (nonlinear_arith)
                requires
                    global_width + workgroup_width - 1 == workgroup_width * per_row + (global_width
                        + workgroup_width - 1) % (workgroup_width as int),
                    (global_width + workgroup_width - 1) % (workgroup_width as int)
                        < workgroup_width,
                    global_width >= 1,
                    workgroup_width >= 1,
            ;
            crate::scalar::lemma_floor_div_bounds(self.workgroup_id as int, per_row);
            vstd::arithmetic::div_mod::lemma_mod_bound(self.workgroup_id as int, per_row);
        }
        let column: i64 = (self.workgroup_id % workgroups_per_global_row) as i64;
        let row: i64 = (self.workgroup_id / workgroups_per_global_row) as i64;
        let x = column - self.world.influence_factor as i64;
        let y = row - self.world.influence_factor as i64;
        (
            crate::scalar::saturate_to_i32(x),
            crate::scalar::saturate_to_i32(y),
        )
    }

    /// Walks through the grid points of the workgroup's part, each thread
    /// stopping at every point that is its own by turn. Nothing is copied
    /// yet.
    fn populater(
        &mut self,
        thread_id: u32,
        _pixel_grid_global: &[ParticleIDGlobal],
        _particles_global: &[ParticleGlobal],
    )
        ensures
            *final(self) == *old(self),
    {
        let (x_min, _x_max, y_min, _y_max) = self.ranges();
        let mut grid_index_local: usize = 0;
        let mut yi: u32 = 0;
        while yi < POPULATED_SIDE
            invariant
                0 <= yi <= POPULATED_SIDE,
                grid_index_local == yi * POPULATED_SIDE,
                *self == *old(self),
            decreases POPULATED_SIDE - yi,
        {
            let mut xi: u32 = 0;
            while xi < POPULATED_SIDE
                invariant
                    0 <= xi <= POPULATED_SIDE,
                    0 <= yi < POPULATED_SIDE,
                    grid_index_local == yi * POPULATED_SIDE + xi,
                    *self == *old(self),
                decreases POPULATED_SIDE - xi,
            {
                let _x: i64 = x_min as i64 + xi as i64;
                let _y: i64 = y_min as i64 + yi as i64;
                if grid_index_local as u32 % THREADS != thread_id {
                    grid_index_local += 1;
                    xi += 1;
                    continue ;
                }
                grid_index_local += 1;
                xi += 1;
            }
            yi += 1;
        }
    }

    /// The first and last columns and rows of the workgroup's part.
    fn ranges(&self) -> (r: (i32, i32, i32, i32))
        ensures
            r.0 == self.dimensions.x,
            r.2 == self.dimensions.y,
            r.1 == crate::scalar::saturate_i32(self.dimensions.x + self.dimensions.width),
            r.3 == crate::scalar::saturate_i32(self.dimensions.y + self.dimensions.width),
    {
        let y_min = self.dimensions.y;
        let y_max = crate::scalar::saturate_to_i32(y_min as i64 + self.dimensions.width as i64);
        let x_min = self.dimensions.x;
        let x_max = crate::scalar::saturate_to_i32(x_min as i64 + self.dimensions.width as i64);
        (x_min, x_max, y_min, y_max)
    }
}

} // verus!
