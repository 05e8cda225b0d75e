//! Neighbour search in the memory of a workgroup.

use crate::math::Vec2;
use crate::physics::neighbours::spec_near;
use crate::physics::world::{pixel, spec_pixel, World};
use crate::shaders::particle::{ParticleGlobal, ParticleIDGlobal, ParticleIDLocal, ParticleLocal};
use crate::shaders::workgroup::{WorkGroupData, THREADS};
use vstd::prelude::*;

verus! {

/// A particle and the state of the search for its neighbours.
#[derive(Copy, Clone, Debug)]
pub struct NeighbouringParticles {
    /// The number of neighbours found so far.
    pub count: usize,
    /// The particle whose neighbours are searched.
    pub particle: ParticleLocal,
    /// The thread that searches.
    pub thread_id: usize,
}

/// The index of the grid point of `position` in the pixel grid of all
/// particles.
pub open spec fn spec_pixel_grid_index(position: Vec2, world: World) -> int {
    spec_pixel(position.y.raw as int, world.grid_height()) * world.grid_width() + spec_pixel(
        position.x.raw as int,
        world.grid_width(),
    )
}

/// The first and last grid point, along an axis of `scale` points, within
/// `reach` points of the point `point`.
pub open spec fn spec_window(point: int, reach: int, scale: int) -> (int, int) {
    crate::physics::neighbours::spec_range(point, reach, scale)
}

/// What the look at the grid point `(x, y)` finds: the local ID of the
/// particle on the point, if the point is in the workgroup's part of the
/// grid, a particle of the workgroup is on it, and that particle is within
/// the influence of `centre`.
pub open spec fn spec_neighbour_at(data: &WorkGroupData, centre: Vec2, x: int, y: int) -> Option<
    ParticleIDLocal,
> {
    let coord = y * data.dimensions.width + x;
    if coord < data.pixel_grid@.len() {
        let id = data.pixel_grid@[coord].id;
        if id != u32::MAX && id < data.particles@.len() && spec_near(
            data.particles@[id as int].position,
            centre,
            data.world,
        ) {
            Some(ParticleIDLocal { id })
        } else {
            None
        }
    } else {
        None
    }
}

/// The neighbours found once the grid point `(x, y)` has been looked at: one
/// more if the look finds one and the list of a thread has room for it.
pub open spec fn spec_look(
    found: Seq<ParticleIDLocal>,
    data: &WorkGroupData,
    centre: Vec2,
    x: int,
    y: int,
) -> Seq<ParticleIDLocal> {
    match spec_neighbour_at(data, centre, x, y) {
        Some(id) => if found.len() + 1 < WorkGroupData::spec_max_neighbours(data.world) {
            found.push(id)
        } else {
            found
        },
        None => found,
    }
}

/// The neighbours found once the points `x_from`, ..., `x_end - 1` of row `y`
/// have been looked at.
pub open spec fn spec_look_row(
    found: Seq<ParticleIDLocal>,
    data: &WorkGroupData,
    centre: Vec2,
    y: int,
    x_from: int,
    x_end: int,
) -> Seq<ParticleIDLocal>
    decreases x_end - x_from,
{
    if x_end <= x_from {
        found
    } else {
        spec_look(spec_look_row(found, data, centre, y, x_from, x_end - 1), data, centre, x_end -
            1, y)
    }
}

/// The neighbours found once the rows `y_from`, ..., `y_end - 1` have been
/// looked at, each from `x_from` to `x_end - 1`.
pub open spec fn spec_look_rows(
    found: Seq<ParticleIDLocal>,
    data: &WorkGroupData,
    centre: Vec2,
    y_from: int,
    y_end: int,
    x_from: int,
    x_end: int,
) -> Seq<ParticleIDLocal>
    decreases y_end - y_from,
{
    if y_end <= y_from {
        found
    } else {
        spec_look_row(
            spec_look_rows(found, data, centre, y_from, y_end - 1, x_from, x_end),
            data,
            centre,
            y_end - 1,
            x_from,
            x_end,
        )
    }
}

/// The neighbours of a particle at `centre` in the memory `data`.
pub open spec fn spec_neighbours(data: &WorkGroupData, centre: Vec2) -> Seq<ParticleIDLocal> {
    let world = data.world;
    let x = spec_window(
        spec_pixel(centre.x.raw as int, world.grid_width()),
        world.reach(),
        world.grid_width(),
    );
    let y = spec_window(
        spec_pixel(centre.y.raw as int, world.grid_height()),
        world.reach(),
        world.grid_height(),
    );
    spec_look_rows(Seq::empty(), data, centre, y.0, y.1 + 1, x.0, x.1 + 1)
}

/// `after` is `before` with `found` noted as the neighbours of thread
/// `thread_id`, and their number as the thread's count.
pub open spec fn spec_noted(
    before: &WorkGroupData,
    after: &WorkGroupData,
    thread_id: int,
    found: Seq<ParticleIDLocal>,
) -> bool {
    let length = WorkGroupData::spec_max_neighbours(before.world);
    &&& after.pixel_grid == before.pixel_grid
    &&& after.particles == before.particles
    &&& after.particles_count == before.particles_count
    &&& after.dimensions == before.dimensions
    &&& after.workgroup_id == before.workgroup_id
    &&& after.world == before.world
    &&& after.neighbours_count@ == before.neighbours_count@.update(thread_id, found.len() as usize)
    &&& after.neighbours@.len() == before.neighbours@.len()
    &&& forall|slot: int|
        0 <= slot < before.neighbours@.len() ==> #[trigger] after.neighbours@[slot] == (if thread_id
            * length + 1 <= slot < thread_id * length + 1 + found.len() {
            found[slot - (thread_id * length + 1)]
        } else {
            before.neighbours@[slot]
        })
}

impl NeighbouringParticles {
    /// Notes the particle `particle_id` on its point of the pixel grid of all
    /// particles.
    pub fn place_particle_in_pixel_grid(
        particle_id: ParticleIDGlobal,
        particles: &[ParticleGlobal],
        pixel_grid: &mut [ParticleIDGlobal],
        world: &World,
    )
        requires
            world.wf(),
            particle_id.id < particles@.len(),
            world.covers(particles@[particle_id.id as int].position),
            old(pixel_grid)@.len() == world.grid_size(),
        ensures
            0 <= spec_pixel_grid_index(particles@[particle_id.id as int].position, *world) <
                old(pixel_grid)@.len(),
            final(pixel_grid)@ == old(pixel_grid)@.update(
                spec_pixel_grid_index(particles@[particle_id.id as int].position, *world),
                particle_id,
            ),
    {
        let position = particles[particle_id.id as usize].position;
        let coord = Self::position_to_pixel_grid_index(
            pixel(position.x, world.get_grid_width()),
            pixel(position.y, world.get_grid_height()),
            world,
        );
        pixel_grid[coord] = particle_id;
    }

    /// The search of thread `thread_id` for the neighbours of `particle`,
    /// before it has started.
    pub fn new(thread_id: usize, particle: ParticleLocal) -> (r: NeighbouringParticles)
        ensures
            r.count == 0,
            r.particle == particle,
            r.thread_id == thread_id,
    {
        NeighbouringParticles { count: 0, particle, thread_id }
    }

    /// The index of the grid point `(x, y)` in the pixel grid of all
    /// particles.
    fn position_to_pixel_grid_index(x: u32, y: u32, world: &World) -> (r: usize)
        requires
            world.wf(),
            x < world.grid_width(),
            y < world.grid_height(),
        ensures
            r == y * world.grid_width() + x,
            r < world.grid_size(),
    {
        let width = world.get_grid_width();
        assert(y * width + x < width * world.grid_height() && y * width <= 32768 * 32768)
            by (nonlinear_arith)
            requires
                x < width,
                y < world.grid_height(),
                width <= 32768,
                world.grid_height() <= 32768,
        ;
        ((y * width) + x) as usize
    }

    /// The index of the grid point `(x, y)` in the workgroup's part of the
    /// pixel grid.
    fn position_to_workgroup_map_index(&self, workgroup_data: &WorkGroupData, x: u32, y: u32) -> (r:
        u64)
        ensures
            r == y * workgroup_data.dimensions.width + x,
    {
        assert(y * workgroup_data.dimensions.width <= 0xffff_ffff * 0xffff_ffff)
            by (nonlinear_arith)
            requires
                y <= 0xffff_ffff,
                workgroup_data.dimensions.width <= 0xffff_ffff,
        ;
        (y as u64 * workgroup_data.dimensions.width as u64) + x as u64
    }

    /// Finds the neighbours of `particle` for thread `thread_id` and notes
    /// them, and their number, in the memory of the workgroup.
    pub fn find(thread_id: usize, particle: ParticleLocal, workgroup_data: &mut WorkGroupData)
        requires
            old(workgroup_data).wf(),
            thread_id < THREADS,
            old(workgroup_data).world.covers(particle.position),
        ensures
            final(workgroup_data).wf(),
            spec_noted(
                old(workgroup_data),
                final(workgroup_data),
                thread_id as int,
                spec_neighbours(old(workgroup_data), particle.position),
            ),
    {
        let mut neighbours = Self::new(thread_id, particle);
        neighbours.finder(thread_id, workgroup_data);
    }

    /// The memory holds the first neighbours of the search in the list of its
    /// thread, and is otherwise as `before` was.
    pub open spec fn progress(
        &self,
        before: &WorkGroupData,
        now: &WorkGroupData,
        found: Seq<ParticleIDLocal>,
    ) -> bool {
        let length = WorkGroupData::spec_max_neighbours(before.world);
        &&& self.count == found.len()
        &&& self.count + 1 <= length
        &&& now.wf()
        &&& now.pixel_grid == before.pixel_grid
        &&& now.particles == before.particles
        &&& now.particles_count == before.particles_count
        &&& now.dimensions == before.dimensions
        &&& now.workgroup_id == before.workgroup_id
        &&& now.world == before.world
        &&& now.neighbours_count == before.neighbours_count
        &&& now.neighbours@.len() == before.neighbours@.len()
        &&& forall|slot: int|
            0 <= slot < before.neighbours@.len() ==> #[trigger] now.neighbours@[slot] == (if
                self.thread_id
                * length + 1 <= slot < self.thread_id * length + 1 + found.len() {
                found[slot - (self.thread_id * length + 1)]
            } else {
                before.neighbours@[slot]
            })
    }

    /// Looks at the grid points within reach of the particle's own, row by
    /// row, and notes what it finds.
    fn finder(&mut self, thread_id: usize, workgroup_data: &mut WorkGroupData)
        requires
            old(workgroup_data).wf(),
            thread_id < THREADS,
            old(self).thread_id == thread_id,
            old(workgroup_data).world.covers(old(self).particle.position),
        ensures
            final(workgroup_data).wf(),
            spec_noted(
                old(workgroup_data),
                final(workgroup_data),
                thread_id as int,
                spec_neighbours(old(workgroup_data), old(self).particle.position),
            ),
    {
        self.count = 0;
        let world = workgroup_data.world;
        let width = world.get_grid_width();
        let height = world.get_grid_height();
        let reach = world.influence_factor * world.grid_resolution;
        let (x_min, x_max) = Self::range(pixel(self.particle.position.x, width), reach, width);
        let (y_min, y_max) = Self::range(pixel(self.particle.position.y, height), reach, height);
        let ghost centre = self.particle.position;
        let ghost mut found: Seq<ParticleIDLocal> = Seq::empty();
        proof {
            let length = WorkGroupData::spec_max_neighbours(world);
            assert(length >= 1) by (nonlinear_arith)
                requires
                    length == (world.influence_factor * 2 + 1) * (world.influence_factor * 2 + 1),
            ;
        }
        let mut y: u32 = y_min;
        while y < y_max + 1
            invariant
                thread_id < THREADS,
                self.thread_id == thread_id,
                self.particle == old(self).particle,
                centre == self.particle.position,
                world == old(workgroup_data).world,
                x_min <= x_max < 32768,
                y_min <= y <= y_max + 1,
                y_max < 32768,
                self.progress(old(workgroup_data), workgroup_data, found),
                found == spec_look_rows(
                    Seq::empty(),
                    old(workgroup_data),
                    centre,
                    y_min as int,
                    y as int,
                    x_min as int,
                    x_max + 1,
                ),
            decreases y_max + 1 - y,
        {
            let ghost before = found;
            let mut x: u32 = x_min;
            while x < x_max + 1
                invariant
                    thread_id < THREADS,
                    self.thread_id == thread_id,
                    self.particle == old(self).particle,
                    centre == self.particle.position,
                    world == old(workgroup_data).world,
                    x_min <= x <= x_max + 1,
                    x_max < 32768,
                    y < 32768,
                    self.progress(old(workgroup_data), workgroup_data, found),
                    found == spec_look_row(
                        before,
                        old(workgroup_data),
                        centre,
                        y as int,
                        x_min as int,
                        x as int,
                    ),
                decreases x_max + 1 - x,
            {
                let ghost previous = found;
                let ghost earlier = *workgroup_data;
                let ghost length = WorkGroupData::spec_max_neighbours(world);
                let ghost base = thread_id * length + 1;
                proof {
                    assert(spec_neighbour_at(old(workgroup_data), centre, x as int, y as int)
                        == spec_neighbour_at(&earlier, centre, x as int, y as int));
                    assert(base + previous.len() <= THREADS * length && 0 <= thread_id * length)
                        by (nonlinear_arith)
                        requires
                            base == thread_id * length + 1,
                            thread_id < THREADS,
                            previous.len() + 1 <= length,
                    ;
                }
                let noted = self.check_pixel(workgroup_data, x, y);
                proof {
                    found = spec_look(previous, old(workgroup_data), centre, x as int, y as int);
                    let look = spec_neighbour_at(&earlier, centre, x as int, y as int);
                    assert(thread_id * length + previous.len() + 1 == base + previous.len());
                    if look.is_some() && previous.len() + 1 < length {
                        assert(base + previous.len() < THREADS * length) by (nonlinear_arith)
                            requires
                                base == thread_id * length + 1,
                                thread_id < THREADS,
                                previous.len() + 1 < length,
                        ;
                        assert(found == previous.push(look.unwrap()));
                        assert(workgroup_data.neighbours@ == earlier.neighbours@.update(
                            base + previous.len(),
                            look.unwrap(),
                        ));
                    } else {
                        assert(found == previous);
                        assert(workgroup_data.neighbours@ == earlier.neighbours@);
                    }
                    assert forall|slot: int|
                        0 <= slot < old(workgroup_data).neighbours@.len() implies #[trigger]
                            workgroup_data.neighbours@[slot]
                        == (if base <= slot < base + found.len() {
                        found[slot - base]
                    } else {
                        old(workgroup_data).neighbours@[slot]
                    }) by {
                        if base <= slot < base + previous.len() {
                            assert(earlier.neighbours@[slot] == previous[slot - base]);
                        }
                    }
                }
                x += 1;
            }
            y += 1;
        }
        self.store_neighbour_count(thread_id, workgroup_data);
    }

    /// The first and last grid point, along an axis of `scale` points, within
    /// `reach` points of `point`.
    fn range(point: u32, reach: u32, scale: u32) -> (r: (u32, u32))
        requires
            point < scale,
            scale <= 32768,
            reach <= 32768,
        ensures
            r.0 == spec_window(point as int, reach as int, scale as int).0,
            r.1 == spec_window(point as int, reach as int, scale as int).1,
            r.0 <= r.1 < scale,
    {
        let min = if point < reach {
            0
        } else {
            point - reach
        };
        let max = if point + reach > scale - 1 {
            scale - 1
        } else {
            point + reach
        };
        (min, max)
    }

    /// Is `position` within the influence of the particle?
    fn is_near(&self, position: Vec2, world: &World) -> (r: bool)
        requires
            world.wf(),
        ensures
            r == spec_near(position, self.particle.position, *world),
    {
        let limit: i128 = world.influence().raw as i128;
        let dx: i128 = self.particle.position.x.raw as i128 - position.x.raw as i128;
        let dy: i128 = self.particle.position.y.raw as i128 - position.y.raw as i128;
        if dx >= limit || dx <= -limit || dy >= limit || dy <= -limit {
            proof {
                assert(dx * dx + dy * dy >= limit * limit) by (nonlinear_arith)
                    requires
                        dx >= limit || dx <= -limit || dy >= limit || dy <= -limit,
                        limit >= 0,
                ;
            }
            return false;
        }
        assert(0 <= dx * dx <= limit * limit && 0 <= dy * dy <= limit * limit && limit * limit
            <= 0x80_0000_0000 * 0x80_0000_0000) by (nonlinear_arith)
            requires
                -limit < dx < limit,
                -limit < dy < limit,
                limit <= 0x80_0000_0000,
        ;
        dx * dx + dy * dy < limit * limit
    }

    /// Looks at the grid point `(x, y)` of the workgroup's part and notes the
    /// particle on it, if it is a neighbour and the list has room.
    fn check_pixel(&mut self, workgroup_data: &mut WorkGroupData, x: u32, y: u32) -> (noted: bool)
        requires
            old(workgroup_data).wf(),
            old(self).thread_id < THREADS,
            old(self).count + 1 <= WorkGroupData::spec_max_neighbours(old(workgroup_data).world),
        ensures
            final(self).thread_id == old(self).thread_id,
            final(self).particle == old(self).particle,
            final(workgroup_data).wf(),
            final(workgroup_data).pixel_grid == old(workgroup_data).pixel_grid,
            final(workgroup_data).particles == old(workgroup_data).particles,
            final(workgroup_data).particles_count == old(workgroup_data).particles_count,
            final(workgroup_data).dimensions == old(workgroup_data).dimensions,
            final(workgroup_data).workgroup_id == old(workgroup_data).workgroup_id,
            final(workgroup_data).world == old(workgroup_data).world,
            final(workgroup_data).neighbours_count == old(workgroup_data).neighbours_count,
            final(self).count + 1 <= WorkGroupData::spec_max_neighbours(old(workgroup_data).world),
            match spec_neighbour_at(
                old(workgroup_data),
                old(self).particle.position,
                x as int,
                y as int,
            ) {
                Some(id) => if old(self).count + 1 < WorkGroupData::spec_max_neighbours(
                    old(workgroup_data).world,
                ) {
                    &&& noted
                    &&& final(self).count == old(self).count + 1
                    &&& final(workgroup_data).neighbours@ == old(workgroup_data).neighbours@.update(
                        old(self).thread_id * WorkGroupData::spec_max_neighbours(
                            old(workgroup_data).world,
                        ) + old(self).count + 1,
                        id,
                    )
                } else {
                    &&& !noted
                    &&& final(self).count == old(self).count
                    &&& final(workgroup_data).neighbours == old(workgroup_data).neighbours
                },
                None => {
                    &&& !noted
                    &&& final(self).count == old(self).count
                    &&& final(workgroup_data).neighbours == old(workgroup_data).neighbours
                },
            },
    {
        let coord = self.position_to_workgroup_map_index(workgroup_data, x, y);
        if coord >= workgroup_data.pixel_grid.len() as u64 {
            return false;
        }
        let neighbour_id = workgroup_data.pixel_grid[coord as usize].id;

        if neighbour_id == ParticleIDLocal::null() {
            return false;
        }
        if neighbour_id as usize >= workgroup_data.particles.len() {
            return false;
        }
        let position = workgroup_data.particles[neighbour_id as usize].position;
        if self.is_near(position, &workgroup_data.world) {
            let length = WorkGroupData::max_neighbours(&workgroup_data.world);
            if self.count + 1 < length {
                self.store_neighbour(workgroup_data, ParticleIDLocal { id: neighbour_id });
                return true;
            }
        }
        false
    }

    /// Notes one more neighbour in the list of the thread.
    fn store_neighbour(&mut self, workgroup_data: &mut WorkGroupData, neighbour_id: ParticleIDLocal)
        requires
            old(workgroup_data).wf(),
            old(self).thread_id < THREADS,
            old(self).count + 1 < WorkGroupData::spec_max_neighbours(old(workgroup_data).world),
        ensures
            final(self).thread_id == old(self).thread_id,
            final(self).particle == old(self).particle,
            final(self).count == old(self).count + 1,
            final(workgroup_data).wf(),
            final(workgroup_data).neighbours@ == old(workgroup_data).neighbours@.update(
                old(self).thread_id * WorkGroupData::spec_max_neighbours(old(workgroup_data).world)
                    + old(self).count + 1,
                neighbour_id,
            ),
            final(workgroup_data).pixel_grid == old(workgroup_data).pixel_grid,
            final(workgroup_data).particles == old(workgroup_data).particles,
            final(workgroup_data).particles_count == old(workgroup_data).particles_count,
            final(workgroup_data).neighbours_count == old(workgroup_data).neighbours_count,
            final(workgroup_data).dimensions == old(workgroup_data).dimensions,
            final(workgroup_data).workgroup_id == old(workgroup_data).workgroup_id,
            final(workgroup_data).world == old(workgroup_data).world,
    {
        let length = WorkGroupData::max_neighbours(&workgroup_data.world);
        workgroup_data.store_neighbour(self.thread_id, self.count, neighbour_id);
        self.count += 1;
    }

    /// Notes the number of neighbours that the thread found.
    fn store_neighbour_count(&mut self, thread_id: usize, workgroup_data: &mut WorkGroupData)
        requires
            old(workgroup_data).wf(),
            thread_id < THREADS,
        ensures
            *final(self) == *old(self),
            final(workgroup_data).wf(),
            final(workgroup_data).neighbours_count@ == old(workgroup_data).neighbours_count@.update(
                thread_id as int,
                old(self).count,
            ),
            final(workgroup_data).neighbours == old(workgroup_data).neighbours,
            final(workgroup_data).pixel_grid == old(workgroup_data).pixel_grid,
            final(workgroup_data).particles == old(workgroup_data).particles,
            final(workgroup_data).particles_count == old(workgroup_data).particles_count,
            final(workgroup_data).dimensions == old(workgroup_data).dimensions,
            final(workgroup_data).workgroup_id == old(workgroup_data).workgroup_id,
            final(workgroup_data).world == old(workgroup_data).world,
    {
        workgroup_data.neighbours_count[thread_id] = self.count;
    }
}

} // verus!
