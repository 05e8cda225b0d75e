//! Neighbour search on a pixel map.
//!
//! Every particle is noted at the point of a grid, about as fine as the
//! pixels, on which it lies. The neighbours of a particle are then found by
//! looking at the grid points around its own. A grid point has room for one
//! particle only: of two particles on the same point the one placed last is
//! found.

use crate::math::Vec2;
use crate::physics::particles::spec_distance_squared;
use crate::physics::world::{pixel, spec_pixel, World};
use crate::scalar::Scalar;
use vstd::prelude::*;

verus! {

/// The number by which a particle is known.
pub type ParticleID = u32;

/// The most neighbours that are noted for a particle.
pub const MAX_NEIGHBOURS: usize = 9;

/// The length of a list of neighbours: the number of neighbours, then the
/// neighbours.
pub const MAX_NEIGHBOURS_WITH_COUNT: usize = 10;

/// The neighbours of one particle: their number first, then their IDs.
pub type NeighbourhoodIDs = [ParticleID; 10];

/// What a grid point holds when no particle is on it. The particle with ID
/// `id` is noted as `id + 1`.
pub const NO_PARTICLE_ID: ParticleID = 0;

/// What one solver stage hands to the next about a particle.
#[derive(Copy, Clone, Debug, PartialEq, Eq, Structural)]
pub struct ParticlePropogation {
    /// Where the particle was before the stage.
    pub previous: Vec2,
    /// The multiplier that the stage found for the particle.
    pub lambda: Scalar,
}

impl Default for ParticlePropogation {
    fn default() -> (r: Self)
        ensures
            r == spec_no_propogation(),
    {
        ParticlePropogation { previous: Vec2::default(), lambda: Scalar::zero() }
    }
}

/// A particle as the neighbour search hands it out.
#[derive(Copy, Clone, Debug, PartialEq, Eq, Structural)]
pub struct FluidParticle {
    /// The number by which the particle is known.
    pub id: ParticleID,
    /// Where the particle is.
    pub position: Vec2,
    /// How fast it moves.
    pub velocity: Vec2,
    /// Where it was before the last solver stage.
    pub previous: Vec2,
    /// The multiplier that the last solver stage found for it.
    pub lambda: Scalar,
}

impl Default for FluidParticle {
    fn default() -> (r: Self)
        ensures
            r == spec_no_fluid_particle(),
    {
        FluidParticle {
            id: 0,
            position: Vec2::default(),
            velocity: Vec2::default(),
            previous: Vec2::default(),
            lambda: Scalar::zero(),
        }
    }
}

/// The zero vector.
pub open spec fn spec_zero() -> Vec2 {
    Vec2 { x: Scalar { raw: 0 }, y: Scalar { raw: 0 } }
}

/// What is handed on about a particle when nothing is known.
pub open spec fn spec_no_propogation() -> ParticlePropogation {
    ParticlePropogation { previous: spec_zero(), lambda: Scalar { raw: 0 } }
}

/// The particle that stands where there is none.
pub open spec fn spec_no_fluid_particle() -> FluidParticle {
    FluidParticle {
        id: 0,
        position: spec_zero(),
        velocity: spec_zero(),
        previous: spec_zero(),
        lambda: Scalar { raw: 0 },
    }
}

/// The particle `id` at `position`, with nothing else known.
pub open spec fn spec_central(id: ParticleID, position: Vec2) -> FluidParticle {
    FluidParticle {
        id,
        position,
        velocity: spec_zero(),
        previous: spec_zero(),
        lambda: Scalar { raw: 0 },
    }
}

/// The index of the grid point `(x, y)` in the pixel map.
pub open spec fn spec_linear_pixel_coord(x: int, y: int, world: World) -> int {
    y * world.grid_width() + x
}

/// The index of the grid point of `position` in the pixel map.
pub open spec fn spec_pixel_index(position: Vec2, world: World) -> int {
    spec_linear_pixel_coord(
        spec_pixel(position.x.raw as int, world.grid_width()),
        spec_pixel(position.y.raw as int, world.grid_height()),
        world,
    )
}

/// `a` is within the influence of `b`.
pub open spec fn spec_near(a: Vec2, b: Vec2, world: World) -> bool {
    spec_distance_squared(a, b) < world.influence_raw() * world.influence_raw()
}

/// The first and last grid point, along an axis of `scale` points, within
/// `reach` points of the point `point`.
pub open spec fn spec_range(point: int, reach: int, scale: int) -> (int, int) {
    (
        if point - reach < 0 {
            0
        } else {
            point - reach
        },
        if point + reach > scale - 1 {
            scale - 1
        } else {
            point + reach
        },
    )
}

/// The neighbours found once the grid point `(x, y)` has been looked at: if
/// there is room for another neighbour, a particle is on the point, and it
/// is within the influence of `centre`, it is one more neighbour.
pub open spec fn spec_check_pixel(
    found: Seq<ParticleID>,
    x: int,
    y: int,
    map: Seq<ParticleID>,
    positions: Seq<Vec2>,
    centre: Vec2,
    world: World,
) -> Seq<ParticleID> {
    let occupant = map[spec_linear_pixel_coord(x, y, world)];
    if found.len() < MAX_NEIGHBOURS && occupant != NO_PARTICLE_ID && spec_near(
        positions[occupant - 1],
        centre,
        world,
    ) {
        found.push((occupant - 1) as u32)
    } else {
        found
    }
}

/// The neighbours found once the points `x_from`, ..., `x_end - 1` of row `y`
/// have been looked at.
pub open spec fn spec_check_row(
    found: Seq<ParticleID>,
    y: int,
    x_from: int,
    x_end: int,
    map: Seq<ParticleID>,
    positions: Seq<Vec2>,
    centre: Vec2,
    world: World,
) -> Seq<ParticleID>
    decreases x_end - x_from,
{
    if x_end <= x_from {
        found
    } else {
        spec_check_pixel(
            spec_check_row(found, y, x_from, x_end - 1, map, positions, centre, world),
            x_end - 1,
            y,
            map,
            positions,
            centre,
            world,
        )
    }
}

/// The neighbours found once the rows `y_from`, ..., `y_end - 1` have been
/// looked at, each from `x_from` to `x_end - 1`.
pub open spec fn spec_check_rows(
    found: Seq<ParticleID>,
    y_from: int,
    y_end: int,
    x_from: int,
    x_end: int,
    map: Seq<ParticleID>,
    positions: Seq<Vec2>,
    centre: Vec2,
    world: World,
) -> Seq<ParticleID>
    decreases y_end - y_from,
{
    if y_end <= y_from {
        found
    } else {
        spec_check_row(
            spec_check_rows(found, y_from, y_end - 1, x_from, x_end, map, positions, centre, world),
            y_end - 1,
            x_from,
            x_end,
            map,
            positions,
            centre,
            world,
        )
    }
}

/// The neighbours of a particle at `centre`: the particles on the grid points
/// within reach of its own, row by row, that are within its influence; the
/// first [`MAX_NEIGHBOURS`] of them.
pub open spec fn spec_search(
    map: Seq<ParticleID>,
    positions: Seq<Vec2>,
    centre: Vec2,
    world: World,
) -> Seq<ParticleID> {
    let x = spec_range(
        spec_pixel(centre.x.raw as int, world.grid_width()),
        world.reach(),
        world.grid_width(),
    );
    let y = spec_range(
        spec_pixel(centre.y.raw as int, world.grid_height()),
        world.reach(),
        world.grid_height(),
    );
    spec_check_rows(Seq::empty(), y.0, y.1 + 1, x.0, x.1 + 1, map, positions, centre, world)
}

/// The list of `found` as it is stored: the number of neighbours, the
/// neighbours, and zeros.
pub open spec fn spec_ids(found: Seq<ParticleID>) -> Seq<ParticleID> {
    Seq::new(
        MAX_NEIGHBOURS_WITH_COUNT as nat,
        |i: int|
            if i == 0 {
                found.len() as u32
            } else if i <= found.len() {
                found[i - 1]
            } else {
                0u32
            },
    )
}

/// Every particle that the map notes exists.
pub open spec fn spec_map_fits(map: Seq<ParticleID>, particles: int, world: World) -> bool {
    &&& map.len() == world.grid_size()
    &&& forall|i: int| 0 <= i < map.len() ==> #[trigger] map[i] <= particles
}

/// The neighbour with ID `id` as it is recruited at stage `stage`: with
/// position and velocity at stage 0, with what the last stage handed on
/// besides at stage 1, and not at all at any other stage.
pub open spec fn spec_recruit(
    positions: Seq<Vec2>,
    velocities: Seq<Vec2>,
    propogations: Seq<ParticlePropogation>,
    id: ParticleID,
    stage: u32,
) -> FluidParticle {
    if stage == 0 {
        FluidParticle {
            id,
            position: positions[id as int],
            velocity: velocities[id as int],
            previous: spec_zero(),
            lambda: Scalar { raw: 0 },
        }
    } else if stage == 1 {
        FluidParticle {
            id,
            position: positions[id as int],
            velocity: velocities[id as int],
            previous: propogations[id as int].previous,
            lambda: propogations[id as int].lambda,
        }
    } else {
        spec_no_fluid_particle()
    }
}

/// The IDs `ids[1]`, ..., `ids[ids[0]]` can be recruited at stage `stage`.
pub open spec fn spec_recruitable(
    positions: Seq<Vec2>,
    velocities: Seq<Vec2>,
    propogations: Seq<ParticlePropogation>,
    ids: Seq<ParticleID>,
    stage: u32,
) -> bool {
    &&& ids.len() == MAX_NEIGHBOURS_WITH_COUNT
    &&& ids[0] <= MAX_NEIGHBOURS
    &&& stage <= 1 ==> forall|i: int|
        1 <= i <= ids[0] ==> (#[trigger] ids[i]) < positions.len() && ids[i] < velocities.len()
    &&& stage == 1 ==> forall|i: int| 1 <= i <= ids[0] ==> (#[trigger] ids[i]) < propogations.len()
}

/// A particle and its neighbours.
#[derive(Copy, Clone, Debug)]
pub struct NeighbouringParticles {
    /// The number of neighbours.
    pub count: usize,
    /// The particle whose neighbours these are.
    pub particle: FluidParticle,
    /// The IDs of the neighbours, behind one slot for their number.
    pub neighbourhood_ids: NeighbourhoodIDs,
    /// The neighbours.
    pub neighbourhood: [FluidParticle; 10],
}

impl NeighbouringParticles {
    /// The neighbours noted so far.
    pub open spec fn noted(&self) -> Seq<ParticleID> {
        self.neighbourhood_ids@.subrange(1, 1 + self.count as int)
    }

    /// No more neighbours are noted than allowed, and the slots behind them
    /// hold zero.
    pub open spec fn wf(&self) -> bool {
        &&& self.count <= MAX_NEIGHBOURS
        &&& forall|i: int|
            self.count < i < MAX_NEIGHBOURS_WITH_COUNT ==> #[trigger] self.neighbourhood_ids@[i] ==
                0
    }

    /// Notes the particle `id` on the grid point of `position`.
    pub fn place_particle_in_pixel(
        id: ParticleID,
        position: Vec2,
        map: &mut [ParticleID],
        world: &World,
    )
        requires
            world.wf(),
            world.covers(position),
            old(map)@.len() == world.grid_size(),
            id < u32::MAX,
        ensures
            0 <= spec_pixel_index(position, *world) < old(map)@.len(),
            final(map)@ == old(map)@.update(spec_pixel_index(position, *world), (id + 1) as u32),
    {
        // Pixels are grid points themselves.
        let coord = Self::linear_pixel_coord(
            pixel(position.x, world.get_grid_width()),
            pixel(position.y, world.get_grid_height()),
            world,
        );
        // One is added because zero stands for no particle.
        map[coord] = id + 1;
    }

    /// Finds the neighbours of the particle `id` and stores their list, with
    /// their number in front, in the slot of the particle in
    /// `neighbourhood_ids_buffer`.
    pub fn find(
        id: ParticleID,
        map: &[ParticleID],
        positions: &[Vec2],
        neighbourhood_ids_buffer: &mut [NeighbourhoodIDs],
        world: &World,
    ) -> (r: NeighbourhoodIDs)
        requires
            world.wf(),
            id < positions@.len(),
            id < old(neighbourhood_ids_buffer)@.len(),
            world.covers(positions@[id as int]),
            spec_map_fits(map@, positions@.len() as int, *world),
        ensures
            r@ == spec_ids(spec_search(map@, positions@, positions@[id as int], *world)),
            final(neighbourhood_ids_buffer)@ == old(neighbourhood_ids_buffer)@.update(id as int, r),
    {
        let particle = FluidParticle {
            id,
            position: positions[id as usize],
            velocity: Vec2::default(),
            previous: Vec2::default(),
            lambda: Scalar::zero(),
        };
        let mut neighbouring = NeighbouringParticles::new(particle);
        neighbouring.search_area_of_influence(map, positions, world);
        neighbouring.neighbourhood_ids[0] = neighbouring.count as ParticleID;
        proof {
            let found = spec_search(map@, positions@, positions@[id as int], *world);
            assert(neighbouring.neighbourhood_ids@ =~= spec_ids(found)) by {
                assert forall|i: int| 0 <= i < 10 implies neighbouring.neighbourhood_ids@[i]
                    == spec_ids(found)[i] by {
                    if 1 <= i <= found.len() {
                        assert(found[i - 1] == neighbouring.neighbourhood_ids@[i]);
                    }
                }
            }
        }
        neighbourhood_ids_buffer[id as usize] = neighbouring.neighbourhood_ids;
        neighbouring.neighbourhood_ids
    }

    /// The particle `id` with the neighbours that were found for it and
    /// stored in `neighbourhood_ids_buffer`.
    pub fn recruit_from_global(
        id: ParticleID,
        positions: &[Vec2],
        velocities: &[Vec2],
        propogations: &[ParticlePropogation],
        neighbourhood_ids_buffer: &[NeighbourhoodIDs],
        stage: u32,
    ) -> (r: NeighbouringParticles)
        requires
            id < positions@.len(),
            id < neighbourhood_ids_buffer@.len(),
            spec_recruitable(
                positions@,
                velocities@,
                propogations@,
                neighbourhood_ids_buffer@[id as int]@,
                stage,
            ),
        ensures
            r.is_recruited(
                id,
                positions@,
                velocities@,
                propogations@,
                neighbourhood_ids_buffer@[id as int]@,
                stage,
            ),
    {
        let neighbourhood_ids = neighbourhood_ids_buffer[id as usize];
        Self::recruit_from_ids(id, positions, velocities, propogations, neighbourhood_ids, stage)
    }

    /// `self` is the particle `id` with the neighbours of the list `ids`,
    /// recruited at stage `stage`; no IDs are noted.
    pub open spec fn is_recruited(
        &self,
        id: ParticleID,
        positions: Seq<Vec2>,
        velocities: Seq<Vec2>,
        propogations: Seq<ParticlePropogation>,
        ids: Seq<ParticleID>,
        stage: u32,
    ) -> bool {
        &&& self.count == ids[0]
        &&& self.particle == spec_central(id, positions[id as int])
        &&& forall|i: int|
            0 <= i < MAX_NEIGHBOURS_WITH_COUNT ==> #[trigger] self.neighbourhood@[i] == (if i
                < ids[0] {
                spec_recruit(positions, velocities, propogations, ids[i + 1], stage)
            } else {
                spec_no_fluid_particle()
            })
        &&& forall|i: int|
            0 <= i < MAX_NEIGHBOURS_WITH_COUNT ==> #[trigger] self.neighbourhood_ids@[i] == 0
    }

    /// The particle `id` with the neighbours of the list `neighbourhood_ids`.
    pub fn recruit_from_ids(
        id: ParticleID,
        positions: &[Vec2],
        velocities: &[Vec2],
        propogations: &[ParticlePropogation],
        neighbourhood_ids: NeighbourhoodIDs,
        stage: u32,
    ) -> (r: NeighbouringParticles)
        requires
            id < positions@.len(),
            spec_recruitable(positions@, velocities@, propogations@, neighbourhood_ids@, stage),
        ensures
            r.is_recruited(id, positions@, velocities@, propogations@, neighbourhood_ids@, stage),
    {
        let central_particle = FluidParticle {
            id,
            position: positions[id as usize],
            velocity: Vec2::default(),
            previous: Vec2::default(),
            lambda: Scalar::zero(),
        };
        let mut neighbouring = NeighbouringParticles::new(central_particle);
        neighbouring.count = neighbourhood_ids[0] as usize;
        let count = neighbouring.count;
        let mut i: usize = 1;
        while i <= count
            invariant
                1 <= i <= count + 1,
                count == neighbourhood_ids@[0],
                count <= MAX_NEIGHBOURS,
                neighbouring.count == count,
                neighbouring.particle == spec_central(id, positions@[id as int]),
                spec_recruitable(positions@, velocities@, propogations@, neighbourhood_ids@, stage),
                forall|j: int|
                    0 <= j < MAX_NEIGHBOURS_WITH_COUNT ==> #[trigger] neighbouring.neighbourhood@[j]
                        == (if j < i - 1 {
                        spec_recruit(
                            positions@,
                            velocities@,
                            propogations@,
                            neighbourhood_ids@[j + 1],
                            stage,
                        )
                    } else {
                        spec_no_fluid_particle()
                    }),
                forall|j: int|
                    0 <= j < MAX_NEIGHBOURS_WITH_COUNT
                        ==> #[trigger] neighbouring.neighbourhood_ids@[j] == 0,
            decreases count + 1 - i,
        {
            let recruit = Self::recruit_neighbour(
                positions,
                velocities,
                propogations,
                neighbourhood_ids[i],
                stage,
            );
            neighbouring.neighbourhood[i - 1] = recruit;
            i += 1;
        }
        neighbouring
    }

    /// `particle` without neighbours.
    pub fn new(particle: FluidParticle) -> (r: NeighbouringParticles)
        ensures
            r.count == 0,
            r.particle == particle,
            r.wf(),
            r.noted() == Seq::<ParticleID>::empty(),
            forall|i: int|
                0 <= i < MAX_NEIGHBOURS_WITH_COUNT ==> #[trigger] r.neighbourhood_ids@[i] == 0,
            forall|i: int|
                0 <= i < MAX_NEIGHBOURS_WITH_COUNT ==> #[trigger] r.neighbourhood@[i]
                    == spec_no_fluid_particle(),
    {
        let r = NeighbouringParticles {
            count: 0,
            particle,
            neighbourhood_ids: [0; 10],
            neighbourhood: [FluidParticle::default(); 10],
        };
        assert(r.noted() =~= Seq::<ParticleID>::empty());
        r
    }

    /// The index of the grid point `(x, y)` in the pixel map.
    fn linear_pixel_coord(x: u32, y: u32, world: &World) -> (r: usize)
        requires
            world.wf(),
            x < world.grid_width(),
            y < world.grid_height(),
        ensures
            r == spec_linear_pixel_coord(x as int, y as int, *world),
            r < world.grid_size(),
    {
        let width = world.get_grid_width();
        assert(y * width + x < width * world.grid_height() && y * width <= 32768 * 32768)
            by (nonlinear_arith)
            requires
                x < width,
                y < world.grid_height(),
                width <= 32768,
                world.grid_height() <= 32768,
        ;
        ((y * width) + x) as usize
    }

    /// Looks at the grid points within reach of the particle's own, row by
    /// row, and notes the neighbours that it finds there.
    fn search_area_of_influence(&mut self, map: &[ParticleID], positions: &[Vec2], world: &World)
        requires
            world.wf(),
            old(self).wf(),
            old(self).count == 0,
            world.covers(old(self).particle.position),
            spec_map_fits(map@, positions@.len() as int, *world),
        ensures
            final(self).wf(),
            final(self).particle == old(self).particle,
            final(self).neighbourhood == old(self).neighbourhood,
            final(self).neighbourhood_ids@[0] == old(self).neighbourhood_ids@[0],
            final(self).noted() == spec_search(
                map@,
                positions@,
                old(self).particle.position,
                *world,
            ),
    {
        self.count = 0;
        let width = world.get_grid_width();
        let height = world.get_grid_height();
        let reach = world.influence_factor * world.grid_resolution;
        let (x_min, x_max) = Self::range(pixel(self.particle.position.x, width), reach, width);
        let (y_min, y_max) = Self::range(pixel(self.particle.position.y, height), reach, height);
        let ghost centre = self.particle.position;
        assert(self.noted() =~= Seq::<ParticleID>::empty());
        let mut y: u32 = y_min;
        while y < y_max + 1
            invariant
                world.wf(),
                self.wf(),
                width == world.grid_width(),
                height == world.grid_height(),
                x_min <= x_max < width,
                y_min <= y <= y_max + 1,
                y_max < height,
                self.particle == old(self).particle,
                centre == self.particle.position,
                self.neighbourhood == old(self).neighbourhood,
                self.neighbourhood_ids@[0] == old(self).neighbourhood_ids@[0],
                spec_map_fits(map@, positions@.len() as int, *world),
                self.noted() == spec_check_rows(
                    Seq::empty(),
                    y_min as int,
                    y as int,
                    x_min as int,
                    x_max + 1,
                    map@,
                    positions@,
                    centre,
                    *world,
                ),
            decreases y_max + 1 - y,
        {
            let ghost before = self.noted();
            let mut x: u32 = x_min;
            while x < x_max + 1
                invariant
                    world.wf(),
                    self.wf(),
                    width == world.grid_width(),
                    height == world.grid_height(),
                    x_min <= x <= x_max + 1,
                    x_max < width,
                    y < height,
                    self.particle == old(self).particle,
                    centre == self.particle.position,
                    self.neighbourhood == old(self).neighbourhood,
                    self.neighbourhood_ids@[0] == old(self).neighbourhood_ids@[0],
                    spec_map_fits(map@, positions@.len() as int, *world),
                    self.noted() == spec_check_row(
                        before,
                        y as int,
                        x_min as int,
                        x as int,
                        map@,
                        positions@,
                        centre,
                        *world,
                    ),
                decreases x_max + 1 - x,
            {
                self.check_pixel(x, y, map, positions, world);
                x += 1;
            }
            y += 1;
        }
    }

    /// The first and last grid point, along an axis of `scale` points, within
    /// `reach` points of `point`.
    fn range(point: u32, reach: u32, scale: u32) -> (r: (u32, u32))
        requires
            point < scale,
            scale <= 32768,
            reach <= 32768,
        ensures
            r.0 == spec_range(point as int, reach as int, scale as int).0,
            r.1 == spec_range(point as int, reach as int, scale as int).1,
            r.0 <= r.1 < scale,
    {
        let min = if point < reach {
            0
        } else {
            point - reach
        };
        let max = if point + reach > scale - 1 {
            scale - 1
        } else {
            point + reach
        };
        (min, max)
    }

    /// Is `position` within the influence of the particle?
    fn is_near(&self, position: Vec2, world: &World) -> (r: bool)
        requires
            world.wf(),
        ensures
            r == spec_near(position, self.particle.position, *world),
    {
        let limit: i128 = world.influence().raw as i128;
        let dx: i128 = self.particle.position.x.raw as i128 - position.x.raw as i128;
        let dy: i128 = self.particle.position.y.raw as i128 - position.y.raw as i128;
        if dx >= limit || dx <= -limit || dy >= limit || dy <= -limit {
            proof {
                assert(dx * dx + dy * dy >= limit * limit) by (nonlinear_arith)
                    requires
                        dx >= limit || dx <= -limit || dy >= limit || dy <= -limit,
                        limit >= 0,
                ;
            }
            return false;
        }
        assert(0 <= dx * dx <= limit * limit && 0 <= dy * dy <= limit * limit && limit * limit
            <= 0x80_0000_0000 * 0x80_0000_0000) by (nonlinear_arith)
            requires
                -limit < dx < limit,
                -limit < dy < limit,
                limit <= 0x80_0000_0000,
        ;
        dx * dx + dy * dy < limit * limit
    }

    /// Looks at the grid point `(x, y)`: if a particle is on it and is within
    /// the influence of the particle, and there is room for another
    /// neighbour, it is noted as one.
    fn check_pixel(&mut self, x: u32, y: u32, map: &[ParticleID], positions: &[Vec2], world: &World)
        requires
            world.wf(),
            old(self).wf(),
            x < world.grid_width(),
            y < world.grid_height(),
            spec_map_fits(map@, positions@.len() as int, *world),
        ensures
            final(self).wf(),
            final(self).particle == old(self).particle,
            final(self).neighbourhood == old(self).neighbourhood,
            final(self).neighbourhood_ids@[0] == old(self).neighbourhood_ids@[0],
            final(self).noted() == spec_check_pixel(
                old(self).noted(),
                x as int,
                y as int,
                map@,
                positions@,
                old(self).particle.position,
                *world,
            ),
    {
        let coord = Self::linear_pixel_coord(x, y, world);
        let mut neighbour_id = map[coord];

        // The IDs on the map are one more than the IDs of the particles,
        // because zero stands for no particle.
        if neighbour_id == NO_PARTICLE_ID {
            return ;
        }
        neighbour_id -= 1;

        let position = positions[neighbour_id as usize];
        if self.count < MAX_NEIGHBOURS && self.is_near(position, world) {
            self.note_neighbour_id(neighbour_id);
        }
    }

    /// Notes one more neighbour.
    fn note_neighbour_id(&mut self, neighbour_id: ParticleID)
        requires
            old(self).wf(),
            old(self).count < MAX_NEIGHBOURS,
        ensures
            final(self).wf(),
            final(self).particle == old(self).particle,
            final(self).neighbourhood == old(self).neighbourhood,
            final(self).neighbourhood_ids@[0] == old(self).neighbourhood_ids@[0],
            final(self).noted() == old(self).noted().push(neighbour_id),
    {
        let index_offset = self.count + 1;
        self.neighbourhood_ids[index_offset] = neighbour_id;
        self.count += 1;
        proof {
            assert(self.noted() =~= old(self).noted().push(neighbour_id));
        }
    }

    /// The neighbour with ID `neighbour_id`, with as much as stage `stage`
    /// needs of it.
    fn recruit_neighbour(
        positions: &[Vec2],
        velocities: &[Vec2],
        propogations: &[ParticlePropogation],
        neighbour_id: ParticleID,
        stage: u32,
    ) -> (r: FluidParticle)
        requires
            stage <= 1 ==> neighbour_id < positions@.len() && neighbour_id < velocities@.len(),
            stage == 1 ==> neighbour_id < propogations@.len(),
        ensures
            r == spec_recruit(positions@, velocities@, propogations@, neighbour_id, stage),
    {
        if stage == 0 {
            FluidParticle {
                id: neighbour_id,
                position: positions[neighbour_id as usize],
                velocity: velocities[neighbour_id as usize],
                previous: Vec2::default(),
                lambda: Scalar::zero(),
            }
        } else if stage == 1 {
            FluidParticle {
                id: neighbour_id,
                previous: propogations[neighbour_id as usize].previous,
                position: positions[neighbour_id as usize],
                velocity: velocities[neighbour_id as usize],
                lambda: propogations[neighbour_id as usize].lambda,
            }
        } else {
            FluidParticle::default()
        }
    }

    /// The neighbour in slot `index`.
    pub fn get_neighbour(&mut self, index: u32) -> (r: FluidParticle)
        requires
            index < MAX_NEIGHBOURS_WITH_COUNT,
        ensures
            r == old(self).neighbourhood@[index as int],
            *final(self) == *old(self),
    {
        self.neighbourhood[index as usize]
    }

    /// The number of neighbours.
    pub fn length(&self) -> (r: u32)
        requires
            self.count <= u32::MAX,
        ensures
            r == self.count,
    {
        self.count as u32
    }
}

/// The position of a point of the world on the pixel grid.
pub fn pixel_position(position: Vec2, world: &World) -> (r: Vec2)
    requires
        world.wf(),
        world.covers(position),
    ensures
        r.x.raw == crate::physics::world::spec_scale(position.x.raw as int, world.grid_width()),
        r.y.raw == crate::physics::world::spec_scale(position.y.raw as int, world.grid_height()),
{
    Vec2::new(
        crate::physics::world::scale(position.x, world.get_grid_width()),
        crate::physics::world::scale(position.y, world.get_grid_height()),
    )
}

} // verus!
