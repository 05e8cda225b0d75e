//! The store of every particle that the host has handed over, keyed by the
//! spatial bin cell in which the particle was put.

use crate::error::WrachError;
use crate::math::{Vec2, Vec4};
use crate::packing::{is_packing, packed_positions};
use crate::spatial_bin::{spec_cell_coord, PackedData, SpatialBin, SpatialBinCoord};
use crate::state::Particle;
use std::collections::HashMap;
use vstd::prelude::*;

verus! {

/// The particles of one cell. Positions and velocities are kept apart so that
/// a pass reads only what it needs.
#[derive(Debug)]
pub struct ParticleData {
    /// Particle positions.
    pub positions: Vec<Vec2>,
    /// Particle velocities, in the order of the positions.
    pub velocities: Vec<Vec2>,
}

impl Default for ParticleData {
    fn default() -> (r: Self)
        ensures
            r.positions@.len() == 0,
            r.velocities@.len() == 0,
    {
        ParticleData { positions: Vec::new(), velocities: Vec::new() }
    }
}

/// All particle data, in and out of the viewport.
pub struct ParticleStore {
    /// The particles of each cell, under the key of the cell's coordinates.
    pub hashmap: HashMap<u64, ParticleData>,
    /// The grid that decides which cell a particle belongs to and which cells
    /// are active.
    pub spatial_bin: SpatialBin,
    /// The number of particles in the frame that was packed last.
    pub particles_in_frame_count: u32,
    /// The cells whose particles are on their way through the compute passes
    /// and are to be read back into the store.
    pub cells_to_read_from_gpu: Vec<SpatialBinCoord>,
}

/// The key under which the store keeps the cell `cell`.
pub open spec fn spec_cell_key(cell: SpatialBinCoord) -> u64 {
    ((cell.x + 0x8000_0000) * 0x1_0000_0000 + (cell.y + 0x8000_0000)) as u64
}

/// Different cells have different keys.
pub proof fn lemma_cell_key_injective(a: SpatialBinCoord, b: SpatialBinCoord)
    requires
        spec_cell_key(a) == spec_cell_key(b),
    ensures
        a == b,
{
}

/// The key under which the store keeps the cell `cell`.
pub fn cell_key(cell: SpatialBinCoord) -> (key: u64)
    ensures
        key == spec_cell_key(cell),
{
    let column: u64 = (cell.x as i64 + 0x8000_0000) as u64;
    let row: u64 = (cell.y as i64 + 0x8000_0000) as u64;
    column * 0x1_0000_0000 + row
}

/// The number of particles for which a frame of `cells` cells of side
/// `cell_size` reserves room: one particle per unit square and a tenth on
/// top, that is eleven tenths of the unit squares, rounded up.
pub open spec fn spec_max_particles(cells: int, cell_size: int) -> int {
    let normally = cells * (cell_size * cell_size);
    (11 * normally + 9) / 10
}

/// The room of a frame is the least whole number that is no less than eleven
/// tenths of the unit squares.
pub proof fn lemma_room_is_eleven_tenths_rounded_up(cells: int, cell_size: int)
    ensures
        10 * spec_max_particles(cells, cell_size) >= 11 * (cells * (cell_size * cell_size)),
        10 * (spec_max_particles(cells, cell_size) - 1) < 11 * (cells * (cell_size * cell_size)),
{
}

impl ParticleStore {
    /// Whether the store has an entry for `cell`.
    pub open spec fn has_cell(&self, cell: SpatialBinCoord) -> bool {
        self.hashmap@.contains_key(spec_cell_key(cell))
    }

    /// The positions stored for `cell`; none if the store has no entry for it.
    pub open spec fn positions_in(&self, cell: SpatialBinCoord) -> Seq<Vec2> {
        if self.has_cell(cell) {
            self.hashmap@[spec_cell_key(cell)].positions@
        } else {
            Seq::empty()
        }
    }

    /// The velocities stored for `cell`; none if the store has no entry for
    /// it.
    pub open spec fn velocities_in(&self, cell: SpatialBinCoord) -> Seq<Vec2> {
        if self.has_cell(cell) {
            self.hashmap@[spec_cell_key(cell)].velocities@
        } else {
            Seq::empty()
        }
    }

    /// The store holds for `cell` what `before` held for it.
    pub open spec fn unchanged_in(&self, before: &ParticleStore, cell: SpatialBinCoord) -> bool {
        &&& self.has_cell(cell) == before.has_cell(cell)
        &&& self.positions_in(cell) == before.positions_in(cell)
        &&& self.velocities_in(cell) == before.velocities_in(cell)
    }

    /// Every stored position lies in the cell under which it is stored.
    pub open spec fn binned(&self) -> bool {
        forall|cell: SpatialBinCoord, i: int|
            0 <= i < self.positions_in(cell).len() ==> spec_cell_coord(
                self.spatial_bin.cell_size,
                #[trigger] self.positions_in(cell)[i],
            ) == cell
    }

    /// The room that a frame reserves for particles.
    pub open spec fn capacity(&self) -> int {
        spec_max_particles(self.spatial_bin.active_cell_count(), self.spatial_bin.cell_size as int)
    }

    /// The grid is well formed and the room for a frame's particles can be
    /// counted in a `u32`.
    pub open spec fn wf(&self) -> bool {
        &&& self.spatial_bin.wf()
        &&& self.capacity() <= u32::MAX
    }

    /// An empty store for cells of side `cell_size` under `viewport`.
    ///
    /// Fails as [`SpatialBin::new`] does, and with `CapacityExceeded` when
    /// the room that a frame reserves cannot be counted in a `u32`.
    pub fn new(cell_size: u16, viewport: Vec4) -> (r: Result<Self, WrachError>)
        ensures
            r.is_ok() <==> {
                let probe = SpatialBin {
                    cell_size,
                    viewport,
                    grid_dimensions: crate::math::UVec2 { x: 0, y: 0 },
                };
                probe.valid() && spec_max_particles(probe.active_cell_count(), cell_size as int)
                    <= u32::MAX
            },
            match r {
                Ok(store) => {
                    &&& store.wf()
                    &&& store.spatial_bin.cell_size == cell_size
                    &&& store.spatial_bin.viewport == viewport
                    &&& store.hashmap@ == Map::<u64, ParticleData>::empty()
                    &&& store.particles_in_frame_count == 0
                    &&& store.cells_to_read_from_gpu@.len() == 0
                },
                Err(e) => {
                    let probe = SpatialBin {
                        cell_size,
                        viewport,
                        grid_dimensions: crate::math::UVec2 { x: 0, y: 0 },
                    };
                    if cell_size == 0 {
                        e == WrachError::InvalidConfig
                    } else if !probe.valid() {
                        e == WrachError::ConfigurationTooLarge
                    } else {
                        e == WrachError::CapacityExceeded && spec_max_particles(
                            probe.active_cell_count(),
                            cell_size as int,
                        ) > u32::MAX
                    }
                },
            },
    {
        let spatial_bin = match SpatialBin::new(cell_size, viewport) {
            Ok(spatial_bin) => spatial_bin,
            Err(e) => {
                return Err(e);
            },
        };
        proof {
            spatial_bin.lemma_cover_is_determined(
                &SpatialBin {
                    cell_size,
                    viewport,
                    grid_dimensions: crate::math::UVec2 { x: 0, y: 0 },
                },
            );
        }
        if max_particles(&spatial_bin) > u32::MAX as u64 {
            return Err(WrachError::CapacityExceeded);
        }
        Ok(
            ParticleStore {
                spatial_bin,
                hashmap: HashMap::new(),
                particles_in_frame_count: 0,
                cells_to_read_from_gpu: Vec::new(),
            },
        )
    }

    /// The particles stored for `cell`, if the store has an entry for it.
    pub fn particles_in_cell(&self, cell: SpatialBinCoord) -> (r: Option<&ParticleData>)
        ensures
            r.is_some() == self.has_cell(cell),
            r matches Some(data) ==> *data == self.hashmap@[spec_cell_key(cell)],
            r matches Some(data) ==> data.positions@ == self.positions_in(cell)
                && data.velocities@ == self.velocities_in(cell),
    {
        self.hashmap.get(&cell_key(cell))
    }

    /// Adds a particle to the store, at the end of the spatial bin cell in
    /// which its position lies.
    pub fn add_particle(&mut self, particle: Particle)
        requires
            old(self).spatial_bin.cell_size > 0,
        ensures
            ({
                let cell = spec_cell_coord(old(self).spatial_bin.cell_size, particle.position);
                &&& final(self).has_cell(cell)
                &&& final(self).positions_in(cell) == old(self).positions_in(cell).push(
                    particle.position,
                )
                &&& final(self).velocities_in(cell) == old(self).velocities_in(cell).push(
                    particle.velocity,
                )
                &&& forall|other: SpatialBinCoord|
                other != cell ==> #[trigger] final(self).unchanged_in(old(self), other)
            }),
            final(self).spatial_bin == old(self).spatial_bin,
            final(self).particles_in_frame_count == old(self).particles_in_frame_count,
            final(self).cells_to_read_from_gpu == old(self).cells_to_read_from_gpu,
            old(self).binned() ==> final(self).binned(),
    {
        let cell_coord = self.spatial_bin.get_cell_coord(particle.position);
        let key = cell_key(cell_coord);
        let mut entry = match self.hashmap.remove(&key) {
            Some(entry) => entry,
            None => ParticleData::default(),
        };
        entry.positions.push(particle.position);
        entry.velocities.push(particle.velocity);
        self.hashmap.insert(key, entry);
        proof {
            assert forall|other: SpatialBinCoord| other != cell_coord implies #[trigger]
                final(self).unchanged_in(
                old(self),
                other,
            ) by {
                if spec_cell_key(other) == key {
                    lemma_cell_key_injective(other, cell_coord);
                }
            }
            if old(self).binned() {
                assert forall|cell: SpatialBinCoord, i: int|
                    0 <= i < final(self).positions_in(cell).len() implies spec_cell_coord(
                    final(self).spatial_bin.cell_size,
                    #[trigger] final(self).positions_in(cell)[i],
                ) == cell by {
                    if cell == cell_coord {
                        if i < old(self).positions_in(cell).len() {
                            assert(final(self).positions_in(cell)[i] == old(self).positions_in(
                                cell,
                            )[i]);
                        }
                    } else {
                        assert(final(self).unchanged_in(old(self), cell));
                        assert(final(self).positions_in(cell) == old(self).positions_in(cell));
                        assert(final(self).positions_in(cell)[i] == old(self).positions_in(
                            cell,
                        )[i]);
                    }
                }
            }
        }
    }

    /// Puts `particles` into the store as the whole content of `cell`, in
    /// place of what the store held for that cell.
    pub fn add_particles_to_cell(&mut self, cell: SpatialBinCoord, particles: ParticleData)
        ensures
            final(self).has_cell(cell),
            final(self).positions_in(cell) == particles.positions@,
            final(self).velocities_in(cell) == particles.velocities@,
            forall|other: SpatialBinCoord|
                other != cell ==> #[trigger] final(self).unchanged_in(old(self), other),
            final(self).spatial_bin == old(self).spatial_bin,
            final(self).particles_in_frame_count == old(self).particles_in_frame_count,
            final(self).cells_to_read_from_gpu == old(self).cells_to_read_from_gpu,
    {
        let key = cell_key(cell);
        self.hashmap.insert(key, particles);
        proof {
            assert forall|other: SpatialBinCoord| other != cell implies #[trigger]
                final(self).unchanged_in(
                old(self),
                other,
            ) by {
                if spec_cell_key(other) == key {
                    lemma_cell_key_injective(other, cell);
                }
            }
        }
    }

    /// Drops all the particles of `cell` from the store.
    pub fn remove(&mut self, cell: SpatialBinCoord)
        ensures
            !final(self).has_cell(cell),
            forall|other: SpatialBinCoord|
                other != cell ==> #[trigger] final(self).unchanged_in(old(self), other),
            final(self).spatial_bin == old(self).spatial_bin,
            final(self).particles_in_frame_count == old(self).particles_in_frame_count,
            final(self).cells_to_read_from_gpu == old(self).cells_to_read_from_gpu,
            old(self).binned() ==> final(self).binned(),
    {
        let key = cell_key(cell);
        self.hashmap.remove(&key);
        proof {
            assert forall|other: SpatialBinCoord| other != cell implies #[trigger]
                final(self).unchanged_in(
                old(self),
                other,
            ) by {
                if spec_cell_key(other) == key {
                    lemma_cell_key_injective(other, cell);
                }
            }
            if old(self).binned() {
                assert forall|c: SpatialBinCoord, i: int|
                    0 <= i < final(self).positions_in(c).len() implies spec_cell_coord(
                    final(self).spatial_bin.cell_size,
                    #[trigger] final(self).positions_in(c)[i],
                ) == c by {
                    assert(c != cell);
                    assert(final(self).unchanged_in(old(self), c));
                    assert(final(self).positions_in(c) == old(self).positions_in(c));
                    assert(final(self).positions_in(c)[i] == old(self).positions_in(c)[i]);
                }
            }
        }
    }

    /// The packed layout of the particles in the active cells. Records the
    /// number of packed particles as the size of the frame.
    ///
    /// Fails with `CapacityExceeded` exactly when those particles are more
    /// than a `u32` can count; the store is then unchanged.
    pub fn create_packed_data(&mut self) -> (r: Result<PackedData, WrachError>)
        requires
            old(self).spatial_bin.valid(),
        ensures
            final(self).hashmap == old(self).hashmap,
            final(self).spatial_bin == old(self).spatial_bin,
            final(self).cells_to_read_from_gpu == old(self).cells_to_read_from_gpu,
            match r {
                Ok(data) => {
                    &&& is_packing(old(self), old(self).spatial_bin.active_cells(), &data)
                    &&& final(self).particles_in_frame_count == data.positions@.len()
                },
                Err(e) => {
                    &&& e == WrachError::CapacityExceeded
                    &&& final(self).particles_in_frame_count == old(self).particles_in_frame_count
                },
            },
            r.is_ok() <==> packed_positions(
                old(self),
                old(self).spatial_bin.active_cells(),
            ).len() <= u32::MAX,
    {
        let data = match self.spatial_bin.create_packed_data(self) {
            Ok(data) => data,
            Err(e) => {
                return Err(e);
            },
        };
        proof {
            let cells = self.spatial_bin.active_cells();
            assert(cells.take(cells.len() as int) =~= cells);
            assert(data.indices@[cells.len() as int + 1] == data.positions@.len());
        }
        self.particles_in_frame_count = data.indices[data.indices.len() - 1];
        Ok(data)
    }

    /// The maximum number of particles involved in a single frame: room for
    /// one particle per unit square of every active cell, and a tenth on top
    /// for cells that are over-packed early in a simulation.
    pub fn max_particles_per_frame(&self) -> (r: u32)
        requires
            self.spatial_bin.valid(),
            self.capacity() <= u32::MAX,
        ensures
            r == self.capacity(),
    {
        max_particles(&self.spatial_bin) as u32
    }
}

/// The room that a frame of the grid `spatial_bin` reserves for particles.
fn max_particles(spatial_bin: &SpatialBin) -> (r: u64)
    requires
        spatial_bin.valid(),
    ensures
        r == spec_max_particles(spatial_bin.active_cell_count(), spatial_bin.cell_size as int),
{
    // One particle per unit square and a tenth on top: eleven tenths.
    let tenths: u64 = 11;

    let (cells, _grid) = spatial_bin.get_active_cells();
    proof {
        spatial_bin.lemma_valid_bounds();
    }
    let total_cells: u64 = cells.len() as u64;
    let side: u64 = spatial_bin.cell_size as u64;
    assert(side * side <= 0xffff * 0xffff) by (nonlinear_arith)
        requires
            side <= 0xffff,
    ;
    let particles_per_cell: u64 = side * side;
    assert(total_cells * particles_per_cell <= 0x40_0000 * (0xffff * 0xffff)) by (nonlinear_arith)
        requires
            total_cells <= 0x40_0000,
            particles_per_cell <= 0xffff * 0xffff,
    ;
    let total_particles_normally: u64 = total_cells * particles_per_cell;
    (tenths * total_particles_normally + 9) / 10
}

} // verus!
