//! The state of a simulation as its host sees it.

use crate::config_app::WrachConfig;
use crate::config_shader::ShaderWorldSettings;
use crate::error::WrachError;
use crate::math::{Vec2, Vec4};
use crate::packing::{
    is_packing, lemma_packing_ignores_counters, packed_positions,
};
use crate::particle_store::{spec_max_particles, ParticleStore};
use crate::scalar::{Scalar, ONE_RAW};
use crate::spatial_bin::{
    lemma_active_once, spec_cell_coord, spec_occurrences, PackedData, SpatialBin, SpatialBinCoord,
};
use vstd::prelude::*;

verus! {

/// Position of a particle, in the units of the viewport dimensions.
pub type Position = Vec2;

/// Velocity of a particle, in units per tick.
pub type Velocity = Vec2;

/// A particle as the host hands it over.
#[derive(Clone, Copy, Debug, PartialEq, Eq, Structural)]
pub struct Particle {
    /// Where the particle is.
    pub position: Position,
    /// How far it moves in one tick.
    pub velocity: Velocity,
}

/// The kinds of data that are uploaded to the compute pipeline.
#[derive(Debug)]
pub enum GPUUpload {
    /// The particles of a frame.
    PackedData(PackedData),
    /// The settings: viewport, grid, particle count.
    Settings(ShaderWorldSettings),
}

/// All the state of a simulation.
pub struct WrachState {
    /// What the host configured.
    pub config: WrachConfig,
    /// The settings for the compute passes.
    pub shader_settings: ShaderWorldSettings,
    /// The store of all particles.
    pub particle_store: ParticleStore,
    /// The particles as the last tick left them.
    pub packed_data: PackedData,
    /// What is waiting to be uploaded at the start of the next tick.
    pub gpu_uploads: Vec<GPUUpload>,
}

/// The viewport of a configuration: from the origin to the dimensions.
pub open spec fn spec_viewport(config: WrachConfig) -> Vec4 {
    Vec4 {
        x: Scalar { raw: 0 },
        y: Scalar { raw: 0 },
        z: Scalar { raw: (config.dimensions.0 * ONE_RAW) as i64 },
        w: Scalar { raw: (config.dimensions.1 * ONE_RAW) as i64 },
    }
}

/// The grid of a configuration, before it is measured.
pub open spec fn spec_grid(config: WrachConfig) -> SpatialBin {
    SpatialBin {
        cell_size: config.cell_size,
        viewport: spec_viewport(config),
        grid_dimensions: crate::math::UVec2 { x: 0, y: 0 },
    }
}

/// The settings for the compute passes under a configuration whose grid has
/// the dimensions `grid_dimensions`, before any particle is counted.
pub open spec fn spec_settings(
    config: WrachConfig,
    grid_dimensions: crate::math::UVec2,
) -> ShaderWorldSettings {
    ShaderWorldSettings {
        view_dimensions: Vec2 {
            x: Scalar { raw: (config.dimensions.0 * ONE_RAW) as i64 },
            y: Scalar { raw: (config.dimensions.1 * ONE_RAW) as i64 },
        },
        view_anchor: Vec2 { x: Scalar { raw: 0 }, y: Scalar { raw: 0 } },
        grid_dimensions,
        cell_size: config.cell_size as u32,
        particles_in_frame_count: 0,
    }
}

/// The positions of those of `particles` that lie in `cell`, in order.
pub open spec fn spec_positions_for(particles: Seq<Particle>, cell_size: u16, cell:
    SpatialBinCoord) -> Seq<
    Vec2,
>
    decreases particles.len(),
{
    if particles.len() == 0 {
        Seq::empty()
    } else {
        let rest = spec_positions_for(particles.drop_last(), cell_size, cell);
        if spec_cell_coord(cell_size, particles.last().position) == cell {
            rest.push(particles.last().position)
        } else {
            rest
        }
    }
}

/// The velocities of those of `particles` that lie in `cell`, in order.
pub open spec fn spec_velocities_for(
    particles: Seq<Particle>,
    cell_size: u16,
    cell: SpatialBinCoord,
) -> Seq<Vec2>
    decreases particles.len(),
{
    if particles.len() == 0 {
        Seq::empty()
    } else {
        let rest = spec_velocities_for(particles.drop_last(), cell_size, cell);
        if spec_cell_coord(cell_size, particles.last().position) == cell {
            rest.push(particles.last().velocity)
        } else {
            rest
        }
    }
}

/// `after` holds what `before` held and, at the end of each cell, those of
/// `particles` that lie in the cell.
pub open spec fn spec_added(
    before: &ParticleStore,
    after: &ParticleStore,
    particles: Seq<Particle>,
) -> bool {
    &&& after.spatial_bin == before.spatial_bin
    &&& after.cells_to_read_from_gpu == before.cells_to_read_from_gpu
    &&& forall|cell: SpatialBinCoord| #[trigger]
        after.positions_in(cell) == before.positions_in(cell) + spec_positions_for(
            particles,
            before.spatial_bin.cell_size,
            cell,
        )
    &&& forall|cell: SpatialBinCoord| #[trigger]
        after.velocities_in(cell) == before.velocities_in(cell) + spec_velocities_for(
            particles,
            before.spatial_bin.cell_size,
            cell,
        )
}

/// How many of `particles` lie in one of `cells`, a particle counting once
/// for each time that its cell is among them.
pub open spec fn spec_arrivals(particles: Seq<Particle>, cell_size: u16, cells:
    Seq<SpatialBinCoord>) -> int
    decreases cells.len(),
{
    if cells.len() == 0 {
        0
    } else {
        spec_arrivals(particles, cell_size, cells.drop_last()) + spec_positions_for(
            particles,
            cell_size,
            cells.last(),
        ).len()
    }
}

/// One more particle arrives as often as its cell is among the cells.
pub proof fn lemma_arrivals_step(particles: Seq<Particle>, cell_size: u16, cells:
    Seq<SpatialBinCoord>)
    requires
        particles.len() > 0,
    ensures
        spec_arrivals(particles, cell_size, cells) == spec_arrivals(
            particles.drop_last(),
            cell_size,
            cells,
        ) + spec_occurrences(cells, spec_cell_coord(cell_size, particles.last().position)),
    decreases cells.len(),
{
    if cells.len() > 0 {
        lemma_arrivals_step(particles, cell_size, cells.drop_last());
    }
}

/// Arrivals are not negative.
pub proof fn lemma_arrivals_bounds(particles: Seq<Particle>, cell_size: u16, cells:
    Seq<SpatialBinCoord>)
    ensures
        0 <= spec_arrivals(particles, cell_size, cells),
    decreases cells.len(),
{
    if cells.len() > 0 {
        lemma_arrivals_bounds(particles, cell_size, cells.drop_last());
    }
}

/// Without particles nothing arrives.
pub proof fn lemma_no_arrivals(cell_size: u16, cells: Seq<SpatialBinCoord>)
    ensures
        spec_arrivals(Seq::<Particle>::empty(), cell_size, cells) == 0,
    decreases cells.len(),
{
    if cells.len() > 0 {
        lemma_no_arrivals(cell_size, cells.drop_last());
    }
}

/// When particles are added to a store, what it packs for `cells` grows by
/// the arrivals.
pub proof fn lemma_added_count(
    before: &ParticleStore,
    after: &ParticleStore,
    particles: Seq<Particle>,
    cells: Seq<SpatialBinCoord>,
)
    requires
        spec_added(before, after, particles),
    ensures
        packed_positions(after, cells).len() == packed_positions(before, cells).len()
            + spec_arrivals(particles, before.spatial_bin.cell_size, cells),
    decreases cells.len(),
{
    if cells.len() > 0 {
        lemma_added_count(before, after, particles, cells.drop_last());
        assert(after.positions_in(cells.last()) == before.positions_in(cells.last())
            + spec_positions_for(particles, before.spatial_bin.cell_size, cells.last()));
    }
}

/// Two stores with the same particles in the same cells agree on what each
/// cell holds, and on whether every particle is stored under its own cell.
pub proof fn lemma_same_particles(first: &ParticleStore, second: &ParticleStore)
    requires
        first.hashmap == second.hashmap,
        first.spatial_bin == second.spatial_bin,
    ensures
        forall|cell: SpatialBinCoord| #[trigger]
            first.positions_in(cell) == second.positions_in(cell),
        forall|cell: SpatialBinCoord| #[trigger]
            first.velocities_in(cell) == second.velocities_in(cell),
        first.binned() == second.binned(),
{
    assert forall|cell: SpatialBinCoord| #[trigger]
        first.positions_in(cell) == second.positions_in(cell) by {}
    if first.binned() {
        assert forall|cell: SpatialBinCoord, i: int|
            0 <= i < second.positions_in(cell).len() implies spec_cell_coord(
            second.spatial_bin.cell_size,
            #[trigger] second.positions_in(cell)[i],
        ) == cell by {
            assert(first.positions_in(cell)[i] == second.positions_in(cell)[i]);
        }
    }
    if second.binned() {
        assert forall|cell: SpatialBinCoord, i: int|
            0 <= i < first.positions_in(cell).len() implies spec_cell_coord(
            first.spatial_bin.cell_size,
            #[trigger] first.positions_in(cell)[i],
        ) == cell by {
            assert(first.positions_in(cell)[i] == second.positions_in(cell)[i]);
        }
    }
}

impl GPUUpload {
    /// The upload is the packed data `data`.
    pub open spec fn is_data(&self, data: &PackedData) -> bool {
        match self {
            GPUUpload::PackedData(own) => own.indices@ == data.indices@ && own.positions@
                == data.positions@ && own.velocities@ == data.velocities@,
            GPUUpload::Settings(_) => false,
        }
    }

    /// The upload is the settings `settings`.
    pub open spec fn is_settings(&self, settings: ShaderWorldSettings) -> bool {
        match self {
            GPUUpload::PackedData(_) => false,
            GPUUpload::Settings(own) => *own == settings,
        }
    }
}

/// What adding `particles` makes of a state.
///
/// It succeeds if and only if the particles under the viewport, with those
/// of `particles` that lie under it, are no more than the frame has room for.
/// Then each particle stands at the end of its cell, and the queue has grown
/// by a packing of the store and by the settings with the new particle
/// count. Otherwise the result is `CapacityExceeded` and nothing has changed.
pub open spec fn spec_particles_added(
    before: &WrachState,
    after: &WrachState,
    particles: Seq<Particle>,
    r: Result<(), WrachError>,
) -> bool {
    &&& r.is_ok() <==> packed_positions(
        &before.particle_store,
        before.particle_store.spatial_bin.active_cells(),
    ).len() + spec_arrivals(
        particles,
        before.config.cell_size,
        before.particle_store.spatial_bin.active_cells(),
    ) <= before.particle_store.capacity()
    &&& match r {
        Ok(()) => {
            &&& after.config == before.config
            &&& after.packed_data == before.packed_data
            &&& spec_added(&before.particle_store, &after.particle_store, particles)
            &&& before.particle_store.binned() ==> after.particle_store.binned()
            &&& after.gpu_uploads@.len() == before.gpu_uploads@.len() + 2
            &&& after.gpu_uploads@.take(before.gpu_uploads@.len() as int) == before.gpu_uploads@
            &&& exists|data: PackedData|
                is_packing(
                    &after.particle_store,
                    after.particle_store.spatial_bin.active_cells(),
                    &data,
                ) && (#[trigger] after.gpu_uploads@[before.gpu_uploads@.len() as int].is_data(
                    &data,
                ))
            &&& after.gpu_uploads@[before.gpu_uploads@.len() as int + 1].is_settings(
                after.shader_settings,
            )
            &&& after.shader_settings == (ShaderWorldSettings {
                particles_in_frame_count: after.particle_store.particles_in_frame_count,
                ..before.shader_settings
            })
            &&& after.particle_store.particles_in_frame_count == packed_positions(
                &after.particle_store,
                after.particle_store.spatial_bin.active_cells(),
            ).len()
        },
        Err(e) => e == WrachError::CapacityExceeded && *after == *before,
    }
}

impl WrachState {
    /// The store is well formed for the configured cell size and viewport.
    pub open spec fn wf(&self) -> bool {
        &&& self.particle_store.wf()
        &&& self.particle_store.spatial_bin.cell_size == self.config.cell_size
        &&& self.particle_store.spatial_bin.viewport == spec_viewport(self.config)
        &&& self.shader_settings == (ShaderWorldSettings {
            particles_in_frame_count: self.shader_settings.particles_in_frame_count,
            ..spec_settings(self.config, self.particle_store.spatial_bin.grid_dimensions)
        })
    }

    /// The state of a simulation that has not started: no particles, nothing
    /// to upload.
    ///
    /// Fails with `InvalidConfig` when a dimension or the cell size is zero
    /// or the viewport is smaller than a cell; with `ConfigurationTooLarge`
    /// when the grid has too many cells for the prefix sum; and with
    /// `CapacityExceeded` when the room for the particles of a frame cannot
    /// be counted in a `u32`.
    pub fn new(config: WrachConfig) -> (r: Result<Self, WrachError>)
        ensures
            r.is_ok() <==> config.spec_valid() && spec_grid(config).valid() && spec_max_particles(
                spec_grid(config).active_cell_count(),
                config.cell_size as int,
            ) <= u32::MAX,
            match r {
                Ok(state) => {
                    &&& state.wf()
                    &&& state.config == config
                    &&& state.particle_store.capacity() == spec_max_particles(
                        spec_grid(config).active_cell_count(),
                        config.cell_size as int,
                    )
                    &&& state.particle_store.hashmap@ == Map::<
                        u64,
                        crate::particle_store::ParticleData,
                    >::empty()
                    &&& state.particle_store.particles_in_frame_count == 0
                    &&& state.shader_settings == spec_settings(
                        config,
                        state.particle_store.spatial_bin.grid_dimensions,
                    )
                    &&& state.packed_data.indices@.len() == 0
                    &&& state.packed_data.positions@.len() == 0
                    &&& state.packed_data.velocities@.len() == 0
                    &&& state.gpu_uploads@.len() == 0
                },
                Err(e) => if !config.spec_valid() {
                    e == WrachError::InvalidConfig
                } else if !spec_grid(config).valid() {
                    e == WrachError::ConfigurationTooLarge
                } else {
                    e == WrachError::CapacityExceeded && spec_max_particles(
                        spec_grid(config).active_cell_count(),
                        config.cell_size as int,
                    ) > u32::MAX
                },
            },
    {
        match config.validate() {
            Ok(()) => {},
            Err(e) => {
                return Err(e);
            },
        }
        let viewport = Vec4::new(
            Scalar::zero(),
            Scalar::zero(),
            Scalar::from_raw(config.dimensions.0 as i64 * ONE_RAW),
            Scalar::from_raw(config.dimensions.1 as i64 * ONE_RAW),
        );
        let particle_store = match ParticleStore::new(config.cell_size, viewport) {
            Ok(store) => store,
            Err(e) => {
                return Err(e);
            },
        };
        proof {
            particle_store.spatial_bin.lemma_cover_is_determined(&spec_grid(config));
        }
        let shader_settings = ShaderWorldSettings {
            view_dimensions: Vec2::new(
                Scalar::from_raw(config.dimensions.0 as i64 * ONE_RAW),
                Scalar::from_raw(config.dimensions.1 as i64 * ONE_RAW),
            ),
            view_anchor: Vec2::new(Scalar::zero(), Scalar::zero()),
            grid_dimensions: particle_store.spatial_bin.grid_dimensions,
            cell_size: config.cell_size as u32,
            particles_in_frame_count: 0,
        };
        Ok(
            WrachState {
                config,
                shader_settings,
                particle_store,
                packed_data: PackedData::default(),
                gpu_uploads: Vec::new(),
            },
        )
    }

    /// Queues `upload` for the start of the next tick.
    pub fn gpu_upload(&mut self, upload: GPUUpload)
        ensures
            final(self).gpu_uploads@ == old(self).gpu_uploads@.push(upload),
            final(self).config == old(self).config,
            final(self).shader_settings == old(self).shader_settings,
            final(self).particle_store == old(self).particle_store,
            final(self).packed_data == old(self).packed_data,
    {
        self.gpu_uploads.push(upload);
    }

    /// Adds `particles` to the store, each at the end of the cell in which it
    /// lies, and queues for upload the new packed data and the settings with
    /// the new particle count.
    ///
    /// Fails with `CapacityExceeded`, and changes nothing, when the particles
    /// under the viewport would then be more than the frame has room for.
    pub fn add_particles(&mut self, particles: Vec<Particle>) -> (r: Result<(), WrachError>)
        requires
            old(self).wf(),
        ensures
            final(self).wf(),
            spec_particles_added(old(self), final(self), particles@, r),
    {
        let ghost cells = self.particle_store.spatial_bin.active_cells();
        let ghost size = self.config.cell_size;
        let capacity = self.particle_store.max_particles_per_frame();
        let packed = match self.particle_store.spatial_bin.create_packed_data(
            &self.particle_store,
        ) {
            Ok(data) => data.positions.len(),
            Err(e) => {
                proof {
                    lemma_arrivals_bounds(particles@, size, cells);
                }
                return Err(e);
            },
        };
        let mut arrivals: usize = 0;
        let mut n: usize = 0;
        proof {
            assert(particles@.take(0) =~= Seq::<Particle>::empty());
            lemma_no_arrivals(size, cells);
        }
        while n < particles.len()
            invariant
                0 <= n <= particles@.len(),
                *self == *old(self),
                self.wf(),
                cells == self.particle_store.spatial_bin.active_cells(),
                size == self.config.cell_size,
                arrivals == spec_arrivals(particles@.take(n as int), size, cells),
                arrivals <= n,
            decreases particles@.len() - n,
        {
            let cell = self.particle_store.spatial_bin.get_cell_coord(particles[n].position);
            proof {
                assert(particles@.take(n as int + 1).drop_last() =~= particles@.take(n as int));
                assert(particles@.take(n as int + 1).last() == particles@[n as int]);
                lemma_arrivals_step(particles@.take(n as int + 1), size, cells);
                lemma_active_once(&self.particle_store.spatial_bin, cell, cells.len() as int);
                assert(cells.take(cells.len() as int) =~= cells);
                if self.particle_store.spatial_bin.spec_is_active(cell) {
                    self.particle_store.spatial_bin.lemma_index_of_active(cell);
                }
            }
            if self.particle_store.spatial_bin.is_active(cell) {
                arrivals += 1;
            }
            n += 1;
        }
        proof {
            assert(particles@.take(particles@.len() as int) =~= particles@);
        }
        if arrivals > capacity as usize || packed > capacity as usize - arrivals {
            return Err(WrachError::CapacityExceeded);
        }

        let ghost before = self.particle_store;
        let mut i: usize = 0;
        proof {
            assert(particles@.take(0) =~= Seq::<Particle>::empty());
            assert forall|cell: SpatialBinCoord| #[trigger]
                self.particle_store.positions_in(cell) == before.positions_in(cell)
                    + spec_positions_for(particles@.take(0), before.spatial_bin.cell_size, cell) by
                        {
                assert(before.positions_in(cell) + Seq::<Vec2>::empty() =~= before.positions_in(
                    cell,
                ));
            }
            assert forall|cell: SpatialBinCoord| #[trigger]
                self.particle_store.velocities_in(cell) == before.velocities_in(cell)
                    + spec_velocities_for(particles@.take(0), before.spatial_bin.cell_size, cell)
                        by {
                assert(before.velocities_in(cell) + Seq::<Vec2>::empty() =~= before.velocities_in(
                    cell,
                ));
            }
        }
        while i < particles.len()
            invariant
                0 <= i <= particles@.len(),
                self.wf(),
                self.config == old(self).config,
                self.packed_data == old(self).packed_data,
                self.gpu_uploads == old(self).gpu_uploads,
                self.shader_settings == old(self).shader_settings,
                self.particle_store.particles_in_frame_count
                    == before.particles_in_frame_count,
                before == old(self).particle_store,
                before.binned() ==> self.particle_store.binned(),
                spec_added(&before, &self.particle_store, particles@.take(i as int)),
            decreases particles@.len() - i,
        {
            let ghost previous = self.particle_store;
            let particle = particles[i];
            self.particle_store.add_particle(particle);
            proof {
                let size = before.spatial_bin.cell_size;
                let own = spec_cell_coord(size, particle.position);
                let shorter = particles@.take(i as int);
                let longer = particles@.take(i as int + 1);
                assert(longer.drop_last() =~= shorter);
                assert(longer.last() == particle);
                assert forall|cell: SpatialBinCoord| #[trigger]
                    self.particle_store.positions_in(cell) == before.positions_in(cell)
                        + spec_positions_for(longer, size, cell) by {
                    assert(previous.positions_in(cell) == before.positions_in(cell)
                        + spec_positions_for(shorter, size, cell));
                    if cell == own {
                        assert(self.particle_store.positions_in(cell) =~= before.positions_in(cell)
                            + spec_positions_for(longer, size, cell));
                    } else {
                        assert(self.particle_store.unchanged_in(&previous, cell));
                    }
                }
                assert forall|cell: SpatialBinCoord| #[trigger]
                    self.particle_store.velocities_in(cell) == before.velocities_in(cell)
                        + spec_velocities_for(longer, size, cell) by {
                    assert(previous.velocities_in(cell) == before.velocities_in(cell)
                        + spec_velocities_for(shorter, size, cell));
                    if cell == own {
                        assert(self.particle_store.velocities_in(cell) =~= before.velocities_in(
                            cell,
                        ) + spec_velocities_for(longer, size, cell));
                    } else {
                        assert(self.particle_store.unchanged_in(&previous, cell));
                    }
                }
            }
            i += 1;
        }
        proof {
            assert(particles@.take(particles@.len() as int) =~= particles@);
        }

        let ghost filled = self.particle_store;
        proof {
            lemma_added_count(&before, &filled, particles@, cells);
        }
        let data = match self.particle_store.create_packed_data() {
            Ok(data) => data,
            Err(e) => {
                return Err(e);
            },
        };
        proof {
            lemma_packing_ignores_counters(
                &filled,
                &self.particle_store,
                filled.spatial_bin.active_cells(),
                &data,
            );
        }
        let ghost packed = data;
        let upload = GPUUpload::PackedData(data);
        self.gpu_upload(upload);

        self.shader_settings.particles_in_frame_count =
            self.particle_store.particles_in_frame_count;
        self.gpu_upload(GPUUpload::Settings(self.shader_settings));
        proof {
            let uploads = self.gpu_uploads@;
            let n = old(self).gpu_uploads@.len() as int;
            assert(uploads.take(n) =~= old(self).gpu_uploads@);
            assert(uploads[n].is_data(&packed));
            lemma_same_particles(&self.particle_store, &filled);
        }
        Ok(())
    }
}

} // verus!
