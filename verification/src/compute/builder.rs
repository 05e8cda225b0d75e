//! The plan of the compute pipeline: which buffers it has and which passes
//! run over them, in which order.

use crate::compute::buffers::{BufferId, BufferKind};
use crate::compute::integration::IntegrationShader;
use crate::compute::pack_particle_data::PackNewParticleDataShader;
use crate::compute::particles_cell_count::ParticlesPerCellCounterShader;
use crate::compute::prefix_sum::{
    PrefixSumShaderBoxSumsAux, PrefixSumShaderBoxSumsMain, PrefixSumShaderDownSweepAux,
    PrefixSumShaderDownSweepMain,
};
use crate::config_shader::ShaderWorldSettings;
use crate::math::Vec2;
use crate::scalar::Scalar;
use crate::shared::{
    MAX_CELLS_FOR_PREFIX_SUM_PIPELINE, PREFIX_SUM_GUARD_ITEM, PREFIX_SUM_OFFSET_HACK,
};
use crate::compute::particles_cell_count::spec_counters_clear;
use crate::compute::worker::{AppComputeWorker, MAX_CAPACITY};
use crate::error::WrachError;
use crate::state::WrachState;
use vstd::prelude::*;

verus! {

/// A compute shader of the pipeline.
#[derive(Clone, Copy, Debug, PartialEq, Eq, Structural, Hash)]
pub enum ShaderId {
    /// Counts the particles of each cell.
    ParticlesPerCellCounter,
    /// First stage of the prefix sum, over the main grid.
    PrefixSumDownSweepMain,
    /// Second stage of the prefix sum, over the main grid.
    PrefixSumBoxSumsMain,
    /// First stage of the prefix sum, over the auxiliary grid.
    PrefixSumDownSweepAux,
    /// Second stage of the prefix sum, over the auxiliary grid.
    PrefixSumBoxSumsAux,
    /// Packs the particles cell by cell.
    PackNewParticleData,
    /// The physics of each cell.
    Integration,
}

impl ShaderId {
    /// The entry point of the shader.
    pub open spec fn spec_entry_point(self) -> Seq<char> {
        match self {
            ShaderId::ParticlesPerCellCounter => "main"@,
            ShaderId::PrefixSumDownSweepMain => "reduce_downsweep_main"@,
            ShaderId::PrefixSumBoxSumsMain => "add_block_sums_main"@,
            ShaderId::PrefixSumDownSweepAux => "reduce_downsweep_aux"@,
            ShaderId::PrefixSumBoxSumsAux => "add_block_sums_aux"@,
            ShaderId::PackNewParticleData => "main"@,
            ShaderId::Integration => "main"@,
        }
    }

    /// The entry point of the shader.
    pub fn entry_point(self) -> (r: &'static str)
        ensures
            r@ == self.spec_entry_point(),
    {
        match self {
            ShaderId::ParticlesPerCellCounter => ParticlesPerCellCounterShader::entry_point(),
            ShaderId::PrefixSumDownSweepMain => PrefixSumShaderDownSweepMain::entry_point(),
            ShaderId::PrefixSumBoxSumsMain => PrefixSumShaderBoxSumsMain::entry_point(),
            ShaderId::PrefixSumDownSweepAux => PrefixSumShaderDownSweepAux::entry_point(),
            ShaderId::PrefixSumBoxSumsAux => PrefixSumShaderBoxSumsAux::entry_point(),
            ShaderId::PackNewParticleData => PackNewParticleDataShader::entry_point(),
            ShaderId::Integration => IntegrationShader::entry_point(),
        }
    }

    /// Where the shader is found.
    pub fn shader(self) -> (r: &'static str)
        ensures
            r@ == (match self {
                ShaderId::ParticlesPerCellCounter =>
                    "embedded://wrach_bevy/plugin/../../../../assets/shaders/particles_per_cell.wgsl"@,
                ShaderId::PackNewParticleData =>
                    "embedded://wrach_bevy/plugin/../../../../assets/shaders/pack_new_particle_data.wgsl"@,
                ShaderId::Integration =>
                    "embedded://wrach_bevy/plugin/../../../../assets/shaders/wrach_physics.spv"@,
                _ => "embedded://wrach_bevy/plugin/../../../../assets/shaders/prefix_sum.wgsl"@,
            }),
    {
        match self {
            ShaderId::ParticlesPerCellCounter => ParticlesPerCellCounterShader::shader(),
            ShaderId::PrefixSumDownSweepMain => PrefixSumShaderDownSweepMain::shader(),
            ShaderId::PrefixSumBoxSumsMain => PrefixSumShaderBoxSumsMain::shader(),
            ShaderId::PrefixSumDownSweepAux => PrefixSumShaderDownSweepAux::shader(),
            ShaderId::PrefixSumBoxSumsAux => PrefixSumShaderBoxSumsAux::shader(),
            ShaderId::PackNewParticleData => PackNewParticleDataShader::shader(),
            ShaderId::Integration => IntegrationShader::shader(),
        }
    }
}

/// One pass of the pipeline.
#[derive(Debug)]
pub struct Pass {
    /// The shader that the pass runs.
    pub shader: ShaderId,
    /// The number of workgroups along each axis.
    pub workgroups: [u32; 3],
    /// The buffers that the pass is bound to, in binding order.
    pub buffers: Vec<BufferId>,
}

/// A pass, as a mathematical value.
pub struct PassView {
    /// The shader that the pass runs.
    pub shader: ShaderId,
    /// The number of workgroups along each axis.
    pub workgroups: Seq<u32>,
    /// The buffers that the pass is bound to, in binding order.
    pub buffers: Seq<BufferId>,
}

impl View for Pass {
    type V = PassView;

    open spec fn view(&self) -> PassView {
        PassView { shader: self.shader, workgroups: self.workgroups@, buffers: self.buffers@ }
    }
}

/// A buffer that the pipeline is to have.
#[derive(Clone, Copy, Debug, PartialEq, Eq, Structural)]
pub struct BufferPlan {
    /// Which buffer.
    pub id: BufferId,
    /// How it is stored.
    pub kind: BufferKind,
    /// The number of items in it.
    pub length: usize,
    /// Whether a renderer may use it as vertex data.
    pub vertex: bool,
}

/// The pipeline under construction.
#[derive(Debug)]
pub struct AppComputeWorkerBuilder {
    /// The settings that the uniform block starts with.
    pub settings: ShaderWorldSettings,
    /// The buffers, in the order in which they were added.
    pub buffers: Vec<BufferPlan>,
    /// The passes, in the order in which they run.
    pub passes: Vec<Pass>,
    /// What the next buffer may serve as besides: vertex data, or nothing.
    pub extra_vertex_usage: bool,
}

/// The smallest number of groups of `size` that hold `count` items.
pub open spec fn spec_div_ceil(count: int, size: int) -> int {
    (count + size - 1) / size
}

/// The smallest number of groups of `size` that hold `count` items.
pub fn div_ceil(count: u32, size: u32) -> (r: u32)
    requires
        size > 0,
    ensures
        r == spec_div_ceil(count as int, size as int),
{
    let r = (count as u64 + size as u64 - 1) / (size as u64);
    proof {
        crate::scalar::lemma_floor_div_bounds(count + size - 1, size as int);
        vstd::arithmetic::div_mod::lemma_fundamental_div_mod(count + size - 1, size as int);
        vstd::arithmetic::div_mod::lemma_mod_bound(count + size - 1, size as int);
        let q = (count + size - 1) / (size as int);
        assert(q <= count) by (nonlinear_arith)
            requires
                count + size - 1 == size * q + (count + size - 1) % (size as int),
                0 <= (count + size - 1) % (size as int),
                size >= 1,
                count >= 0,
                q >= 0,
        ;
    }
    r as u32
}

impl AppComputeWorkerBuilder {
    /// The passes, as mathematical values.
    pub open spec fn spec_passes(&self) -> Seq<PassView> {
        self.passes@.map_values(|pass: Pass| pass@)
    }

    /// A pipeline without buffers and passes.
    pub fn new() -> (r: Self)
        ensures
            r.buffers@.len() == 0,
            r.passes@.len() == 0,
            r.spec_passes().len() == 0,
            !r.extra_vertex_usage,
            r.settings == spec_default_settings(),
    {
        AppComputeWorkerBuilder {
            settings: ShaderWorldSettings::default(),
            buffers: Vec::new(),
            passes: Vec::new(),
            extra_vertex_usage: false,
        }
    }

    /// Says whether the buffers added from now on may serve as vertex data.
    pub fn set_extra_buffer_usages(&mut self, vertex: bool)
        ensures
            final(self).extra_vertex_usage == vertex,
            final(self).settings == old(self).settings,
            final(self).buffers == old(self).buffers,
            final(self).passes == old(self).passes,
    {
        self.extra_vertex_usage = vertex;
    }

    /// Adds the uniform block, holding `settings`.
    pub fn add_uniform(&mut self, id: BufferId, settings: &ShaderWorldSettings)
        ensures
            final(self).settings == *settings,
            final(self).buffers@ == old(self).buffers@.push(
                BufferPlan {
                    id,
                    kind: BufferKind::Uniform,
                    length: 1,
                    vertex: old(self).extra_vertex_usage,
                },
            ),
            final(self).passes == old(self).passes,
            final(self).extra_vertex_usage == old(self).extra_vertex_usage,
    {
        self.settings = *settings;
        self.buffers.push(
            BufferPlan { id, kind: BufferKind::Uniform, length: 1, vertex: self.extra_vertex_usage
                },
        );
    }

    /// Adds a buffer of `length` items that the host can read back.
    pub fn add_staging(&mut self, id: BufferId, length: usize)
        ensures
            final(self).buffers@ == old(self).buffers@.push(
                BufferPlan {
                    id,
                    kind: BufferKind::Staging,
                    length,
                    vertex: old(self).extra_vertex_usage,
                },
            ),
            final(self).settings == old(self).settings,
            final(self).passes == old(self).passes,
            final(self).extra_vertex_usage == old(self).extra_vertex_usage,
    {
        self.buffers.push(
            BufferPlan { id, kind: BufferKind::Staging, length, vertex: self.extra_vertex_usage },
        );
    }

    /// Adds a buffer of `length` items that only the device sees.
    pub fn add_storage(&mut self, id: BufferId, length: usize)
        ensures
            final(self).buffers@ == old(self).buffers@.push(
                BufferPlan {
                    id,
                    kind: BufferKind::Storage,
                    length,
                    vertex: old(self).extra_vertex_usage,
                },
            ),
            final(self).settings == old(self).settings,
            final(self).passes == old(self).passes,
            final(self).extra_vertex_usage == old(self).extra_vertex_usage,
    {
        self.buffers.push(
            BufferPlan { id, kind: BufferKind::Storage, length, vertex: self.extra_vertex_usage },
        );
    }

    /// Adds a pass that runs `shader` in `workgroups` workgroups over the
    /// buffers `buffers`.
    pub fn add_pass(&mut self, shader: ShaderId, workgroups: [u32; 3], buffers: &[BufferId])
        ensures
            final(self).spec_passes() == old(self).spec_passes().push(
                PassView { shader, workgroups: workgroups@, buffers: buffers@ },
            ),
            final(self).settings == old(self).settings,
            final(self).buffers == old(self).buffers,
            final(self).extra_vertex_usage == old(self).extra_vertex_usage,
    {
        let mut bound: Vec<BufferId> = Vec::new();
        let mut i: usize = 0;
        while i < buffers.len()
            invariant
                0 <= i <= buffers@.len(),
                bound@ == buffers@.take(i as int),
            decreases buffers@.len() - i,
        {
            bound.push(buffers[i]);
            proof {
                assert(buffers@.take(i as int + 1) =~= buffers@.take(i as int).push(
                    buffers@[i as int],
                ));
            }
            i += 1;
        }
        proof {
            assert(buffers@.take(buffers@.len() as int) =~= buffers@);
        }
        let pass = Pass { shader, workgroups, buffers: bound };
        self.passes.push(pass);
        proof {
            assert(self.spec_passes() =~= old(self).spec_passes().push(
                PassView { shader, workgroups: workgroups@, buffers: buffers@ },
            ));
        }
    }
}

/// The settings that a pipeline has before any are given.
pub open spec fn spec_default_settings() -> ShaderWorldSettings {
    ShaderWorldSettings {
        view_dimensions: Vec2 { x: Scalar { raw: 0 }, y: Scalar { raw: 0 } },
        view_anchor: Vec2 { x: Scalar { raw: 0 }, y: Scalar { raw: 0 } },
        grid_dimensions: crate::math::UVec2 { x: 0, y: 0 },
        cell_size: 0,
        particles_in_frame_count: 0,
    }
}

/// How many items the prefix sums of the two grids have.
#[derive(Clone, Copy, Debug, PartialEq, Eq, Structural)]
pub struct CellCounts {
    /// Items of the main prefix sum.
    pub main_u32: u32,
    /// Items of the main prefix sum.
    pub main_usize: usize,
    /// Items of the auxiliary prefix sum.
    pub aux_u32: u32,
    /// Items of the auxiliary prefix sum.
    pub aux_usize: usize,
}

/// The main compute pipeline for physics simulations.
pub struct PhysicsComputeWorker;

impl PhysicsComputeWorker {
    /// The number of items in the prefix sums of the two grids: one for each
    /// cell, one for the leading zero, and one for the guard at the end. Both
    /// are below the limit of the prefix sum.
    pub fn get_cell_meta_data(state: &WrachState) -> (r: CellCounts)
        requires
            state.particle_store.spatial_bin.wf(),
        ensures
            r.main_u32 == state.particle_store.spatial_bin.active_cell_count() + 2,
            r.aux_u32 == state.particle_store.spatial_bin.aux_cell_count() + 2,
            r.main_usize == r.main_u32,
            r.aux_usize == r.aux_u32,
            r.main_u32 <= r.aux_u32 < MAX_CELLS_FOR_PREFIX_SUM_PIPELINE,
    {
        proof {
            state.particle_store.spatial_bin.lemma_valid_bounds();
        }
        let (cells, _grid) = state.particle_store.spatial_bin.get_active_cells();
        let total_main_usize = cells.len() + PREFIX_SUM_GUARD_ITEM as usize
            + PREFIX_SUM_OFFSET_HACK as usize;
        let total_main_u32: u32 = total_main_usize as u32;

        let mut total_aux_u32 = state.particle_store.spatial_bin.calculate_total_aux_cells();
        total_aux_u32 += PREFIX_SUM_GUARD_ITEM + PREFIX_SUM_OFFSET_HACK;
        let total_aux_usize = total_aux_u32 as usize;

        CellCounts {
            main_u32: total_main_u32,
            main_usize: total_main_usize,
            aux_u32: total_aux_u32,
            aux_usize: total_aux_usize,
        }
    }
}

/// The passes of a tick for a frame with room for `max_particles` particles
/// and prefix sums of `main` and `aux` items: the count of the particles of
/// each cell, the prefix sum of the main grid, the prefix sum of the auxiliary
/// grid, the packing of the particles, and, unless it is left out, the
/// physics.
pub open spec fn spec_tick_passes(
    max_particles: u32,
    main: u32,
    aux: u32,
    exclude_integration_pass: bool,
) -> Seq<PassView> {
    let counted: Seq<PassView> = seq![
        PassView {
            shader: ShaderId::ParticlesPerCellCounter,
            workgroups: seq![
                spec_div_ceil(
                    max_particles as int,
                    crate::shared::PARTICLE_WORKGROUP_LOCAL_SIZE as int,
                ) as u32,
                1u32,
                1u32,
            ],
            buffers: crate::compute::particles_cell_count::spec_count_buffers(),
        },
    ];
    let summed = crate::compute::prefix_sum::spec_prefix_sum_passes(
        crate::compute::prefix_sum::spec_prefix_sum_passes(
            counted,
            ShaderId::PrefixSumDownSweepMain,
            ShaderId::PrefixSumBoxSumsMain,
            BufferId::IndicesMain,
            main,
        ),
        ShaderId::PrefixSumDownSweepAux,
        ShaderId::PrefixSumBoxSumsAux,
        BufferId::IndicesAux,
        aux,
    );
    let packed = summed.push(
        PassView {
            shader: ShaderId::PackNewParticleData,
            workgroups: seq![
                spec_div_ceil(
                    max_particles as int,
                    crate::shared::PARTICLE_WORKGROUP_LOCAL_SIZE as int,
                ) as u32,
                1u32,
                1u32,
            ],
            buffers: crate::compute::pack_particle_data::spec_pack_buffers(),
        },
    );
    if exclude_integration_pass {
        packed
    } else {
        packed.push(
            PassView {
                shader: ShaderId::Integration,
                workgroups: seq![
                    spec_div_ceil(
                        main as int,
                        crate::compute::integration::INTEGRATION_PARTITION as int,
                    ) as u32,
                    1u32,
                    1u32,
                ],
                buffers: crate::compute::integration::spec_integration_buffers(),
            },
        )
    }
}

/// The buffers of the pipeline for a frame with room for `max_particles`
/// particles and prefix sums of `main` and `aux` items. The settings and the
/// output positions may serve a renderer as vertex data.
pub open spec fn spec_tick_buffers(max_particles: usize, main: usize, aux: usize) ->
    Seq<BufferPlan> {
    seq![
        BufferPlan { id: BufferId::WorldSettings, kind: BufferKind::Uniform, length: 1, vertex:
            true },
        BufferPlan { id: BufferId::IndicesAux, kind: BufferKind::Staging, length: aux, vertex:
            false },
        BufferPlan {
            id: BufferId::IndicesBlockSums,
            kind: BufferKind::Storage,
            length: aux,
            vertex: false,
        },
        BufferPlan {
            id: BufferId::PositionsIn,
            kind: BufferKind::Storage,
            length: max_particles,
            vertex: false,
        },
        BufferPlan {
            id: BufferId::VelocitiesIn,
            kind: BufferKind::Storage,
            length: max_particles,
            vertex: false,
        },
        BufferPlan {
            id: BufferId::PositionsAux,
            kind: BufferKind::Storage,
            length: (4 * max_particles) as usize,
            vertex: false,
        },
        BufferPlan {
            id: BufferId::VelocitiesAux,
            kind: BufferKind::Storage,
            length: (4 * max_particles) as usize,
            vertex: false,
        },
        BufferPlan { id: BufferId::IndicesMain, kind: BufferKind::Staging, length: main, vertex:
            false },
        BufferPlan {
            id: BufferId::PositionsOut,
            kind: BufferKind::Staging,
            length: max_particles,
            vertex: true,
        },
        BufferPlan {
            id: BufferId::VelocitiesOut,
            kind: BufferKind::Staging,
            length: max_particles,
            vertex: false,
        },
    ]
}

impl PhysicsComputeWorker {
    /// Builds the compute worker of a simulation: all its buffers, at zero,
    /// and the passes of a tick. The settings of the simulation are brought
    /// up to date with its grid.
    ///
    /// Fails with `CapacityExceeded`, and leaves the state alone, when the
    /// room that a frame reserves is more than [`MAX_CAPACITY`] particles.
    pub fn build(state: &mut WrachState) -> (r: Result<AppComputeWorker, WrachError>)
        requires
            old(state).wf(),
        ensures
            r.is_ok() <==> old(state).particle_store.capacity() <= MAX_CAPACITY,
            match r {
                Ok(worker) => {
                    &&& final(state).wf()
                    &&& *final(state) == (WrachState {
                        shader_settings: crate::state::spec_settings(
                            old(state).config,
                            old(state).particle_store.spatial_bin.grid_dimensions,
                        ),
                        ..*old(state)
                    })
                    &&& worker.wf()
                    &&& worker.settings == final(state).shader_settings
                    &&& worker.exclude_integration_pass ==
                        old(state).config.exclude_integration_pass
                    &&& worker.capacity() == old(state).particle_store.capacity()
                    &&& !worker.is_ready
                    &&& !worker.has_upload
                    &&& !worker.is_lost
                    &&& worker.buffers@ == spec_tick_buffers(
                        worker.capacity() as usize,
                        worker.indices_main@.len() as usize,
                        worker.indices_aux@.len() as usize,
                    )
                    &&& worker.passes@.map_values(|pass: Pass| pass@) == spec_tick_passes(
                        worker.capacity() as u32,
                        worker.indices_main@.len() as u32,
                        worker.indices_aux@.len() as u32,
                        worker.exclude_integration_pass,
                    )
                    &&& spec_counters_clear(
                        &worker.settings,
                        worker.indices_main@,
                        worker.indices_aux@,
                    )
                    &&& forall|i: int|
                        0 <= i < worker.capacity() ==> #[trigger] worker.positions_in@[i]
                            == crate::physics::neighbours::spec_zero()
                    &&& forall|i: int|
                        0 <= i < worker.capacity() ==> #[trigger] worker.velocities_in@[i]
                            == crate::physics::neighbours::spec_zero()
                    &&& forall|i: int|
                        0 <= i < worker.capacity() ==> #[trigger] worker.positions_out@[i]
                            == crate::physics::neighbours::spec_zero()
                    &&& forall|i: int|
                        0 <= i < worker.capacity() ==> #[trigger] worker.velocities_out@[i]
                            == crate::physics::neighbours::spec_zero()
                },
                Err(e) => e == WrachError::CapacityExceeded && *final(state) == *old(state),
            },
    {
        let cell_counts = Self::get_cell_meta_data(state);
        let max_particles = state.particle_store.max_particles_per_frame();
        if max_particles > MAX_CAPACITY {
            return Err(WrachError::CapacityExceeded);
        }
        let max_particles_usize: usize = max_particles as usize;

        let shader_settings = ShaderWorldSettings {
            view_dimensions: Vec2::new(
                Scalar::from_raw(state.config.dimensions.0 as i64 * crate::scalar::ONE_RAW),
                Scalar::from_raw(state.config.dimensions.1 as i64 * crate::scalar::ONE_RAW),
            ),
            view_anchor: Vec2::new(Scalar::zero(), Scalar::zero()),
            grid_dimensions: state.particle_store.spatial_bin.grid_dimensions,
            cell_size: state.config.cell_size as u32,
            particles_in_frame_count: 0,
        };
        state.shader_settings = shader_settings;

        let config = state.config;

        let mut builder = AppComputeWorkerBuilder::new();
        builder.set_extra_buffer_usages(true);
        builder.add_uniform(BufferId::WorldSettings, &shader_settings);
        builder.set_extra_buffer_usages(false);
        // Only the device sees these.
        builder.add_staging(BufferId::IndicesAux, cell_counts.aux_usize);
        builder.add_storage(BufferId::IndicesBlockSums, cell_counts.aux_usize);
        builder.add_storage(BufferId::PositionsIn, max_particles_usize);
        builder.add_storage(BufferId::VelocitiesIn, max_particles_usize);
        builder.add_storage(BufferId::PositionsAux, 4 * max_particles_usize);
        builder.add_storage(BufferId::VelocitiesAux, 4 * max_particles_usize);
        // These can be read by the host.
        builder.add_staging(BufferId::IndicesMain, cell_counts.main_usize);
        builder.set_extra_buffer_usages(true);
        builder.add_staging(BufferId::PositionsOut, max_particles_usize);
        builder.set_extra_buffer_usages(false);
        builder.add_staging(BufferId::VelocitiesOut, max_particles_usize);

        builder = Self::particles_per_cell_count(builder, max_particles);
        builder = Self::prefix_sum(
            builder,
            ShaderId::PrefixSumDownSweepMain,
            ShaderId::PrefixSumBoxSumsMain,
            BufferId::IndicesMain,
            cell_counts.main_u32,
        );
        builder = Self::prefix_sum(
            builder,
            ShaderId::PrefixSumDownSweepAux,
            ShaderId::PrefixSumBoxSumsAux,
            BufferId::IndicesAux,
            cell_counts.aux_u32,
        );
        builder = Self::particle_data(builder, max_particles);

        if !config.exclude_integration_pass {
            builder = Self::integration(builder, cell_counts.main_u32);
        }
        proof {
            assert(builder.spec_passes() =~= spec_tick_passes(
                max_particles,
                cell_counts.main_u32,
                cell_counts.aux_u32,
                config.exclude_integration_pass,
            ));
            assert(builder.buffers@ =~= spec_tick_buffers(
                max_particles_usize,
                cell_counts.main_usize,
                cell_counts.aux_usize,
            ));
            state.particle_store.spatial_bin.lemma_valid_bounds();
        }

        Ok(
            builder.build(
                config.exclude_integration_pass,
                cell_counts.main_usize,
                cell_counts.aux_usize,
                max_particles_usize,
            ),
        )
    }
}

impl AppComputeWorkerBuilder {
    /// The worker of the pipeline, with all counters at zero and all
    /// particles at the origin, at rest.
    pub fn build(
        self,
        exclude_integration_pass: bool,
        main: usize,
        aux: usize,
        max_particles: usize,
    ) -> (r: AppComputeWorker)
        requires
            self.settings.spec_countable(),
            self.settings.particles_in_frame_count == 0,
            main == self.settings.main_cells() + 2,
            aux == self.settings.aux_cells() + 2,
            aux + 16 <= u32::MAX,
            max_particles <= MAX_CAPACITY,
        ensures
            r.wf(),
            r.buffers == self.buffers,
            r.passes == self.passes,
            !r.is_lost,
            r.settings == self.settings,
            r.exclude_integration_pass == exclude_integration_pass,
            r.capacity() == max_particles,
            r.indices_main@.len() == main,
            r.indices_aux@.len() == aux,
            !r.is_ready,
            !r.has_upload,
            spec_counters_clear(&r.settings, r.indices_main@, r.indices_aux@),
            forall|i: int|
                0 <= i < max_particles ==> #[trigger] r.positions_in@[i]
                    == crate::physics::neighbours::spec_zero(),
            forall|i: int|
                0 <= i < max_particles ==> #[trigger] r.velocities_in@[i]
                    == crate::physics::neighbours::spec_zero(),
            forall|i: int|
                0 <= i < max_particles ==> #[trigger] r.positions_out@[i]
                    == crate::physics::neighbours::spec_zero(),
            forall|i: int|
                0 <= i < max_particles ==> #[trigger] r.velocities_out@[i]
                    == crate::physics::neighbours::spec_zero(),
    {
        AppComputeWorker {
            buffers: self.buffers,
            passes: self.passes,
            settings: self.settings,
            exclude_integration_pass,
            indices_main: zeroed_indices(main),
            indices_aux: zeroed_indices(aux),
            indices_block_sums: zeroed_indices(aux),
            positions_in: particles_at_rest(max_particles),
            positions_out: particles_at_rest(max_particles),
            velocities_in: particles_at_rest(max_particles),
            velocities_out: particles_at_rest(max_particles),
            positions_aux: particles_at_rest(4 * max_particles),
            velocities_aux: particles_at_rest(4 * max_particles),
            frame_indices: zeroed_indices(main),
            frame_indices_aux: zeroed_indices(aux),
            is_ready: false,
            has_upload: false,
            is_lost: false,
        }
    }
}

/// A buffer of `length` zeros.
fn zeroed_indices(length: usize) -> (r: Vec<u32>)
    ensures
        r@.len() == length,
        forall|i: int| 0 <= i < length ==> #[trigger] r@[i] == 0,
{
    let mut r: Vec<u32> = Vec::new();
    let mut i: usize = 0;
    while i < length
        invariant
            0 <= i <= length,
            r@.len() == i,
            forall|j: int| 0 <= j < i ==> #[trigger] r@[j] == 0,
        decreases length - i,
    {
        r.push(0);
        i += 1;
    }
    r
}

/// A buffer of `length` zero vectors.
fn particles_at_rest(length: usize) -> (r: Vec<Vec2>)
    ensures
        r@.len() == length,
        forall|i: int| 0 <= i < length ==> #[trigger] r@[i] ==
            crate::physics::neighbours::spec_zero(),
{
    let mut r: Vec<Vec2> = Vec::new();
    let mut i: usize = 0;
    while i < length
        invariant
            0 <= i <= length,
            r@.len() == i,
            forall|j: int|
                0 <= j < i ==> #[trigger] r@[j] == crate::physics::neighbours::spec_zero(),
        decreases length - i,
    {
        r.push(Vec2::default());
        i += 1;
    }
    r
}

} // verus!
