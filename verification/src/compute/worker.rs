//! The compute worker: the buffers of the pipeline and the passes of a tick.
//!
//! A tick counts the particles of each cell, turns the counts into running
//! totals, packs the particles cell by cell, and does the physics of every
//! cell. The input buffers keep the packed particles of the frame and the
//! output buffers hold what the physics made of them; the next tick starts
//! from the output, unless new particles were uploaded in between.

use crate::compute::builder::{BufferPlan, Pass};
use crate::compute::integration::{integrate_cells, spec_cell, spec_frame_output};
use crate::compute::pack_particle_data::{
    pack_particles, spec_aux_lists, spec_is_packed, spec_main_lists, spec_totals_of,
};
use crate::compute::particles_cell_count::{
    count_particles, lemma_aux_counter_sums, lemma_counter_sums, lemma_population_bounds,
        lemma_population_totals,
    spec_aux_population, spec_aux_population_before, spec_population, spec_population_before,
};
use crate::compute::prefix_sum::{exclusive_scan, lemma_sum_monotone, spec_sum};
use crate::config_shader::ShaderWorldSettings;
use crate::error::WrachError;
use crate::math::Vec2;
use crate::spatial_bin::PackedData;
use vstd::prelude::*;

verus! {

/// The most particles that a frame can have room for: four copies of each go
/// to the auxiliary grid, and their slots are counted in a `u32`.
pub const MAX_CAPACITY: u32 = 0x3fff_fff0;

/// What an upload can change of a compute worker.
pub struct Inputs {
    /// The positions from which the next tick starts.
    pub positions: Seq<Vec2>,
    /// The velocities from which the next tick starts.
    pub velocities: Seq<Vec2>,
    /// The settings.
    pub settings: ShaderWorldSettings,
    /// Whether particles were uploaded since the last tick.
    pub has_upload: bool,
}

/// The buffers of the pipeline and what runs over them.
pub struct AppComputeWorker {
    /// The buffers of the pipeline, as they were planned.
    pub buffers: Vec<BufferPlan>,
    /// The passes of a tick, in order.
    pub passes: Vec<Pass>,
    /// The settings that every pass is bound to.
    pub settings: ShaderWorldSettings,
    /// Whether a tick leaves the physics pass out.
    pub exclude_integration_pass: bool,
    /// The counters and then the running totals of the main grid.
    pub indices_main: Vec<u32>,
    /// The counters and then the running totals of the auxiliary grid.
    pub indices_aux: Vec<u32>,
    /// Scratch space of the prefix sum.
    pub indices_block_sums: Vec<u32>,
    /// The positions that the passes read: the packed particles of the frame.
    pub positions_in: Vec<Vec2>,
    /// The positions that the physics pass writes and the host reads.
    pub positions_out: Vec<Vec2>,
    /// The velocities that the passes read.
    pub velocities_in: Vec<Vec2>,
    /// The velocities that the physics pass writes and the host reads.
    pub velocities_out: Vec<Vec2>,
    /// The positions of the particles of the auxiliary grid.
    pub positions_aux: Vec<Vec2>,
    /// The velocities of the particles of the auxiliary grid.
    pub velocities_aux: Vec<Vec2>,
    /// The running totals of the main grid for the frame of the last tick,
    /// kept for the host.
    pub frame_indices: Vec<u32>,
    /// The running totals of the auxiliary grid for the frame of the last
    /// tick.
    pub frame_indices_aux: Vec<u32>,
    /// Whether a tick has completed.
    pub is_ready: bool,
    /// Whether particles were uploaded since the last tick.
    pub has_upload: bool,
    /// Whether the device was lost. A lost device stays lost.
    pub is_lost: bool,
}

impl AppComputeWorker {
    /// The number of particles that a frame has room for.
    pub open spec fn capacity(&self) -> int {
        self.positions_in@.len() as int
    }

    /// The buffers have the sizes that the settings and the capacity ask
    /// for.
    pub open spec fn wf(&self) -> bool {
        &&& self.settings.spec_countable()
        &&& self.settings.aux_cells() + 2 + 16 <= u32::MAX
        &&& self.indices_main@.len() == self.settings.main_cells() + 2
        &&& self.indices_aux@.len() == self.settings.aux_cells() + 2
        &&& self.frame_indices@.len() == self.indices_main@.len()
        &&& self.frame_indices_aux@.len() == self.indices_aux@.len()
        &&& self.indices_block_sums@.len() == self.indices_aux@.len()
        &&& self.capacity() <= MAX_CAPACITY
        &&& self.positions_out@.len() == self.capacity()
        &&& self.velocities_in@.len() == self.capacity()
        &&& self.velocities_out@.len() == self.capacity()
        &&& self.positions_aux@.len() == 4 * self.capacity()
        &&& self.velocities_aux@.len() == 4 * self.capacity()
        &&& self.settings.particles_in_frame_count <= self.capacity()
    }

    /// The positions from which the next tick starts: those that the last
    /// tick put out, or the input buffer if particles were uploaded since,
    /// or if no tick has completed yet.
    pub open spec fn spec_input_positions(&self) -> Seq<Vec2> {
        if self.is_ready && !self.has_upload {
            self.positions_out@
        } else {
            self.positions_in@
        }
    }

    /// The velocities from which the next tick starts.
    pub open spec fn spec_input_velocities(&self) -> Seq<Vec2> {
        if self.is_ready && !self.has_upload {
            self.velocities_out@
        } else {
            self.velocities_in@
        }
    }

    /// What an upload can change of the worker.
    pub open spec fn spec_inputs(&self) -> Inputs {
        Inputs {
            positions: self.spec_input_positions(),
            velocities: self.spec_input_velocities(),
            settings: self.settings,
            has_upload: self.has_upload,
        }
    }

    /// Whether a tick has completed, so that there is something to read
    /// back.
    pub fn ready(&self) -> (r: bool)
        ensures
            r == self.is_ready,
    {
        self.is_ready
    }

    /// Notes that the device was lost. From then on nothing is uploaded, no
    /// tick takes place and nothing is read back.
    pub fn lose_device(&mut self)
        ensures
            *final(self) == (AppComputeWorker { is_lost: true, ..*old(self) }),
    {
        self.is_lost = true;
    }

    /// Writes the particles of `data` to the start of the input buffers, for
    /// the next tick to start from. Nothing is written for an empty list.
    ///
    /// Fails with `CapacityExceeded`, and writes nothing, when the positions
    /// or the velocities are more than a frame has room for.
    pub fn write_packed_data(&mut self, data: &PackedData) -> (r: Result<(), WrachError>)
        requires
            old(self).wf(),
        ensures
            final(self).wf(),
            r.is_ok() <==> data.positions@.len() <= old(self).capacity() && data.velocities@.len()
                <= old(self).capacity(),
            r matches Err(e) ==> e == WrachError::CapacityExceeded && *final(self) == *old(self),
            r.is_ok() ==> {
                &&& final(self).has_upload
                &&& final(self).positions_in@ == data.positions@ +
                    old(self).spec_input_positions().subrange(
                    data.positions@.len() as int,
                    old(self).capacity(),
                )
                &&& final(self).velocities_in@ == data.velocities@ +
                    old(self).spec_input_velocities().subrange(
                    data.velocities@.len() as int,
                    old(self).capacity(),
                )
                &&& final(self).buffers == old(self).buffers
                &&& final(self).passes == old(self).passes
                &&& final(self).is_lost == old(self).is_lost
                &&& final(self).settings == old(self).settings
                &&& final(self).exclude_integration_pass == old(self).exclude_integration_pass
                &&& final(self).indices_main == old(self).indices_main
                &&& final(self).indices_aux == old(self).indices_aux
                &&& final(self).indices_block_sums == old(self).indices_block_sums
                &&& final(self).positions_out == old(self).positions_out
                &&& final(self).velocities_out == old(self).velocities_out
                &&& final(self).positions_aux == old(self).positions_aux
                &&& final(self).velocities_aux == old(self).velocities_aux
                &&& final(self).frame_indices == old(self).frame_indices
                &&& final(self).frame_indices_aux == old(self).frame_indices_aux
                &&& final(self).is_ready == old(self).is_ready
            },
    {
        if data.positions.len() > self.positions_in.len() || data.velocities.len()
            > self.velocities_in.len() {
            return Err(WrachError::CapacityExceeded);
        }
        if self.is_ready && !self.has_upload {
            // The input buffers hold the frame of the last tick; what is not
            // overwritten must come from its output.
            copy_into(self.positions_in.as_mut_slice(), self.positions_out.as_slice());
            copy_into(self.velocities_in.as_mut_slice(), self.velocities_out.as_slice());
        }
        write_front(self.positions_in.as_mut_slice(), data.positions.as_slice());
        write_front(self.velocities_in.as_mut_slice(), data.velocities.as_slice());
        self.has_upload = true;
        Ok(())
    }

    /// Writes `settings` to the uniform block.
    ///
    /// Fails with `InvalidConfig`, and writes nothing, when the settings have
    /// another grid or another cell size than the buffers were made for; and
    /// with `CapacityExceeded` when they count more particles than a frame
    /// has room for.
    pub fn write_settings(&mut self, settings: ShaderWorldSettings) -> (r: Result<(), WrachError>)
        requires
            old(self).wf(),
        ensures
            final(self).wf(),
            match r {
                Ok(()) => {
                    &&& settings.grid_dimensions == old(self).settings.grid_dimensions
                    &&& settings.cell_size == old(self).settings.cell_size
                    &&& settings.particles_in_frame_count <= old(self).capacity()
                    &&& *final(self) == (AppComputeWorker { settings, ..*old(self) })
                },
                Err(e) => {
                    &&& *final(self) == *old(self)
                    &&& if settings.grid_dimensions != old(self).settings.grid_dimensions
                        || settings.cell_size != old(self).settings.cell_size {
                        e == WrachError::InvalidConfig
                    } else {
                        e == WrachError::CapacityExceeded && settings.particles_in_frame_count
                            > old(self).capacity()
                    }
                },
            },
    {
        if settings.grid_dimensions.x != self.settings.grid_dimensions.x
            || settings.grid_dimensions.y != self.settings.grid_dimensions.y || settings.cell_size
            != self.settings.cell_size {
            return Err(WrachError::InvalidConfig);
        }
        if settings.particles_in_frame_count as usize > self.positions_in.len() {
            return Err(WrachError::CapacityExceeded);
        }
        self.settings = settings;
        Ok(())
    }

    /// `after` is what a tick makes of the worker `before` when it starts from
    /// `inputs`.
    ///
    /// The particles of the frame are the first `particles_in_frame_count`
    /// of the input. Those of them that lie in the grid are counted and
    /// packed cell by cell into the input buffers, and, four times each, into
    /// the auxiliary buffers; the running totals of both grids are kept as
    /// the indices of the frame; and the number of packed particles becomes
    /// the particle count of the settings. Then the physics pass writes the
    /// output buffers and clears the counters; if the physics pass is left
    /// out, the output buffers are a copy of the input buffers and the
    /// counters hold the running totals.
    pub open spec fn spec_executed(
        before: &AppComputeWorker,
        inputs: Inputs,
        after: &AppComputeWorker,
    ) -> bool {
        &&& after.wf()
        &&& after.is_ready
        &&& !after.has_upload
        &&& !after.is_lost
        &&& after.buffers == before.buffers
        &&& after.passes == before.passes
        &&& after.exclude_integration_pass == before.exclude_integration_pass
        &&& after.settings == (ShaderWorldSettings {
            particles_in_frame_count: after.frame_indices@[inputs.settings.main_cells() + 1],
            ..inputs.settings
        })
        &&& spec_totals_of(
            &inputs.settings,
            inputs.positions,
            after.frame_indices@,
            after.frame_indices_aux@,
        )
        &&& spec_is_packed(
            after.frame_indices@,
            spec_main_lists(
                &inputs.settings,
                inputs.positions,
                inputs.settings.particles_in_frame_count as int,
            ),
            after.positions_in@,
            after.velocities_in@,
            inputs.positions,
            inputs.velocities,
            inputs.positions,
            inputs.velocities,
        )
        &&& spec_is_packed(
            after.frame_indices_aux@,
            spec_aux_lists(
                &inputs.settings,
                inputs.positions,
                inputs.settings.particles_in_frame_count as int,
            ),
            after.positions_aux@,
            after.velocities_aux@,
            inputs.positions,
            inputs.velocities,
            before.positions_aux@,
            before.velocities_aux@,
        )
        &&& before.exclude_integration_pass ==> {
            &&& after.positions_out@ == after.positions_in@
            &&& after.velocities_out@ == after.velocities_in@
            &&& after.indices_main@ == after.frame_indices@
            &&& after.indices_aux@ == after.frame_indices_aux@
        }
        &&& !before.exclude_integration_pass ==> {
            &&& forall|slot: int|
                0 <= slot < after.indices_main@.len() ==> #[trigger] after.indices_main@[slot] == (
                if inputs.settings.main_cells() >= 1 {
                    0u32
                } else {
                    after.frame_indices@[slot]
                })
            &&& forall|slot: int|
                0 <= slot < after.indices_aux@.len() ==> #[trigger] after.indices_aux@[slot] == (
                if inputs.settings.main_cells() >= 1 {
                    0u32
                } else {
                    after.frame_indices_aux@[slot]
                })
            &&& forall|slot: int|
                0 <= slot < after.positions_out@.len() ==> #[trigger] after.positions_out@[slot]
                    == (match after.spec_output(
                    before.positions_out@,
                    before.velocities_out@,
                    slot,
                ) {
                    Some(particle) => particle.position,
                    None => before.positions_out@[slot],
                })
            &&& forall|slot: int|
                0 <= slot < after.velocities_out@.len() ==> #[trigger] after.velocities_out@[slot]
                    == (match after.spec_output(
                    before.positions_out@,
                    before.velocities_out@,
                    slot,
                ) {
                    Some(particle) => particle.velocity,
                    None => before.velocities_out@[slot],
                })
        }
    }

    /// One tick of the pipeline: the count, the prefix sums, the packing, and
    /// the physics, as [`AppComputeWorker::spec_executed`] says. A lost device
    /// does nothing.
    pub fn execute(&mut self)
        requires
            old(self).wf(),
        ensures
            old(self).is_lost ==> *final(self) == *old(self),
            !old(self).is_lost ==> Self::spec_executed(
                old(self),
                old(self).spec_inputs(),
                final(self),
            ),
    {
        if self.is_lost {
            return ;
        }
        let ghost input_positions = self.spec_input_positions();
        let ghost input_velocities = self.spec_input_velocities();
        let ghost settings = self.settings;
        let ghost count = self.settings.particles_in_frame_count as int;
        if self.is_ready && !self.has_upload {
            copy_into(self.positions_in.as_mut_slice(), self.positions_out.as_slice());
            copy_into(self.velocities_in.as_mut_slice(), self.velocities_out.as_slice());
        }
        proof {
            self.settings.lemma_grid_bounds();
        }
        clear(self.indices_main.as_mut_slice());
        clear(self.indices_aux.as_mut_slice());
        count_particles(
            &self.settings,
            self.positions_in.as_slice(),
            self.indices_main.as_mut_slice(),
            self.indices_aux.as_mut_slice(),
        );
        let main_slots = self.indices_main.len() as u32;
        let aux_slots = self.indices_aux.len() as u32;
        let ghost main_counts = self.indices_main@;
        let ghost aux_counts = self.indices_aux@;
        proof {
            assert forall|slot: int| 1 <= slot < main_slots - 1 implies #[trigger] main_counts[slot]
                == spec_population(&settings, input_positions, count, slot - 1) by {
                lemma_population_bounds(&settings, input_positions, count, slot - 1);
            }
            assert forall|slot: int| 1 <= slot < aux_slots - 1 implies #[trigger] aux_counts[slot]
                == spec_aux_population(&settings, input_positions, count, slot - 1) by {
                lemma_population_bounds(&settings, input_positions, count, slot - 1);
            }
            lemma_counter_sums(&settings, input_positions, count, main_counts, main_slots - 1);
            lemma_aux_counter_sums(&settings, input_positions, count, aux_counts, aux_slots - 1);
            if settings.grid_dimensions.x >= 1 {
                lemma_population_totals(&settings, input_positions, count, main_slots - 2);
                lemma_population_totals(&settings, input_positions, count, aux_slots - 2);
            } else {
                lemma_no_cells(&settings, input_positions, count, main_slots - 2);
                lemma_no_cells(&settings, input_positions, count, aux_slots - 2);
            }
            assert(main_counts[main_slots - 1] == 0);
            assert(aux_counts[aux_slots - 1] == 0);
            assert(spec_sum(main_counts, 0, main_slots as int) == spec_sum(
                main_counts,
                0,
                main_slots - 1,
            ));
            assert(spec_sum(aux_counts, 0, aux_slots as int) == spec_sum(
                aux_counts,
                0,
                aux_slots - 1,
            ));
        }
        exclusive_scan(
            self.indices_main.as_mut_slice(),
            self.indices_block_sums.as_mut_slice(),
            main_slots,
        );
        exclusive_scan(
            self.indices_aux.as_mut_slice(),
            self.indices_block_sums.as_mut_slice(),
            aux_slots,
        );
        proof {
            let main = self.indices_main@;
            let aux = self.indices_aux@;
            assert forall|cell: int| 0 <= cell < settings.main_cells() implies #[trigger] main[cell
                + 2] == main[cell + 1] + spec_population(&settings, input_positions, count, cell)
                    by {
                lemma_sum_monotone(main_counts, 0, cell + 2, main_slots as int);
                lemma_sum_monotone(main_counts, 0, cell + 1, cell + 2);
                assert(main_counts[cell + 1] == spec_population(
                    &settings,
                    input_positions,
                    count,
                    cell,
                ));
                lemma_population_bounds(&settings, input_positions, count, cell);
            }
            assert forall|cell: int| 0 <= cell < settings.aux_cells() implies #[trigger] aux[cell
                + 2] == aux[cell + 1] + spec_aux_population(
                &settings,
                input_positions,
                count,
                cell,
            ) by {
                lemma_sum_monotone(aux_counts, 0, cell + 2, aux_slots as int);
                lemma_sum_monotone(aux_counts, 0, cell + 1, cell + 2);
                assert(aux_counts[cell + 1] == spec_aux_population(
                    &settings,
                    input_positions,
                    count,
                    cell,
                ));
                lemma_population_bounds(&settings, input_positions, count, cell);
            }
            assert(main[0] == spec_sum(main_counts, 0, 0));
            assert(main[1] == spec_sum(main_counts, 0, 1));
            assert(aux[0] == spec_sum(aux_counts, 0, 0));
            assert(aux[1] == spec_sum(aux_counts, 0, 1));
        }
        pack_particles(
            &self.settings,
            self.indices_main.as_slice(),
            self.positions_in.as_mut_slice(),
            self.velocities_in.as_mut_slice(),
            self.indices_aux.as_slice(),
            self.positions_aux.as_mut_slice(),
            self.velocities_aux.as_mut_slice(),
        );
        copy_indices(self.frame_indices.as_mut_slice(), self.indices_main.as_slice());
        copy_indices(self.frame_indices_aux.as_mut_slice(), self.indices_aux.as_slice());
        self.settings.particles_in_frame_count = self.indices_main[self.indices_main.len() - 1];

        if self.exclude_integration_pass {
            copy_into(self.positions_out.as_mut_slice(), self.positions_in.as_slice());
            copy_into(self.velocities_out.as_mut_slice(), self.velocities_in.as_slice());
        } else {
            proof {
                let main = self.indices_main@;
                let aux = self.indices_aux@;
                assert forall|i: int, j: int| 0 <= i <= j < main.len() implies main[i]
                    <= main[j] by {
                    lemma_totals_do_not_decrease(&settings, input_positions, count, main, aux, i,
                        j);
                }
                assert forall|i: int, j: int| 0 <= i <= j < aux.len() implies aux[i] <= aux[j] by {
                    lemma_totals_do_not_decrease(&settings, input_positions, count, main, aux, i,
                        j);
                }
            }
            integrate_cells(
                &self.settings,
                self.indices_main.as_mut_slice(),
                self.positions_in.as_slice(),
                self.positions_out.as_mut_slice(),
                self.velocities_in.as_slice(),
                self.velocities_out.as_mut_slice(),
                self.indices_aux.as_mut_slice(),
                self.positions_aux.as_slice(),
                self.velocities_aux.as_slice(),
            );
        }
        self.is_ready = true;
        self.has_upload = false;
    }

    /// The particle that the physics pass of the last tick wrote to slot
    /// `slot` of the output buffers, if it wrote one there; given the output
    /// buffers as they were before the tick.
    pub open spec fn spec_output(
        &self,
        positions_before: Seq<Vec2>,
        velocities_before: Seq<Vec2>,
        slot: int,
    ) -> Option<crate::physics::particle::Particle> {
        spec_frame_output(
            spec_cell(
                &self.settings,
                self.frame_indices@,
                self.positions_in@,
                positions_before,
                self.velocities_in@,
                velocities_before,
                self.frame_indices_aux@,
                self.positions_aux@,
                self.velocities_aux@,
                0,
            ),
            self.settings.main_cells(),
            slot,
        )
    }

    /// The indices of the frame of the last tick.
    pub fn read_indices(&self) -> (r: Vec<u32>)
        ensures
            r@ == self.frame_indices@,
    {
        let mut r: Vec<u32> = Vec::new();
        let mut i: usize = 0;
        while i < self.frame_indices.len()
            invariant
                0 <= i <= self.frame_indices@.len(),
                r@ == self.frame_indices@.take(i as int),
            decreases self.frame_indices@.len() - i,
        {
            r.push(self.frame_indices[i]);
            proof {
                assert(self.frame_indices@.take(i as int + 1) =~= self.frame_indices@.take(
                    i as int,
                ).push(self.frame_indices@[i as int]));
            }
            i += 1;
        }
        proof {
            assert(self.frame_indices@.take(self.frame_indices@.len() as int)
                =~= self.frame_indices@);
        }
        r
    }

    /// The positions that the last tick put out.
    pub fn read_positions(&self) -> (r: Vec<Vec2>)
        ensures
            r@ == self.positions_out@,
    {
        let mut r: Vec<Vec2> = Vec::new();
        crate::spatial_bin::extend(&mut r, &self.positions_out);
        proof {
            assert(r@ =~= self.positions_out@);
        }
        r
    }

    /// The velocities that the last tick put out.
    pub fn read_velocities(&self) -> (r: Vec<Vec2>)
        ensures
            r@ == self.velocities_out@,
    {
        let mut r: Vec<Vec2> = Vec::new();
        crate::spatial_bin::extend(&mut r, &self.velocities_out);
        proof {
            assert(r@ =~= self.velocities_out@);
        }
        r
    }
}

/// Without main cells nothing is counted.
pub proof fn lemma_no_cells(
    settings: &ShaderWorldSettings,
    positions: Seq<Vec2>,
    count: int,
    cells: int,
)
    requires
        settings.grid_dimensions.x == 0,
        0 <= count,
    ensures
        spec_population_before(settings, positions, count, cells) == 0,
        spec_aux_population_before(settings, positions, count, cells) == 0,
    decreases cells,
{
    if cells > 0 {
        lemma_no_cells(settings, positions, count, cells - 1);
        lemma_nothing_counted(settings, positions, count, cells - 1);
    }
}

/// Without main cells no cell has a population.
pub proof fn lemma_nothing_counted(
    settings: &ShaderWorldSettings,
    positions: Seq<Vec2>,
    count: int,
    cell: int,
)
    requires
        settings.grid_dimensions.x == 0,
    ensures
        spec_population(settings, positions, count, cell) == 0,
        spec_aux_population(settings, positions, count, cell) == 0,
    decreases count,
{
    if count > 0 {
        lemma_nothing_counted(settings, positions, count - 1, cell);
    }
}

/// Running totals of populations do not decrease.
pub proof fn lemma_totals_do_not_decrease(
    settings: &ShaderWorldSettings,
    positions: Seq<Vec2>,
    count: int,
    indices_main: Seq<u32>,
    indices_aux: Seq<u32>,
    first: int,
    second: int,
)
    requires
        0 <= count,
        indices_main.len() == settings.main_cells() + 2,
        indices_aux.len() == settings.aux_cells() + 2,
        indices_main[0] == 0,
        indices_aux[0] == 0,
        forall|cell: int|
            0 <= cell < settings.main_cells() ==> #[trigger] indices_main[cell + 2] ==
                indices_main[cell
                + 1] + spec_population(settings, positions, count, cell),
        forall|aux: int|
            0 <= aux < settings.aux_cells() ==> #[trigger] indices_aux[aux + 2] == indices_aux[aux
                + 1] + spec_aux_population(settings, positions, count, aux),
        0 <= first <= second,
    ensures
        second < indices_main.len() ==> indices_main[first] <= indices_main[second],
        second < indices_aux.len() ==> indices_aux[first] <= indices_aux[second],
    decreases second - first,
{
    if first < second {
        lemma_totals_do_not_decrease(
            settings,
            positions,
            count,
            indices_main,
            indices_aux,
            first,
            second - 1,
        );
        if second >= 2 {
            lemma_population_bounds(settings, positions, count, second - 2);
            if second < indices_main.len() {
                assert(indices_main[(second - 2) + 2] == indices_main[(second - 2) + 1]
                    + spec_population(settings, positions, count, second - 2));
            }
            if second < indices_aux.len() {
                assert(indices_aux[(second - 2) + 2] == indices_aux[(second - 2) + 1]
                    + spec_aux_population(settings, positions, count, second - 2));
            }
        }
    }
}

/// Sets every item of `buffer` to zero.
pub fn clear(buffer: &mut [u32])
    ensures
        final(buffer)@.len() == old(buffer)@.len(),
        forall|i: int| 0 <= i < old(buffer)@.len() ==> #[trigger] final(buffer)@[i] == 0,
{
    let length = buffer.len();
    let mut i: usize = 0;
    while i < length
        invariant
            0 <= i <= length,
            buffer@.len() == length,
            forall|j: int| 0 <= j < i ==> #[trigger] buffer@[j] == 0,
        decreases length - i,
    {
        buffer[i] = 0;
        i += 1;
    }
}

/// Copies `source` over `target`, which is as long.
pub fn copy_into(target: &mut [Vec2], source: &[Vec2])
    requires
        old(target)@.len() == source@.len(),
    ensures
        final(target)@ == source@,
{
    let length = target.len();
    let mut i: usize = 0;
    while i < length
        invariant
            0 <= i <= length,
            target@.len() == length,
            source@.len() == length,
            forall|j: int| 0 <= j < i ==> #[trigger] target@[j] == source@[j],
        decreases length - i,
    {
        target[i] = source[i];
        i += 1;
    }
    proof {
        assert(target@ =~= source@);
    }
}

/// Copies `source` over `target`, which is as long.
pub fn copy_indices(target: &mut [u32], source: &[u32])
    requires
        old(target)@.len() == source@.len(),
    ensures
        final(target)@ == source@,
{
    let length = target.len();
    let mut i: usize = 0;
    while i < length
        invariant
            0 <= i <= length,
            target@.len() == length,
            source@.len() == length,
            forall|j: int| 0 <= j < i ==> #[trigger] target@[j] == source@[j],
        decreases length - i,
    {
        target[i] = source[i];
        i += 1;
    }
    proof {
        assert(target@ =~= source@);
    }
}

/// Writes `source` over the first items of `target`, which is at least as
/// long.
pub fn write_front(target: &mut [Vec2], source: &[Vec2])
    requires
        source@.len() <= old(target)@.len(),
    ensures
        final(target)@ == source@ + old(target)@.subrange(
            source@.len() as int,
            old(target)@.len() as int,
        ),
{
    let length = source.len();
    let whole = target.len();
    let mut i: usize = 0;
    while i < length
        invariant
            0 <= i <= length <= whole,
            target@.len() == whole,
            whole == old(target)@.len(),
            source@.len() == length,
            forall|j: int| 0 <= j < i ==> #[trigger] target@[j] == source@[j],
            forall|j: int| i <= j < whole ==> #[trigger] target@[j] == old(target)@[j],
        decreases length - i,
    {
        target[i] = source[i];
        i += 1;
    }
    proof {
        assert(target@ =~= source@ + old(target)@.subrange(length as int, whole as int));
    }
}

} // verus!
