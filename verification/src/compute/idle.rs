//! A tick without particles: it leaves every buffer as it was, at zero.

use crate::compute::integration::{spec_at, spec_cell, spec_frame_output};
use crate::compute::pack_particle_data::spec_totals_of;
use crate::compute::particles_cell_count::{spec_aux_population, spec_population};
use crate::compute::worker::{AppComputeWorker, Inputs};
use crate::config_shader::ShaderWorldSettings;
use crate::math::Vec2;
use crate::physics::cell::CellView;
use crate::physics::neighbours::spec_zero;
use vstd::prelude::*;

verus! {

/// Every item of `buffer` is the zero vector.
pub open spec fn spec_all_zero(buffer: Seq<Vec2>) -> bool {
    forall|i: int| 0 <= i < buffer.len() ==> #[trigger] buffer[i] == spec_zero()
}

/// Every item of `counters` is zero.
pub open spec fn spec_all_clear(counters: Seq<u32>) -> bool {
    forall|i: int| 0 <= i < counters.len() ==> #[trigger] counters[i] == 0
}

/// The running totals of a frame without particles are zero.
pub proof fn lemma_no_particles_no_totals(
    settings: &ShaderWorldSettings,
    positions: Seq<Vec2>,
    indices_main: Seq<u32>,
    indices_aux: Seq<u32>,
    slot: int,
)
    requires
        settings.particles_in_frame_count == 0,
        spec_totals_of(settings, positions, indices_main, indices_aux),
        0 <= slot,
    ensures
        slot < settings.main_cells() + 2 ==> indices_main[slot] == 0,
        slot < settings.aux_cells() + 2 ==> indices_aux[slot] == 0,
    decreases slot,
{
    if slot >= 2 {
        lemma_no_particles_no_totals(settings, positions, indices_main, indices_aux, slot - 1);
        if slot < settings.main_cells() + 2 {
            assert(spec_population(settings, positions, 0, slot - 2) == 0);
            assert(indices_main[(slot - 2) + 2] == indices_main[(slot - 2) + 1] + spec_population(
                settings,
                positions,
                0,
                slot - 2,
            ));
        }
        if slot < settings.aux_cells() + 2 {
            assert(spec_aux_population(settings, positions, 0, slot - 2) == 0);
            assert(indices_aux[(slot - 2) + 2] == indices_aux[(slot - 2) + 1]
                + spec_aux_population(settings, positions, 0, slot - 2));
        }
    }
}

/// Where the running totals of the main grid are zero, the physics of no
/// cell writes a particle.
pub proof fn lemma_no_particles_no_output(frame: CellView, done: int, slot: int)
    requires
        spec_all_clear(frame.indices_main),
        done + 1 < frame.indices_main.len(),
        done <= usize::MAX,
    ensures
        spec_frame_output(frame, done, slot).is_none(),
    decreases done,
{
    if done > 0 {
        lemma_no_particles_no_output(frame, done - 1, slot);
        let cell = spec_at(frame, done);
        assert(cell.indices_main[done] == 0);
        assert(cell.indices_main[done + 1] == 0);
        assert(cell.indices().centre.global.from == 0);
        assert(cell.indices().centre.global.end_by == 0);
        assert(cell.output(slot).is_none());
    }
}

/// A tick that starts without particles, from buffers at zero, ends without
/// particles and with every buffer at zero: the indices of the frame, the
/// counters, and the positions and velocities that are read back. After it
/// the worker is ready.
pub proof fn lemma_empty_tick_stays_at_zero(
    before: &AppComputeWorker,
    inputs: Inputs,
    after: &AppComputeWorker,
)
    requires
        inputs.settings.particles_in_frame_count == 0,
        spec_all_zero(inputs.positions),
        spec_all_zero(inputs.velocities),
        spec_all_zero(before.positions_out@),
        spec_all_zero(before.velocities_out@),
        inputs.positions.len() == before.positions_out@.len(),
        inputs.velocities.len() == before.velocities_out@.len(),
        AppComputeWorker::spec_executed(before, inputs, after),
    ensures
        after.is_ready,
        after.settings == inputs.settings,
        spec_all_clear(after.frame_indices@),
        spec_all_clear(after.frame_indices_aux@),
        spec_all_clear(after.indices_main@),
        spec_all_clear(after.indices_aux@),
        spec_all_zero(after.positions_in@),
        spec_all_zero(after.velocities_in@),
        spec_all_zero(after.positions_out@),
        spec_all_zero(after.velocities_out@),
{
    let settings = &inputs.settings;
    assert forall|slot: int| 0 <= slot < after.frame_indices@.len() implies
        #[trigger] after.frame_indices@[slot] == 0 by {
        lemma_no_particles_no_totals(
            settings,
            inputs.positions,
            after.frame_indices@,
            after.frame_indices_aux@,
            slot,
        );
    }
    assert forall|slot: int| 0 <= slot < after.frame_indices_aux@.len() implies
        #[trigger] after.frame_indices_aux@[slot] == 0 by {
        lemma_no_particles_no_totals(
            settings,
            inputs.positions,
            after.frame_indices@,
            after.frame_indices_aux@,
            slot,
        );
    }
    assert(after.frame_indices@[settings.main_cells() + 1] == 0);
    assert(after.settings == inputs.settings);
    assert forall|slot: int| 0 <= slot < after.positions_in@.len() implies
        #[trigger] after.positions_in@[slot] == spec_zero() by {
        assert(after.positions_in@[slot] == inputs.positions[slot]);
    }
    assert forall|slot: int| 0 <= slot < after.velocities_in@.len() implies
        #[trigger] after.velocities_in@[slot] == spec_zero() by {
        assert(after.velocities_in@[slot] == inputs.velocities[slot]);
    }
    if !before.exclude_integration_pass {
        after.settings.lemma_grid_bounds();
        let frame = spec_cell(
            &after.settings,
            after.frame_indices@,
            after.positions_in@,
            before.positions_out@,
            after.velocities_in@,
            before.velocities_out@,
            after.frame_indices_aux@,
            after.positions_aux@,
            after.velocities_aux@,
            0,
        );
        assert forall|slot: int| 0 <= slot < after.positions_out@.len() implies
            #[trigger] after.positions_out@[slot] == spec_zero() by {
            lemma_no_particles_no_output(frame, after.settings.main_cells(), slot);
            assert(after.spec_output(before.positions_out@, before.velocities_out@, slot)
                == spec_frame_output(frame, after.settings.main_cells(), slot));
            assert(after.positions_out@[slot] == before.positions_out@[slot]);
        }
        assert forall|slot: int| 0 <= slot < after.velocities_out@.len() implies
            #[trigger] after.velocities_out@[slot] == spec_zero() by {
            lemma_no_particles_no_output(frame, after.settings.main_cells(), slot);
            assert(after.spec_output(before.positions_out@, before.velocities_out@, slot)
                == spec_frame_output(frame, after.settings.main_cells(), slot));
            assert(after.velocities_out@[slot] == before.velocities_out@[slot]);
        }
    }
}

} // verus!
