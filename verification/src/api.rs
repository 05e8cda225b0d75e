//! The interface of a host that works in single-precision floats: a
//! simulation, and the frame that was read back last as the bits of floats.

use crate::compute::builder::PhysicsComputeWorker;
use crate::compute::idle::{lemma_empty_tick_stays_at_zero, spec_all_clear, spec_all_zero};
use crate::compute::particles_cell_count::spec_counters_clear;
use crate::compute::worker::{AppComputeWorker, MAX_CAPACITY};
use crate::config_app::WrachConfig;
use crate::error::WrachError;
use crate::math::Vec2;
use crate::particle_store::spec_max_particles;
use crate::plugin::{spec_updated, update};
use crate::single::spec_to_single;
use crate::state::{spec_grid, spec_particles_added, Particle, WrachState};
use vstd::prelude::*;

verus! {

/// The vectors as pairs of the bits of single-precision numbers.
pub open spec fn spec_single_bits(vectors: Seq<Vec2>) -> Seq<(u32, u32)> {
    Seq::new(
        vectors.len(),
        |i: int| (spec_to_single(vectors[i].x.raw), spec_to_single(vectors[i].y.raw)),
    )
}

/// The vectors as pairs of the bits of single-precision numbers.
pub fn single_bits(vectors: &Vec<Vec2>) -> (r: Vec<(u32, u32)>)
    ensures
        r@ == spec_single_bits(vectors@),
{
    let mut bits: Vec<(u32, u32)> = Vec::new();
    let mut i: usize = 0;
    while i < vectors.len()
        invariant
            0 <= i <= vectors@.len(),
            bits@ == spec_single_bits(vectors@.take(i as int)),
        decreases vectors@.len() - i,
    {
        bits.push(vectors[i].to_single_bits());
        i += 1;
        assert(bits@ =~= spec_single_bits(vectors@.take(i as int)));
    }
    assert(vectors@.take(i as int) =~= vectors@);
    bits
}

/// A simulation and the frame that was read back from it last.
pub struct WrachAPI {
    /// The compute worker.
    pub worker: AppComputeWorker,
    /// The state of the simulation.
    pub state: WrachState,
    /// All the positions of the particles.
    pub positions: Vec<(u32, u32)>,
    /// All the velocities of the particles.
    pub velocities: Vec<(u32, u32)>,
}

impl WrachAPI {
    /// The worker and the state are well formed.
    pub open spec fn wf(&self) -> bool {
        &&& self.worker.wf()
        &&& self.state.wf()
    }

    /// Every counter of the worker is at zero, and every particle of its
    /// buffers is at the origin, at rest.
    pub open spec fn at_zero(&self) -> bool {
        &&& spec_counters_clear(
            &self.worker.settings,
            self.worker.indices_main@,
            self.worker.indices_aux@,
        )
        &&& spec_all_zero(self.worker.positions_in@)
        &&& spec_all_zero(self.worker.velocities_in@)
        &&& spec_all_zero(self.worker.positions_out@)
        &&& spec_all_zero(self.worker.velocities_out@)
    }

    /// The frame of floats is the frame of the state.
    pub open spec fn in_step(&self) -> bool {
        &&& self.positions@ == spec_single_bits(self.state.packed_data.positions@)
        &&& self.velocities@ == spec_single_bits(self.state.packed_data.velocities@)
    }

    /// A simulation under `config`, without particles: the store is empty,
    /// nothing is waiting to be uploaded, no tick has completed, and all
    /// buffers of the worker are at zero.
    ///
    /// Fails with `InvalidConfig` when a dimension or the cell size is zero
    /// or the viewport is smaller than a cell; with `ConfigurationTooLarge`
    /// when the grid has too many cells for the prefix sum; and with
    /// `CapacityExceeded` when a frame would reserve room for more than
    /// [`MAX_CAPACITY`] particles.
    pub fn new(config: WrachConfig) -> (r: Result<Self, WrachError>)
        ensures
            r.is_ok() <==> config.spec_valid() && spec_grid(config).valid() && spec_max_particles(
                spec_grid(config).active_cell_count(),
                config.cell_size as int,
            ) <= MAX_CAPACITY,
            match r {
                Ok(api) => {
                    &&& api.wf()
                    &&& api.in_step()
                    &&& api.at_zero()
                    &&& api.state.config == config
                    &&& api.state.particle_store.hashmap@ == Map::<
                        u64,
                        crate::particle_store::ParticleData,
                    >::empty()
                    &&& api.state.particle_store.particles_in_frame_count == 0
                    &&& api.state.gpu_uploads@.len() == 0
                    &&& api.positions@.len() == 0
                    &&& api.velocities@.len() == 0
                    &&& api.worker.settings == api.state.shader_settings
                    &&& api.worker.capacity() == api.state.particle_store.capacity()
                    &&& !api.worker.is_ready
                    &&& !api.worker.has_upload
                    &&& !api.worker.is_lost
                },
                Err(e) => if !config.spec_valid() {
                    e == WrachError::InvalidConfig
                } else if !spec_grid(config).valid() {
                    e == WrachError::ConfigurationTooLarge
                } else {
                    e == WrachError::CapacityExceeded
                },
            },
    {
        let mut state = match WrachState::new(config) {
            Ok(state) => state,
            Err(e) => {
                return Err(e);
            },
        };
        let worker = match PhysicsComputeWorker::build(&mut state) {
            Ok(worker) => worker,
            Err(e) => {
                return Err(e);
            },
        };
        let api = WrachAPI { worker, state, positions: Vec::new(), velocities: Vec::new() };
        assert(api.positions@ =~= spec_single_bits(api.state.packed_data.positions@));
        assert(api.velocities@ =~= spec_single_bits(api.state.packed_data.velocities@));
        Ok(api)
    }

    /// Runs a single tick of the simulation and reads the frame back.
    ///
    /// Fails with `DeviceLost` when the device was lost, and with the error
    /// of the first upload that did not fit. The tick takes place whether
    /// the uploads fit or not. The frame of floats is read unless no tick
    /// has ever completed.
    pub fn tick(&mut self) -> (r: Result<(), WrachError>)
        requires
            old(self).wf(),
        ensures
            final(self).wf(),
            spec_updated(
                &old(self).worker,
                &old(self).state,
                &final(self).worker,
                &final(self).state,
                r,
            ),
            !old(self).worker.is_lost ==> final(self).worker.is_ready,
            final(self).worker.is_ready ==> final(self).in_step(),
            !final(self).worker.is_ready ==> {
                &&& final(self).positions == old(self).positions
                &&& final(self).velocities == old(self).velocities
            },
    {
        let outcome = update(&mut self.worker, &mut self.state);
        let _ = self.read_data();
        outcome
    }

    /// Copies the frame that was read back last, as floats.
    ///
    /// Fails with `NotReady`, and leaves the frame of floats as it was, as
    /// long as no tick has completed.
    pub fn read_data(&mut self) -> (r: Result<(), WrachError>)
        ensures
            r.is_ok() <==> old(self).worker.is_ready,
            final(self).worker == old(self).worker,
            final(self).state == old(self).state,
            match r {
                Ok(()) => final(self).in_step(),
                Err(e) => {
                    &&& e == WrachError::NotReady
                    &&& final(self).positions == old(self).positions
                    &&& final(self).velocities == old(self).velocities
                },
            },
    {
        if !self.worker.ready() {
            return Err(WrachError::NotReady);
        }
        self.positions = single_bits(&self.state.packed_data.positions);
        self.velocities = single_bits(&self.state.packed_data.velocities);
        Ok(())
    }

    /// Adds particles to the simulation: to the store, and to the queue of
    /// what the next tick uploads. Nothing changes where the frame has no
    /// room for them.
    pub fn add_particles(&mut self, particles: Vec<Particle>) -> (r: Result<(), WrachError>)
        requires
            old(self).wf(),
        ensures
            final(self).wf(),
            final(self).worker == old(self).worker,
            final(self).positions == old(self).positions,
            final(self).velocities == old(self).velocities,
            spec_particles_added(&old(self).state, &final(self).state, particles@, r),
    {
        self.state.add_particles(particles)
    }

    /// The state of the simulation.
    pub fn get_simulation_state(&self) -> (r: &WrachState)
        ensures
            *r == self.state,
    {
        &self.state
    }
}

/// A tick of a simulation that is at zero and has no particles, neither in
/// its frame nor waiting to be uploaded, succeeds and makes the worker ready.
/// It leaves the store as it was and the worker at zero, and what is read
/// back is zero: every index, every position and every velocity.
pub proof fn lemma_empty_tick_stays_at_zero_and_makes_ready(
    before: &WrachAPI,
    after: &WrachAPI,
    r: Result<(), WrachError>,
)
    requires
        before.wf(),
        before.at_zero(),
        !before.worker.is_lost,
        before.worker.settings.particles_in_frame_count == 0,
        before.state.gpu_uploads@.len() == 0,
        spec_updated(&before.worker, &before.state, &after.worker, &after.state, r),
    ensures
        r.is_ok(),
        after.worker.is_ready,
        after.at_zero(),
        after.state.particle_store == before.state.particle_store,
        spec_all_clear(after.state.packed_data.indices@),
        spec_all_zero(after.state.packed_data.positions@),
        spec_all_zero(after.state.packed_data.velocities@),
{
    let inputs = crate::plugin::spec_inputs(&before.worker);
    let uploaded = choose|uploaded: AppComputeWorker|
        {
            &&& crate::plugin::spec_same_device(&before.worker, &uploaded)
            &&& crate::plugin::spec_inputs(&uploaded) == crate::plugin::spec_write_all(
                inputs,
                before.state.gpu_uploads@,
            ).0
            &&& #[trigger] AppComputeWorker::spec_executed(
                &uploaded,
                crate::plugin::spec_inputs(&uploaded),
                &after.worker,
            )
        };
    assert(crate::plugin::spec_inputs(&uploaded) == inputs);
    lemma_empty_tick_stays_at_zero(&uploaded, inputs, &after.worker);
}

} // verus!
