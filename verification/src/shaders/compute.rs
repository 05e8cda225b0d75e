//! What a thread of the workgroup-local neighbour search does.

use crate::shaders::particle::{ParticleGlobal, ParticleIDGlobal, ParticleIDLocal};
use crate::shaders::workgroup::{spec_dimensions, WorkGroupData};
use vstd::prelude::*;

verus! {

/// The number of solver stages that a thread goes through.
pub const STAGES: u32 = 3;

/// The parameters of a dispatch.
#[derive(Default, Copy, Clone, Debug, PartialEq, Eq, Structural)]
pub struct Params {
    /// The solver stage.
    pub stage: u32,
}

/// The numbers by which a thread knows itself.
#[derive(Copy, Clone, Debug, PartialEq, Eq, Structural)]
pub struct GPUIdentifiers {
    /// The number of the thread among all threads.
    pub global: u32,
    /// The number of the thread's workgroup.
    pub workgroup: u32,
    /// The number of the thread in its workgroup.
    pub local: u32,
}

impl GPUIdentifiers {
    /// The particle of the thread: there is one thread for each particle.
    pub fn global_id_to_particle_id(&self) -> (r: ParticleIDGlobal)
        ensures
            r.id == self.global,
    {
        ParticleIDGlobal { id: self.global }
    }
}

/// What the thread `ids` does: gets the memory of its workgroup ready, and
/// then goes stage by stage through the particles that are its own by turn,
/// until it comes to the null particle.
pub fn entry(
    ids: GPUIdentifiers,
    _params: &Params,
    particles_src: &[ParticleGlobal],
    _particles_dst: &[ParticleGlobal],
    workgroup_data: &mut WorkGroupData,
    pixel_grid: &[ParticleIDGlobal],
)
    requires
        old(workgroup_data).wf(),
    ensures
        final(workgroup_data).wf(),
        final(workgroup_data).workgroup_id == ids.workgroup,
        final(workgroup_data).particles_count == 0,
        final(workgroup_data).dimensions == spec_dimensions(
            old(workgroup_data).world,
            ids.workgroup,
        ),
        final(workgroup_data).pixel_grid == old(workgroup_data).pixel_grid,
        final(workgroup_data).particles == old(workgroup_data).particles,
        final(workgroup_data).neighbours == old(workgroup_data).neighbours,
        final(workgroup_data).neighbours_count == old(workgroup_data).neighbours_count,
        final(workgroup_data).world == old(workgroup_data).world,
{
    workgroup_data.workgroup_id = ids.workgroup;
    workgroup_data.populate(ids.local, pixel_grid, particles_src);

    let mut stage: u32 = 0;
    while stage < STAGES
        invariant
            0 <= stage <= STAGES,
            workgroup_data.particles_count == 0,
        decreases STAGES - stage,
    {
        let mut job: u32 = 0;
        loop
            invariant
                workgroup_data.particles_count == 0,
                job == 0,
            decreases 1 - job,
        {
            let particle = workgroup_data.particle_for_work_item(ids.local, job);
            if particle.id_global.id == ParticleIDLocal::null() {
                break ;
            }
            job += 1;
        }
        stage += 1;
    }
}

} // verus!
