//! What happens around a tick: what is waiting to be uploaded goes to the
//! compute worker before it, and what the worker put out is read back after
//! it.

use crate::compute::worker::{AppComputeWorker, Inputs};
use crate::error::WrachError;
use crate::spatial_bin::PackedData;
use crate::state::{GPUUpload, WrachState};
use vstd::prelude::*;

verus! {

/// What the uploads of a queue can change of `worker`.
pub open spec fn spec_inputs(worker: &AppComputeWorker) -> Inputs {
    worker.spec_inputs()
}

/// `after` is `before` but for what uploads can change.
pub open spec fn spec_same_device(before: &AppComputeWorker, after: &AppComputeWorker) -> bool {
    &&& after.buffers == before.buffers
    &&& after.passes == before.passes
    &&& after.is_lost == before.is_lost
    &&& after.exclude_integration_pass == before.exclude_integration_pass
    &&& after.indices_main == before.indices_main
    &&& after.indices_aux == before.indices_aux
    &&& after.indices_block_sums == before.indices_block_sums
    &&& after.positions_out == before.positions_out
    &&& after.velocities_out == before.velocities_out
    &&& after.positions_aux == before.positions_aux
    &&& after.velocities_aux == before.velocities_aux
    &&& after.frame_indices == before.frame_indices
    &&& after.frame_indices_aux == before.frame_indices_aux
    &&& after.is_ready == before.is_ready
    &&& after.capacity() == before.capacity()
}

/// What one upload makes of the inputs, and the error with which it fails
/// if it does. Packed data goes to the front of the positions and
/// velocities, unless it is longer than they are. Settings take the place of
/// the settings, unless they have another grid or cell size, or count more
/// particles than there is room for. An upload that fails changes nothing.
pub open spec fn spec_write(inputs: Inputs, upload: &GPUUpload) -> (Inputs, Option<WrachError>) {
    match upload {
        GPUUpload::PackedData(data) => if data.positions@.len() <= inputs.positions.len()
            && data.velocities@.len() <= inputs.positions.len() {
            (
                Inputs {
                    positions: data.positions@ + inputs.positions.subrange(
                        data.positions@.len() as int,
                        inputs.positions.len() as int,
                    ),
                    velocities: data.velocities@ + inputs.velocities.subrange(
                        data.velocities@.len() as int,
                        inputs.positions.len() as int,
                    ),
                    settings: inputs.settings,
                    has_upload: true,
                },
                None,
            )
        } else {
            (inputs, Some(WrachError::CapacityExceeded))
        },
        GPUUpload::Settings(settings) => if settings.grid_dimensions
            != inputs.settings.grid_dimensions || settings.cell_size != inputs.settings.cell_size {
            (inputs, Some(WrachError::InvalidConfig))
        } else if settings.particles_in_frame_count > inputs.positions.len() {
            (inputs, Some(WrachError::CapacityExceeded))
        } else {
            (Inputs { settings: *settings, ..inputs }, None)
        },
    }
}

/// What the uploads of a queue make of the inputs, one after the other, and
/// the error of the first of them that fails.
pub open spec fn spec_write_all(inputs: Inputs, uploads: Seq<GPUUpload>) -> (Inputs, Option<
    WrachError,
>)
    decreases uploads.len(),
{
    if uploads.len() == 0 {
        (inputs, None)
    } else {
        let earlier = spec_write_all(inputs, uploads.drop_last());
        let last = spec_write(earlier.0, &uploads.last());
        (
            last.0,
            if earlier.1.is_some() {
                earlier.1
            } else {
                last.1
            },
        )
    }
}

/// Uploads what is waiting in the queue of `wrach_state` to the compute
/// worker, in order, and empties the queue.
///
/// Fails with `DeviceLost`, and does nothing, when the device was lost.
/// Otherwise it fails with the error of the first upload that fails. An
/// upload that fails is dropped; the others take effect all the same.
pub fn maybe_upload_to_gpu(
    compute_worker: &mut AppComputeWorker,
    wrach_state: &mut WrachState,
) -> (r: Result<(), WrachError>)
    requires
        old(compute_worker).wf(),
    ensures
        final(compute_worker).wf(),
        spec_same_device(old(compute_worker), final(compute_worker)),
        old(compute_worker).is_lost ==> {
            &&& r == Err::<(), WrachError>(WrachError::DeviceLost)
            &&& *final(compute_worker) == *old(compute_worker)
            &&& final(wrach_state).gpu_uploads == old(wrach_state).gpu_uploads
        },
        !old(compute_worker).is_lost ==> {
            &&& spec_inputs(final(compute_worker)) == spec_write_all(
                spec_inputs(old(compute_worker)),
                old(wrach_state).gpu_uploads@,
            ).0
            &&& match r {
                Ok(()) => spec_write_all(
                    spec_inputs(old(compute_worker)),
                    old(wrach_state).gpu_uploads@,
                ).1.is_none(),
                Err(e) => spec_write_all(
                    spec_inputs(old(compute_worker)),
                    old(wrach_state).gpu_uploads@,
                ).1 == Some(e),
            }
            &&& final(wrach_state).gpu_uploads@.len() == 0
        },
        final(wrach_state).config == old(wrach_state).config,
        final(wrach_state).shader_settings == old(wrach_state).shader_settings,
        final(wrach_state).particle_store == old(wrach_state).particle_store,
        final(wrach_state).packed_data == old(wrach_state).packed_data,
{
    if compute_worker.is_lost {
        return Err(WrachError::DeviceLost);
    }
    let mut failure: Option<WrachError> = None;
    if wrach_state.gpu_uploads.is_empty() {
        return Ok(());
    }
    let ghost uploads = wrach_state.gpu_uploads@;
    let ghost start = spec_inputs(compute_worker);
    let mut i: usize = 0;
    while i < wrach_state.gpu_uploads.len()
        invariant
            0 <= i <= uploads.len(),
            uploads == wrach_state.gpu_uploads@,
            *wrach_state == *old(wrach_state),
            start == spec_inputs(old(compute_worker)),
            compute_worker.wf(),
            spec_same_device(old(compute_worker), compute_worker),
            spec_inputs(compute_worker) == spec_write_all(start, uploads.take(i as int)).0,
            failure == spec_write_all(start, uploads.take(i as int)).1,
        decreases uploads.len() - i,
    {
        proof {
            assert(uploads.take(i as int + 1).drop_last() =~= uploads.take(i as int));
            assert(uploads.take(i as int + 1).last() == uploads[i as int]);
        }
        let outcome = match &wrach_state.gpu_uploads[i] {
            GPUUpload::PackedData(data) => compute_worker.write_packed_data(data),
            GPUUpload::Settings(settings) => compute_worker.write_settings(*settings),
        };
        match outcome {
            Ok(()) => {},
            Err(e) => {
                if failure.is_none() {
                    failure = Some(e);
                }
            },
        }
        i += 1;
    }
    proof {
        assert(uploads.take(uploads.len() as int) =~= uploads);
    }

    wrach_state.gpu_uploads = Vec::new();
    match failure {
        Some(e) => Err(e),
        None => Ok(()),
    }
}

/// Reads back what the last tick of the compute worker put out: the indices
/// of the frame, and all positions and velocities of the output buffers.
///
/// Fails with `DeviceLost` when the device was lost, and with `NotReady` as
/// long as no tick has completed. Nothing is read then.
pub fn tick(compute_worker: &AppComputeWorker, wrach_state: &mut WrachState) -> (r: Result<
    (),
    WrachError,
>)
    ensures
        r.is_ok() <==> compute_worker.is_ready && !compute_worker.is_lost,
        final(wrach_state).config == old(wrach_state).config,
        final(wrach_state).shader_settings == old(wrach_state).shader_settings,
        final(wrach_state).particle_store == old(wrach_state).particle_store,
        final(wrach_state).gpu_uploads == old(wrach_state).gpu_uploads,
        match r {
            Ok(()) => {
                &&& final(wrach_state).packed_data.indices@ == compute_worker.frame_indices@
                &&& final(wrach_state).packed_data.positions@ == compute_worker.positions_out@
                &&& final(wrach_state).packed_data.velocities@ == compute_worker.velocities_out@
            },
            Err(e) => {
                &&& e == (if compute_worker.is_lost {
                    WrachError::DeviceLost
                } else {
                    WrachError::NotReady
                })
                &&& final(wrach_state).packed_data == old(wrach_state).packed_data
            },
        },
{
    if compute_worker.is_lost {
        return Err(WrachError::DeviceLost);
    }
    if !compute_worker.ready() {
        return Err(WrachError::NotReady);
    }

    let update = PackedData {
        indices: compute_worker.read_indices(),
        positions: compute_worker.read_positions(),
        velocities: compute_worker.read_velocities(),
    };
    wrach_state.packed_data = update;
    Ok(())
}

/// What one cycle of the simulation makes of a worker and a state.
///
/// With the device lost nothing changes and the result is `DeviceLost`.
/// Otherwise the uploads that are waiting are written as far as they go; the
/// worker runs a tick from what they left; the state's queue is empty and
/// its frame is what the worker put out; and the result is that of the
/// uploads.
pub open spec fn spec_updated(
    worker_before: &AppComputeWorker,
    state_before: &WrachState,
    worker_after: &AppComputeWorker,
    state_after: &WrachState,
    r: Result<(), WrachError>,
) -> bool {
    &&& state_after.config == state_before.config
    &&& state_after.shader_settings == state_before.shader_settings
    &&& state_after.particle_store == state_before.particle_store
    &&& worker_before.is_lost ==> {
        &&& r == Err::<(), WrachError>(WrachError::DeviceLost)
        &&& *worker_after == *worker_before
        &&& *state_after == *state_before
    }
    &&& !worker_before.is_lost ==> {
        &&& exists|uploaded: AppComputeWorker|
            {
                &&& spec_same_device(worker_before, &uploaded)
                &&& spec_inputs(&uploaded) == spec_write_all(
                    spec_inputs(worker_before),
                    state_before.gpu_uploads@,
                ).0
                &&& #[trigger] AppComputeWorker::spec_executed(
                    &uploaded,
                    spec_inputs(&uploaded),
                    worker_after,
                )
            }
        &&& state_after.gpu_uploads@.len() == 0
        &&& state_after.packed_data.indices@ == worker_after.frame_indices@
        &&& state_after.packed_data.positions@ == worker_after.positions_out@
        &&& state_after.packed_data.velocities@ == worker_after.velocities_out@
        &&& match r {
            Ok(()) => spec_write_all(
                spec_inputs(worker_before),
                state_before.gpu_uploads@,
            ).1.is_none(),
            Err(e) => spec_write_all(spec_inputs(worker_before), state_before.gpu_uploads@).1
                == Some(e),
        }
    }
}

/// One cycle of the simulation: the uploads, a tick of the compute worker,
/// and the readback.
///
/// Fails with `DeviceLost`, and does nothing, when the device was lost.
/// Otherwise the tick and the readback take place whether the uploads fail
/// or not, and the result is that of the uploads.
pub fn update(compute_worker: &mut AppComputeWorker, wrach_state: &mut WrachState) -> (r: Result<
    (),
    WrachError,
>)
    requires
        old(compute_worker).wf(),
    ensures
        final(compute_worker).wf(),
        spec_updated(
            old(compute_worker),
            old(wrach_state),
            final(compute_worker),
            final(wrach_state),
            r,
        ),
{
    if compute_worker.is_lost {
        return Err(WrachError::DeviceLost);
    }
    let uploaded = maybe_upload_to_gpu(compute_worker, wrach_state);
    let ghost after_uploads = *compute_worker;
    compute_worker.execute();
    proof {
        assert(AppComputeWorker::spec_executed(
            &after_uploads,
            spec_inputs(&after_uploads),
            compute_worker,
        ));
    }
    let read = tick(compute_worker, wrach_state);
    uploaded
}

} // verus!
