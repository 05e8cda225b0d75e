//! The pass in which the bulk of the physics is done.

use crate::compute::buffers::BufferId;
use crate::compute::builder::{
    div_ceil, spec_div_ceil, AppComputeWorkerBuilder, PassView, PhysicsComputeWorker, ShaderId,
};
use crate::config_shader::ShaderWorldSettings;
use crate::math::Vec2;
use crate::physics::cell::{Cell, CellView};
use crate::physics::particle::Particle;
use vstd::prelude::*;

verus! {

/// The number of cells that one workgroup of the physics pass takes.
pub const INTEGRATION_PARTITION: u32 = 64;

/// The shader of the physics pass.
pub struct IntegrationShader;

impl IntegrationShader {
    /// The workgroups for a grid of `total_cells` cells.
    pub fn workgroups(total_cells: u32) -> (r: [u32; 3])
        ensures
            r@ == seq![
                spec_div_ceil(total_cells as int, INTEGRATION_PARTITION as int) as u32,
                1u32,
                1u32,
            ],
    {
        let partition = INTEGRATION_PARTITION;
        let main_workgroup_size = div_ceil(total_cells, partition);
        let r = [main_workgroup_size, 1, 1];
        assert(r@ =~= seq![main_workgroup_size, 1u32, 1u32]);
        r
    }

    /// Where the shader is found.
    pub fn shader() -> (r: &'static str)
        ensures
            r@ == "embedded://wrach_bevy/plugin/../../../../assets/shaders/wrach_physics.spv"@,
    {
        "embedded://wrach_bevy/plugin/../../../../assets/shaders/wrach_physics.spv"
    }

    /// The entry point of the shader.
    pub fn entry_point() -> (r: &'static str)
        ensures
            r@ == "main"@,
    {
        "main"
    }
}

/// The buffers that the physics pass is bound to.
pub open spec fn spec_integration_buffers() -> Seq<BufferId> {
    seq![
        BufferId::WorldSettings,
        BufferId::IndicesMain,
        BufferId::PositionsIn,
        BufferId::PositionsOut,
        BufferId::VelocitiesIn,
        BufferId::VelocitiesOut,
        BufferId::IndicesAux,
        BufferId::PositionsAux,
        BufferId::VelocitiesAux,
    ]
}

impl PhysicsComputeWorker {
    /// Adds the pass that integrates the physics onto the movement of the
    /// particles.
    pub fn integration(builder: AppComputeWorkerBuilder, total_cells: u32) -> (r:
        AppComputeWorkerBuilder)
        ensures
            r.spec_passes() == builder.spec_passes().push(
                PassView {
                    shader: ShaderId::Integration,
                    workgroups: seq![
                        spec_div_ceil(total_cells as int, INTEGRATION_PARTITION as int) as u32,
                        1u32,
                        1u32,
                    ],
                    buffers: spec_integration_buffers(),
                },
            ),
            r.settings == builder.settings,
            r.buffers == builder.buffers,
            r.extra_vertex_usage == builder.extra_vertex_usage,
    {
        let mut builder = builder;
        let buffers = [
            BufferId::WorldSettings,
            BufferId::IndicesMain,
            BufferId::PositionsIn,
            BufferId::PositionsOut,
            BufferId::VelocitiesIn,
            BufferId::VelocitiesOut,
            BufferId::IndicesAux,
            BufferId::PositionsAux,
            BufferId::VelocitiesAux,
        ];
        assert(buffers@ =~= spec_integration_buffers());
        builder.add_pass(ShaderId::Integration, IntegrationShader::workgroups(total_cells),
            &buffers);
        builder
    }
}

/// The buffers of a frame as the workgroup of cell `current` sees them.
pub open spec fn spec_cell(
    settings: &ShaderWorldSettings,
    indices_main: Seq<u32>,
    positions_in: Seq<Vec2>,
    positions_out: Seq<Vec2>,
    velocities_in: Seq<Vec2>,
    velocities_out: Seq<Vec2>,
    indices_aux: Seq<u32>,
    positions_aux: Seq<Vec2>,
    velocities_aux: Seq<Vec2>,
    current: int,
) -> CellView {
    CellView {
        current: current as usize,
        first_particle_index: 0,
        settings: *settings,
        indices_main,
        positions_in,
        velocities_in,
        positions_out_length: positions_out.len(),
        velocities_out_length: velocities_out.len(),
        indices_aux,
        positions_workgroup: positions_aux,
        velocities_workgroup: velocities_aux,
    }
}

/// `frame` as the workgroup of cell `current` sees it.
pub open spec fn spec_at(frame: CellView, current: int) -> CellView {
    CellView { current: current as usize, ..frame }
}

/// The particle that the physics of the cells 1, ..., `done` writes to slot
/// `slot` of the output buffers, if one of them writes there.
pub open spec fn spec_frame_output(frame: CellView, done: int, slot: int) -> Option<Particle>
    decreases done,
{
    if done <= 0 {
        None
    } else {
        match spec_at(frame, done).output(slot) {
            Some(particle) => Some(particle),
            None => spec_frame_output(frame, done - 1, slot),
        }
    }
}

/// One of the cells 1, ..., `done` clears slot `slot` of the auxiliary index
/// buffer.
pub open spec fn spec_aux_cleared(frame: CellView, done: int, slot: int) -> bool
    decreases done,
{
    if done <= 0 {
        false
    } else {
        spec_at(frame, done).clears_aux(slot) || spec_aux_cleared(frame, done - 1, slot)
    }
}

/// One of the cells 1, ..., `done` clears slot `slot` of the main index
/// buffer.
pub open spec fn spec_main_cleared(frame: CellView, done: int, slot: int) -> bool
    decreases done,
{
    if done <= 0 {
        false
    } else {
        spec_at(frame, done).clears_main(slot) || spec_main_cleared(frame, done - 1, slot)
    }
}

/// What a cell clears stays cleared when more cells are done.
pub proof fn lemma_cleared_stays(frame: CellView, cell: int, done: int, slot: int)
    requires
        1 <= cell <= done,
    ensures
        spec_at(frame, cell).clears_aux(slot) ==> spec_aux_cleared(frame, done, slot),
        spec_at(frame, cell).clears_main(slot) ==> spec_main_cleared(frame, done, slot),
    decreases done,
{
    if cell < done {
        lemma_cleared_stays(frame, cell, done - 1, slot);
    }
}

/// Once all cells are done, every counter of both grids has been cleared
/// by one of them: the slots of all cells and the guard items.
pub proof fn lemma_all_cleared(frame: CellView, slot: int)
    requires
        frame.settings.spec_countable(),
        frame.width() >= 1,
        frame.height() >= 1,
    ensures
        1 <= slot <= frame.last_slot() + 1 ==> spec_main_cleared(frame, frame.last_slot(), slot),
        1 <= slot <= frame.settings.aux_cells() + 1 ==> spec_aux_cleared(
            frame,
            frame.last_slot(),
            slot,
        ),
{
    let w = frame.width();
    let h = frame.height();
    let cells = frame.last_slot();
    assert(cells >= 1 && cells == w * h && (w + 1) * (h + 1) == w * h + w + h + 1)
        by (nonlinear_arith)
        requires
            w >= 1,
            h >= 1,
            cells == w * h,
    ;
    if 1 <= slot <= cells {
        lemma_cleared_stays(frame, slot, cells, slot);
    }
    if slot == cells + 1 {
        lemma_cleared_stays(frame, cells, cells, slot);
    }
    if 1 <= slot <= frame.settings.aux_cells() + 1 {
        let index = slot - 1;
        let guard = index == frame.settings.aux_cells();
        let i = if guard {
            w
        } else {
            index % (w + 1)
        };
        let j = if guard {
            h
        } else {
            index / (w + 1)
        };
        if !guard {
            vstd::arithmetic::div_mod::lemma_fundamental_div_mod(index, w + 1);
            vstd::arithmetic::div_mod::lemma_mod_bound(index, w + 1);
            vstd::arithmetic::div_mod::lemma_div_pos_is_pos(index, w + 1);
            assert(j <= h) by (nonlinear_arith)
                requires
                    index == (w + 1) * j + i,
                    0 <= i,
                    index < (w + 1) * (h + 1),
                    w >= 0,
            ;
        }
        let x = if i < w {
            i
        } else {
            w - 1
        };
        let y = if j < h {
            j
        } else {
            h - 1
        };
        let cell = y * w + x + 1;
        assert(1 <= cell <= cells && y * w + x == w * y + x) by (nonlinear_arith)
            requires
                0 <= x < w,
                0 <= y < h,
                cell == y * w + x + 1,
                cells == w * h,
        ;
        vstd::arithmetic::div_mod::lemma_fundamental_div_mod_converse(cell - 1, w, y, x);
        let view = spec_at(frame, cell);
        assert(view.aux_slot() == y * (w + 1) + x + 1);
        assert(y * (w + 1) == y * w + y && (w + 1) * j == w * j + j && h * (w + 1) == w * h + h && (
        h - 1) * w == w * h - w) by (nonlinear_arith);
        if guard {
            assert(x == w - 1 && y == h - 1);
            assert(cell == cells);
            assert(view.clears_aux(slot));
        } else if i < w && j < h {
            assert(view.clears_aux(slot));
        } else if i == w && j < h {
            assert(view.at_right_edge());
            assert(view.clears_aux(slot));
        } else if i < w && j == h {
            assert(view.at_top_edge());
            assert(view.clears_aux(slot));
        } else {
            assert(cell == cells);
            assert(view.clears_aux(slot));
        }
        lemma_cleared_stays(frame, cell, cells, slot);
    }
}

/// The physics of one cell without the clearing of its counters.
fn simulate_cell(
    settings: &ShaderWorldSettings,
    indices_main: &mut [u32],
    positions_in: &[Vec2],
    positions_out: &mut [Vec2],
    velocities_in: &[Vec2],
    velocities_out: &mut [Vec2],
    indices_aux: &mut [u32],
    positions_aux: &[Vec2],
    velocities_aux: &[Vec2],
    current: usize,
    is_last: bool,
)
    requires
        spec_cell(
            settings,
            old(indices_main)@,
            positions_in@,
            old(positions_out)@,
            velocities_in@,
            old(velocities_out)@,
            old(indices_aux)@,
            positions_aux@,
            velocities_aux@,
            current as int,
        ).wf(),
        spec_cell(
            settings,
            old(indices_main)@,
            positions_in@,
            old(positions_out)@,
            velocities_in@,
            old(velocities_out)@,
            old(indices_aux)@,
            positions_aux@,
            velocities_aux@,
            current as int,
        ).in_grid(),
    ensures
        final(indices_main)@ == old(indices_main)@,
        final(indices_aux)@ == old(indices_aux)@,
        final(positions_out)@.len() == old(positions_out)@.len(),
        final(velocities_out)@.len() == old(velocities_out)@.len(),
        forall|slot: int|
            0 <= slot < old(positions_out)@.len() ==> #[trigger] final(positions_out)@[slot] == (
            match spec_cell(
                settings,
                old(indices_main)@,
                positions_in@,
                old(positions_out)@,
                velocities_in@,
                old(velocities_out)@,
                old(indices_aux)@,
                positions_aux@,
                velocities_aux@,
                current as int,
            ).output(slot) {
                Some(particle) => particle.position,
                None => old(positions_out)@[slot],
            }),
        forall|slot: int|
            0 <= slot < old(velocities_out)@.len() ==> #[trigger] final(velocities_out)@[slot] == (
            match spec_cell(
                settings,
                old(indices_main)@,
                positions_in@,
                old(positions_out)@,
                velocities_in@,
                old(velocities_out)@,
                old(indices_aux)@,
                positions_aux@,
                velocities_aux@,
                current as int,
            ).output(slot) {
                Some(particle) => particle.velocity,
                None => old(velocities_out)@[slot],
            }),
{
    let mut cell = Cell {
        current,
        is_last,
        first_particle_index: 0,
        settings,
        indices_main,
        positions_in,
        positions_out,
        velocities_in,
        velocities_out,
        indices_aux,
        positions_workgroup: positions_aux,
        velocities_workgroup: velocities_aux,
    };
    cell.simulate();
}

/// The clearing of the counters of one cell.
fn clear_cell(
    settings: &ShaderWorldSettings,
    indices_main: &mut [u32],
    positions_in: &[Vec2],
    positions_out: &mut [Vec2],
    velocities_in: &[Vec2],
    velocities_out: &mut [Vec2],
    indices_aux: &mut [u32],
    positions_aux: &[Vec2],
    velocities_aux: &[Vec2],
    current: usize,
    is_last: bool,
)
    requires
        ({
            let view = spec_cell(
                settings,
                old(indices_main)@,
                positions_in@,
                old(positions_out)@,
                velocities_in@,
                old(velocities_out)@,
                old(indices_aux)@,
                positions_aux@,
                velocities_aux@,
                current as int,
            );
            &&& view.in_grid()
            &&& view.width() >= 1
            &&& view.height() >= 1
            &&& is_last == (current == view.last_slot())
            &&& current + 1 < old(indices_main)@.len()
            &&& 0 < view.aux_slot()
            &&& view.aux_slot() + view.width() + 3 < old(indices_aux)@.len()
        }),
    ensures
        final(positions_out)@ == old(positions_out)@,
        final(velocities_out)@ == old(velocities_out)@,
        final(indices_main)@.len() == old(indices_main)@.len(),
        final(indices_aux)@.len() == old(indices_aux)@.len(),
        forall|slot: int|
            0 <= slot < old(indices_main)@.len() ==> #[trigger] final(indices_main)@[slot] == (
            if spec_cell(
                settings,
                old(indices_main)@,
                positions_in@,
                old(positions_out)@,
                velocities_in@,
                old(velocities_out)@,
                old(indices_aux)@,
                positions_aux@,
                velocities_aux@,
                current as int,
            ).clears_main(slot) {
                0u32
            } else {
                old(indices_main)@[slot]
            }),
        forall|slot: int|
            0 <= slot < old(indices_aux)@.len() ==> #[trigger] final(indices_aux)@[slot] == (
            if spec_cell(
                settings,
                old(indices_main)@,
                positions_in@,
                old(positions_out)@,
                velocities_in@,
                old(velocities_out)@,
                old(indices_aux)@,
                positions_aux@,
                velocities_aux@,
                current as int,
            ).clears_aux(slot) {
                0u32
            } else {
                old(indices_aux)@[slot]
            }),
{
    let mut cell = Cell {
        current,
        is_last,
        first_particle_index: 0,
        settings,
        indices_main,
        positions_in,
        positions_out,
        velocities_in,
        velocities_out,
        indices_aux,
        positions_workgroup: positions_aux,
        velocities_workgroup: velocities_aux,
    };
    cell.clear_cells_for_next_frame();
}

/// The physics pass: the physics of every cell of the grid, and then, once
/// every cell has read its counters, the clearing of the counters of every
/// cell, which leaves all counters of both grids at zero for the next frame.
pub fn integrate_cells(
    settings: &ShaderWorldSettings,
    indices_main: &mut [u32],
    positions_in: &[Vec2],
    positions_out: &mut [Vec2],
    velocities_in: &[Vec2],
    velocities_out: &mut [Vec2],
    indices_aux: &mut [u32],
    positions_aux: &[Vec2],
    velocities_aux: &[Vec2],
)
    requires
        settings.spec_countable(),
        old(indices_main)@[0] == 0,
        old(indices_aux)@[0] == 0,
        spec_cell(
            settings,
            old(indices_main)@,
            positions_in@,
            old(positions_out)@,
            velocities_in@,
            old(velocities_out)@,
            old(indices_aux)@,
            positions_aux@,
            velocities_aux@,
            0,
        ).wf(),
    ensures
        final(indices_main)@.len() == old(indices_main)@.len(),
        final(indices_aux)@.len() == old(indices_aux)@.len(),
        final(positions_out)@.len() == old(positions_out)@.len(),
        final(velocities_out)@.len() == old(velocities_out)@.len(),
        forall|slot: int|
            0 <= slot < old(indices_main)@.len() ==> #[trigger] final(indices_main)@[slot] == (
            if settings.main_cells() >= 1 && slot < settings.main_cells() + 2 {
                0u32
            } else {
                old(indices_main)@[slot]
            }),
        forall|slot: int|
            0 <= slot < old(indices_aux)@.len() ==> #[trigger] final(indices_aux)@[slot] == (
            if settings.main_cells() >= 1 && slot < settings.aux_cells() + 2 {
                0u32
            } else {
                old(indices_aux)@[slot]
            }),
        forall|slot: int|
            0 <= slot < old(positions_out)@.len() ==> #[trigger] final(positions_out)@[slot] == (
            match spec_frame_output(
                spec_cell(
                    settings,
                    old(indices_main)@,
                    positions_in@,
                    old(positions_out)@,
                    velocities_in@,
                    old(velocities_out)@,
                    old(indices_aux)@,
                    positions_aux@,
                    velocities_aux@,
                    0,
                ),
                settings.main_cells(),
                slot,
            ) {
                Some(particle) => particle.position,
                None => old(positions_out)@[slot],
            }),
        forall|slot: int|
            0 <= slot < old(velocities_out)@.len() ==> #[trigger] final(velocities_out)@[slot] == (
            match spec_frame_output(
                spec_cell(
                    settings,
                    old(indices_main)@,
                    positions_in@,
                    old(positions_out)@,
                    velocities_in@,
                    old(velocities_out)@,
                    old(indices_aux)@,
                    positions_aux@,
                    velocities_aux@,
                    0,
                ),
                settings.main_cells(),
                slot,
            ) {
                Some(particle) => particle.velocity,
                None => old(velocities_out)@[slot],
            }),
{
    let ghost frame = spec_cell(
        settings,
        old(indices_main)@,
        positions_in@,
        old(positions_out)@,
        velocities_in@,
        old(velocities_out)@,
        old(indices_aux)@,
        positions_aux@,
        velocities_aux@,
        0,
    );
    proof {
        settings.lemma_grid_bounds();
    }
    let width = settings.grid_dimensions.x as u64;
    let height = settings.grid_dimensions.y as u64;
    assert(width * height == settings.main_cells());
    let cells: usize = (width * height) as usize;
    let main_slots = indices_main.len();
    let aux_slots = indices_aux.len();

    let mut current: usize = 1;
    while current <= cells
        invariant
            1 <= current <= cells + 1,
            cells == settings.main_cells(),
            cells + 2 <= main_slots,
            main_slots == old(indices_main)@.len(),
            frame == spec_cell(
                settings,
                old(indices_main)@,
                positions_in@,
                old(positions_out)@,
                velocities_in@,
                old(velocities_out)@,
                old(indices_aux)@,
                positions_aux@,
                velocities_aux@,
                0,
            ),
            frame.wf(),
            indices_main@ == old(indices_main)@,
            indices_aux@ == old(indices_aux)@,
            positions_out@.len() == old(positions_out)@.len(),
            velocities_out@.len() == old(velocities_out)@.len(),
            forall|slot: int|
                0 <= slot < positions_out@.len() ==> #[trigger] positions_out@[slot] == (
                match spec_frame_output(frame, current - 1, slot) {
                    Some(particle) => particle.position,
                    None => old(positions_out)@[slot],
                }),
            forall|slot: int|
                0 <= slot < velocities_out@.len() ==> #[trigger] velocities_out@[slot] == (
                match spec_frame_output(frame, current - 1, slot) {
                    Some(particle) => particle.velocity,
                    None => old(velocities_out)@[slot],
                }),
        decreases cells + 1 - current,
    {
        proof {
            let view = spec_cell(
                settings,
                indices_main@,
                positions_in@,
                positions_out@,
                velocities_in@,
                velocities_out@,
                indices_aux@,
                positions_aux@,
                velocities_aux@,
                current as int,
            );
            assert(view == spec_at(frame, current as int));
            assert(view.centre_count() <= crate::physics::indices::MAX_PARTICLES_IN_CELL);
        }
        simulate_cell(
            settings,
            indices_main,
            positions_in,
            positions_out,
            velocities_in,
            velocities_out,
            indices_aux,
            positions_aux,
            velocities_aux,
            current,
            current == cells,
        );
        current += 1;
    }

    let ghost written_positions = positions_out@;
    let ghost written_velocities = velocities_out@;
    if cells >= 1 {
        proof {
            spec_at(frame, 1).lemma_cell_is_loadable();
        }
    }
    let mut current: usize = 1;
    while current <= cells
        invariant
            1 <= current <= cells + 1,
            cells == settings.main_cells(),
            settings.spec_countable(),
            cells >= 1 ==> frame.width() >= 1 && frame.height() >= 1,
            main_slots == old(indices_main)@.len(),
            aux_slots == old(indices_aux)@.len(),
            indices_main@.len() == main_slots,
            indices_aux@.len() == aux_slots,
            cells + 2 <= main_slots,
            settings.aux_cells() + 2 <= aux_slots,
            frame == spec_cell(
                settings,
                old(indices_main)@,
                positions_in@,
                old(positions_out)@,
                velocities_in@,
                old(velocities_out)@,
                old(indices_aux)@,
                positions_aux@,
                velocities_aux@,
                0,
            ),
            positions_out@ == written_positions,
            velocities_out@ == written_velocities,
            forall|slot: int|
                0 <= slot < main_slots ==> #[trigger] indices_main@[slot] == (if spec_main_cleared(
                    frame,
                    current - 1,
                    slot,
                ) {
                    0u32
                } else {
                    old(indices_main)@[slot]
                }),
            forall|slot: int|
                0 <= slot < aux_slots ==> #[trigger] indices_aux@[slot] == (if spec_aux_cleared(
                    frame,
                    current - 1,
                    slot,
                ) {
                    0u32
                } else {
                    old(indices_aux)@[slot]
                }),
        decreases cells + 1 - current,
    {
        proof {
            let view = spec_cell(
                settings,
                indices_main@,
                positions_in@,
                positions_out@,
                velocities_in@,
                velocities_out@,
                indices_aux@,
                positions_aux@,
                velocities_aux@,
                current as int,
            );
            let pristine = spec_at(frame, current as int);
            assert(view.width() == pristine.width() && view.height() == pristine.height());
            assert(view.aux_slot() == pristine.aux_slot());
            assert(view.last_slot() == pristine.last_slot());
            settings.lemma_corner_bounds(current - 1);
            assert forall|slot: int| view.clears_aux(slot) == pristine.clears_aux(slot) by {}
            assert forall|slot: int| view.clears_main(slot) == pristine.clears_main(slot) by {}
        }
        clear_cell(
            settings,
            indices_main,
            positions_in,
            positions_out,
            velocities_in,
            velocities_out,
            indices_aux,
            positions_aux,
            velocities_aux,
            current,
            current == cells,
        );
        current += 1;
    }
    proof {
        if cells >= 1 {
            assert forall|slot: int| 0 <= slot < main_slots implies #[trigger] indices_main@[slot]
                == (if slot < cells + 2 {
                0u32
            } else {
                old(indices_main)@[slot]
            }) by {
                lemma_all_cleared(frame, slot);
                lemma_clears_within(frame, cells as int, slot);
            }
            assert forall|slot: int| 0 <= slot < aux_slots implies #[trigger] indices_aux@[slot]
                == (if slot < settings.aux_cells() + 2 {
                0u32
            } else {
                old(indices_aux)@[slot]
            }) by {
                lemma_all_cleared(frame, slot);
                lemma_clears_within(frame, cells as int, slot);
            }
        }
    }
}

/// The cells clear nothing but counters: slots from 1 up to the guard item
/// of their grid.
pub proof fn lemma_clears_within(frame: CellView, done: int, slot: int)
    requires
        frame.settings.spec_countable(),
        0 <= done <= frame.last_slot(),
    ensures
        spec_main_cleared(frame, done, slot) ==> 1 <= slot <= frame.last_slot() + 1,
        spec_aux_cleared(frame, done, slot) ==> 1 <= slot <= frame.settings.aux_cells() + 1,
    decreases done,
{
    if done > 0 {
        lemma_clears_within(frame, done - 1, slot);
        frame.settings.lemma_corner_bounds(done - 1);
        let view = spec_at(frame, done);
        let w = frame.width();
        let h = frame.height();
        assert(view.aux_slot() == frame.settings.spec_corner(done - 1) + 1);
        assert((w + 1) * (h + 1) == frame.settings.aux_cells());
    }
}

/// After the physics pass every particle that it wrote is inside the
/// viewport, edges included, provided that the viewport has room; and no
/// component of its velocity is faster than one unit per tick.
pub proof fn lemma_frame_output_within_limits(frame: CellView, done: int, slot: int)
    requires
        spec_frame_output(frame, done, slot).is_some(),
    ensures
        spec_frame_output(frame, done, slot).unwrap().within_speed_limit(),
        frame.settings.has_room() ==> crate::config_shader::in_viewport(
            &frame.settings,
            spec_frame_output(frame, done, slot).unwrap().position,
        ),
    decreases done,
{
    if done > 0 {
        if spec_at(frame, done).output(slot).is_some() {
            crate::physics::cell::lemma_output_within_limits(&spec_at(frame, done), slot);
        } else {
            lemma_frame_output_within_limits(frame, done - 1, slot);
        }
    }
}

} // verus!
