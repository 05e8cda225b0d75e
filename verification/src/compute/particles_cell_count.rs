//! The pass that counts the particles of each spatial bin cell.

use crate::compute::buffers::BufferId;
use crate::compute::builder::{
    div_ceil, spec_div_ceil, AppComputeWorkerBuilder, PassView, PhysicsComputeWorker, ShaderId,
};
use crate::config_shader::ShaderWorldSettings;
use crate::math::Vec2;
use crate::shared::PARTICLE_WORKGROUP_LOCAL_SIZE;
use vstd::prelude::*;

verus! {

/// The shader that counts particles per cell.
pub struct ParticlesPerCellCounterShader;

impl ParticlesPerCellCounterShader {
    /// The workgroups for `total_particles` particles: one thread for each.
    pub fn workgroups(total_particles: u32) -> (r: [u32; 3])
        ensures
            r@ == seq![
                spec_div_ceil(total_particles as int, PARTICLE_WORKGROUP_LOCAL_SIZE as int) as u32,
                1u32,
                1u32,
            ],
    {
        let r = [div_ceil(total_particles, PARTICLE_WORKGROUP_LOCAL_SIZE), 1, 1];
        assert(r@ =~= seq![
            spec_div_ceil(total_particles as int, PARTICLE_WORKGROUP_LOCAL_SIZE as int) as u32,
            1u32,
            1u32,
        ]);
        r
    }

    /// Where the shader is found.
    pub fn shader() -> (r: &'static str)
        ensures
            r@ == "embedded://wrach_bevy/plugin/../../../../assets/shaders/particles_per_cell.wgsl"@,
    {
        "embedded://wrach_bevy/plugin/../../../../assets/shaders/particles_per_cell.wgsl"
    }

    /// The entry point of the shader.
    pub fn entry_point() -> (r: &'static str)
        ensures
            r@ == "main"@,
    {
        "main"
    }
}

/// The buffers that the counting pass is bound to.
pub open spec fn spec_count_buffers() -> Seq<BufferId> {
    seq![
        BufferId::WorldSettings,
        BufferId::PositionsIn,
        BufferId::IndicesMain,
        BufferId::IndicesAux,
    ]
}

impl PhysicsComputeWorker {
    /// Adds the pass that counts the number of particles per cell.
    pub fn particles_per_cell_count(builder: AppComputeWorkerBuilder, total_particles: u32) -> (r:
        AppComputeWorkerBuilder)
        ensures
            r.spec_passes() == builder.spec_passes().push(
                PassView {
                    shader: ShaderId::ParticlesPerCellCounter,
                    workgroups: seq![
                        spec_div_ceil(
                            total_particles as int,
                            PARTICLE_WORKGROUP_LOCAL_SIZE as int,
                        ) as u32,
                        1u32,
                        1u32,
                    ],
                    buffers: spec_count_buffers(),
                },
            ),
            r.settings == builder.settings,
            r.buffers == builder.buffers,
            r.extra_vertex_usage == builder.extra_vertex_usage,
    {
        let mut builder = builder;
        let buffers = [
            BufferId::WorldSettings,
            BufferId::PositionsIn,
            BufferId::IndicesMain,
            BufferId::IndicesAux,
        ];
        assert(buffers@ =~= spec_count_buffers());
        builder.add_pass(
            ShaderId::ParticlesPerCellCounter,
            ParticlesPerCellCounterShader::workgroups(total_particles),
            &buffers,
        );
        builder
    }
}

/// How many of the first `count` particles lie in main cell `cell`.
pub open spec fn spec_population(
    settings: &ShaderWorldSettings,
    positions: Seq<Vec2>,
    count: int,
    cell: int,
) -> int
    decreases count,
{
    if count <= 0 {
        0
    } else {
        spec_population(settings, positions, count - 1, cell) + (if settings.spec_main_cell(
            positions[count - 1],
        ) == Some(cell) {
            1int
        } else {
            0int
        })
    }
}

/// Particle `position` lies in a main cell of which `aux` is a corner.
pub open spec fn spec_touches(settings: &ShaderWorldSettings, position: Vec2, aux: int) -> bool {
    match settings.spec_main_cell(position) {
        Some(cell) => settings.spec_is_corner(cell, aux),
        None => false,
    }
}

/// How many of the first `count` particles lie in a main cell of which
/// auxiliary cell `aux` is a corner.
pub open spec fn spec_aux_population(
    settings: &ShaderWorldSettings,
    positions: Seq<Vec2>,
    count: int,
    aux: int,
) -> int
    decreases count,
{
    if count <= 0 {
        0
    } else {
        spec_aux_population(settings, positions, count - 1, aux) + (if spec_touches(
            settings,
            positions[count - 1],
            aux,
        ) {
            1int
        } else {
            0int
        })
    }
}

/// A cell holds no more particles than there are.
pub proof fn lemma_population_bounds(
    settings: &ShaderWorldSettings,
    positions: Seq<Vec2>,
    count: int,
    cell: int,
)
    requires
        0 <= count,
    ensures
        0 <= spec_population(settings, positions, count, cell) <= count,
        0 <= spec_aux_population(settings, positions, count, cell) <= count,
    decreases count,
{
    if count > 0 {
        lemma_population_bounds(settings, positions, count - 1, cell);
    }
}

/// The counters of both grids are at zero: the first `main_cells + 2` items
/// of the main index buffer and the first `aux_cells + 2` items of the
/// auxiliary index buffer.
pub open spec fn spec_counters_clear(
    settings: &ShaderWorldSettings,
    indices_main: Seq<u32>,
    indices_aux: Seq<u32>,
) -> bool {
    &&& settings.main_cells() + 2 <= indices_main.len()
    &&& settings.aux_cells() + 2 <= indices_aux.len()
    &&& forall|slot: int| 0 <= slot < settings.main_cells() + 2 ==> #[trigger] indices_main[slot]
        == 0
    &&& forall|slot: int| 0 <= slot < settings.aux_cells() + 2 ==> #[trigger] indices_aux[slot] == 0
}

/// The counting pass: every particle of the frame that lies in the grid is
/// counted in the slot of its main cell and in the slots of the four
/// auxiliary cells at the corners of that cell. The slot of a cell is one
/// after its number. A particle outside the grid is not counted at all.
pub fn count_particles(
    settings: &ShaderWorldSettings,
    positions: &[Vec2],
    indices_main: &mut [u32],
    indices_aux: &mut [u32],
)
    requires
        settings.spec_countable(),
        settings.particles_in_frame_count <= positions@.len(),
        spec_counters_clear(settings, old(indices_main)@, old(indices_aux)@),
    ensures
        final(indices_main)@.len() == old(indices_main)@.len(),
        final(indices_aux)@.len() == old(indices_aux)@.len(),
        forall|slot: int|
            0 <= slot < old(indices_main)@.len() ==> #[trigger] final(indices_main)@[slot] == (if 1
                <= slot <= settings.main_cells() {
                spec_population(
                    settings,
                    positions@,
                    settings.particles_in_frame_count as int,
                    slot - 1,
                ) as u32
            } else {
                old(indices_main)@[slot]
            }),
        forall|slot: int|
            0 <= slot < old(indices_aux)@.len() ==> #[trigger] final(indices_aux)@[slot] == (if 1
                <= slot <= settings.aux_cells() {
                spec_aux_population(
                    settings,
                    positions@,
                    settings.particles_in_frame_count as int,
                    slot - 1,
                ) as u32
            } else {
                old(indices_aux)@[slot]
            }),
{
    let count = settings.particles_in_frame_count as usize;
    let width = settings.grid_dimensions.x as usize;
    let main_slots = indices_main.len();
    let aux_slots = indices_aux.len();
    proof {
        settings.lemma_grid_bounds();
    }
    let mut i: usize = 0;
    while i < count
        invariant
            0 <= i <= count,
            count == settings.particles_in_frame_count,
            count <= positions@.len(),
            width == settings.grid_dimensions.x,
            settings.spec_countable(),
            main_slots == old(indices_main)@.len(),
            aux_slots == old(indices_aux)@.len(),
            indices_main@.len() == main_slots,
            indices_aux@.len() == aux_slots,
            settings.main_cells() + 2 <= main_slots,
            settings.aux_cells() + 2 <= aux_slots,
            0 <= settings.main_cells() <= settings.aux_cells(),
            forall|slot: int|
                0 <= slot < main_slots ==> #[trigger] indices_main@[slot] == (if 1 <= slot
                    <= settings.main_cells() {
                    spec_population(settings, positions@, i as int, slot - 1) as u32
                } else {
                    old(indices_main)@[slot]
                }),
            forall|slot: int|
                0 <= slot < aux_slots ==> #[trigger] indices_aux@[slot] == (if 1 <= slot
                    <= settings.aux_cells() {
                    spec_aux_population(settings, positions@, i as int, slot - 1) as u32
                } else {
                    old(indices_aux)@[slot]
                }),
        decreases count - i,
    {
        let ghost main_before = indices_main@;
        let ghost aux_before = indices_aux@;
        match settings.main_cell(positions[i]) {
            Some(cell) => {
                let corner = settings.corner(cell) as usize;
                let slot = cell as usize + 1;
                proof {
                    settings.lemma_corner_bounds(cell as int);
                    lemma_population_bounds(settings, positions@, i as int, cell as int);
                    lemma_population_bounds(settings, positions@, i as int, corner as int);
                    lemma_population_bounds(settings, positions@, i as int, corner + 1);
                    lemma_population_bounds(settings, positions@, i as int, corner + width + 1);
                    lemma_population_bounds(settings, positions@, i as int, corner + width + 2);
                    lemma_population_bounds(settings, positions@, i as int + 1, cell as int);
                    lemma_population_bounds(settings, positions@, i as int + 1, corner as int);
                    lemma_population_bounds(settings, positions@, i as int + 1, corner + 1);
                    lemma_population_bounds(settings, positions@, i as int + 1, corner + width + 1);
                    lemma_population_bounds(settings, positions@, i as int + 1, corner + width + 2);
                    assert(main_before[slot as int] == spec_population(
                        settings,
                        positions@,
                        i as int,
                        cell as int,
                    ));
                    assert(aux_before[corner + 1] == spec_aux_population(
                        settings,
                        positions@,
                        i as int,
                        corner as int,
                    ));
                    assert(aux_before[corner + 2] == spec_aux_population(
                        settings,
                        positions@,
                        i as int,
                        corner + 1,
                    ));
                    assert(aux_before[corner + width + 2] == spec_aux_population(
                        settings,
                        positions@,
                        i as int,
                        corner + width + 1,
                    ));
                    assert(aux_before[corner + width + 3] == spec_aux_population(
                        settings,
                        positions@,
                        i as int,
                        corner + width + 2,
                    ));
                }
                indices_main[slot] = indices_main[slot] + 1;
                indices_aux[corner + 1] = indices_aux[corner + 1] + 1;
                indices_aux[corner + 2] = indices_aux[corner + 2] + 1;
                indices_aux[corner + width + 2] = indices_aux[corner + width + 2] + 1;
                indices_aux[corner + width + 3] = indices_aux[corner + width + 3] + 1;
            },
            None => {},
        }
        i += 1;
    }
}

/// The populations of the first `cells` main cells among the first `count`
/// particles, added up.
pub open spec fn spec_population_before(
    settings: &ShaderWorldSettings,
    positions: Seq<Vec2>,
    count: int,
    cells: int,
) -> int
    decreases cells,
{
    if cells <= 0 {
        0
    } else {
        spec_population_before(settings, positions, count, cells - 1) + spec_population(
            settings,
            positions,
            count,
            cells - 1,
        )
    }
}

/// The populations of the first `cells` auxiliary cells among the first
/// `count` particles, added up.
pub open spec fn spec_aux_population_before(
    settings: &ShaderWorldSettings,
    positions: Seq<Vec2>,
    count: int,
    cells: int,
) -> int
    decreases cells,
{
    if cells <= 0 {
        0
    } else {
        spec_aux_population_before(settings, positions, count, cells - 1) + spec_aux_population(
            settings,
            positions,
            count,
            cells - 1,
        )
    }
}

/// How many of the first `cells` auxiliary cells are corners of main cell
/// `cell`.
pub open spec fn spec_corners_below(settings: &ShaderWorldSettings, cell: int, cells: int) -> int
    decreases cells,
{
    if cells <= 0 {
        0
    } else {
        spec_corners_below(settings, cell, cells - 1) + (if settings.spec_is_corner(
            cell,
            cells - 1,
        ) {
            1int
        } else {
            0int
        })
    }
}

/// A main cell has no more than four corners.
pub proof fn lemma_four_corners(settings: &ShaderWorldSettings, cell: int, cells: int)
    requires
        settings.grid_dimensions.x >= 1,
        0 <= cells,
    ensures
        0 <= spec_corners_below(settings, cell, cells) <= 4,
        spec_corners_below(settings, cell, cells) == ({
            let corner = settings.spec_corner(cell);
            let width = settings.grid_dimensions.x as int;
            (if 0 <= corner < cells {
                1int
            } else {
                0int
            }) + (if 0 <= corner + 1 < cells {
                1int
            } else {
                0int
            }) + (if 0 <= corner + width + 1 < cells {
                1int
            } else {
                0int
            }) + (if 0 <= corner + width + 2 < cells {
                1int
            } else {
                0int
            })
        }),
    decreases cells,
{
    if cells > 0 {
        lemma_four_corners(settings, cell, cells - 1);
    }
}

/// The populations of the main cells together are no more than the particles
/// counted, and those of the auxiliary cells no more than four times as
/// many.
pub proof fn lemma_population_totals(
    settings: &ShaderWorldSettings,
    positions: Seq<Vec2>,
    count: int,
    cells: int,
)
    requires
        0 <= count,
        0 <= cells,
        settings.grid_dimensions.x >= 1,
    ensures
        0 <= spec_population_before(settings, positions, count, cells) <= count,
        0 <= spec_aux_population_before(settings, positions, count, cells) <= 4 * count,
    decreases count,
{
    lemma_population_step(settings, positions, count, cells);
    if count > 0 {
        lemma_population_totals(settings, positions, count - 1, cells);
        match settings.spec_main_cell(positions[count - 1]) {
            Some(cell) => {
                lemma_four_corners(settings, cell, cells);
            },
            None => {},
        }
    }
}

/// What one more particle adds to the populations of the first `cells`
/// cells.
pub proof fn lemma_population_step(
    settings: &ShaderWorldSettings,
    positions: Seq<Vec2>,
    count: int,
    cells: int,
)
    requires
        0 <= count,
        0 <= cells,
    ensures
        count == 0 ==> spec_population_before(settings, positions, count, cells) == 0
            && spec_aux_population_before(settings, positions, count, cells) == 0,
        count > 0 ==> spec_population_before(settings, positions, count, cells)
            == spec_population_before(settings, positions, count - 1, cells) + (
        match settings.spec_main_cell(positions[count - 1]) {
            Some(cell) => if 0 <= cell < cells {
                1int
            } else {
                0int
            },
            None => 0int,
        }),
        count > 0 ==> spec_aux_population_before(settings, positions, count, cells)
            == spec_aux_population_before(settings, positions, count - 1, cells) + (
        match settings.spec_main_cell(positions[count - 1]) {
            Some(cell) => spec_corners_below(settings, cell, cells),
            None => 0int,
        }),
    decreases cells,
{
    if cells > 0 {
        lemma_population_step(settings, positions, count, cells - 1);
    }
}

/// The sums of the counters of the main grid are the populations added up:
/// with the population of every cell in the slot after its number, and zero
/// in slot 0, the sum of the first `slots` counters is the population of the
/// cells before cell `slots - 1`.
pub proof fn lemma_counter_sums(
    settings: &ShaderWorldSettings,
    positions: Seq<Vec2>,
    count: int,
    indices_main: Seq<u32>,
    slots: int,
)
    requires
        0 <= count,
        0 <= slots <= indices_main.len(),
        indices_main.len() > 0 ==> indices_main[0] == 0,
        forall|slot: int|
            1 <= slot < slots ==> #[trigger] indices_main[slot] == spec_population(
                settings,
                positions,
                count,
                slot - 1,
            ),
    ensures
        crate::compute::prefix_sum::spec_sum(indices_main, 0, slots) == spec_population_before(
            settings,
            positions,
            count,
            slots - 1,
        ),
    decreases slots,
{
    if slots > 0 {
        lemma_counter_sums(settings, positions, count, indices_main, slots - 1);
        if slots > 1 {
            assert(indices_main[slots - 1] == spec_population(
                settings,
                positions,
                count,
                slots - 2,
            ));
        }
    }
}

/// The sums of the counters of the auxiliary grid are the populations added
/// up.
pub proof fn lemma_aux_counter_sums(
    settings: &ShaderWorldSettings,
    positions: Seq<Vec2>,
    count: int,
    indices_aux: Seq<u32>,
    slots: int,
)
    requires
        0 <= count,
        0 <= slots <= indices_aux.len(),
        indices_aux.len() > 0 ==> indices_aux[0] == 0,
        forall|slot: int|
            1 <= slot < slots ==> #[trigger] indices_aux[slot] == spec_aux_population(
                settings,
                positions,
                count,
                slot - 1,
            ),
    ensures
        crate::compute::prefix_sum::spec_sum(indices_aux, 0, slots) == spec_aux_population_before(
            settings,
            positions,
            count,
            slots - 1,
        ),
    decreases slots,
{
    if slots > 0 {
        lemma_aux_counter_sums(settings, positions, count, indices_aux, slots - 1);
        if slots > 1 {
            assert(indices_aux[slots - 1] == spec_aux_population(
                settings,
                positions,
                count,
                slots - 2,
            ));
        }
    }
}

} // verus!
