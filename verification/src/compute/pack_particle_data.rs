//! The pass that, with the prefix sums of the cells at hand, packs the
//! particles cell by cell, ready for the physics of the frame.

use crate::compute::buffers::BufferId;
use crate::compute::builder::{
    div_ceil, spec_div_ceil, AppComputeWorkerBuilder, PassView, PhysicsComputeWorker, ShaderId,
};
use crate::compute::particles_cell_count::{
    lemma_population_bounds, spec_aux_population, spec_population, spec_touches,
};
use crate::config_shader::ShaderWorldSettings;
use crate::math::Vec2;
use crate::shared::PARTICLE_WORKGROUP_LOCAL_SIZE;
use vstd::prelude::*;

verus! {

/// The shader that packs the particles for the frame.
pub struct PackNewParticleDataShader;

impl PackNewParticleDataShader {
    /// The workgroups for `total_particles` particles: one thread for each.
    pub fn workgroups(total_particles: u32) -> (r: [u32; 3])
        ensures
            r@ == seq![
                spec_div_ceil(total_particles as int, PARTICLE_WORKGROUP_LOCAL_SIZE as int) as u32,
                1u32,
                1u32,
            ],
    {
        let r = [div_ceil(total_particles, PARTICLE_WORKGROUP_LOCAL_SIZE), 1, 1];
        assert(r@ =~= seq![
            spec_div_ceil(total_particles as int, PARTICLE_WORKGROUP_LOCAL_SIZE as int) as u32,
            1u32,
            1u32,
        ]);
        r
    }

    /// Where the shader is found.
    pub fn shader() -> (r: &'static str)
        ensures
            r@ == "embedded://wrach_bevy/plugin/../../../../assets/shaders/pack_new_particle_data.wgsl"@,
    {
        "embedded://wrach_bevy/plugin/../../../../assets/shaders/pack_new_particle_data.wgsl"
    }

    /// The entry point of the shader.
    pub fn entry_point() -> (r: &'static str)
        ensures
            r@ == "main"@,
    {
        "main"
    }
}

/// The buffers that the packing pass is bound to.
pub open spec fn spec_pack_buffers() -> Seq<BufferId> {
    seq![
        BufferId::WorldSettings,
        BufferId::IndicesMain,
        BufferId::PositionsIn,
        BufferId::VelocitiesIn,
        BufferId::IndicesAux,
        BufferId::PositionsAux,
        BufferId::VelocitiesAux,
    ]
}

impl PhysicsComputeWorker {
    /// Adds the pass that packs the particle data.
    pub fn particle_data(builder: AppComputeWorkerBuilder, total_particles: u32) -> (r:
        AppComputeWorkerBuilder)
        ensures
            r.spec_passes() == builder.spec_passes().push(
                PassView {
                    shader: ShaderId::PackNewParticleData,
                    workgroups: seq![
                        spec_div_ceil(
                            total_particles as int,
                            PARTICLE_WORKGROUP_LOCAL_SIZE as int,
                        ) as u32,
                        1u32,
                        1u32,
                    ],
                    buffers: spec_pack_buffers(),
                },
            ),
            r.settings == builder.settings,
            r.buffers == builder.buffers,
            r.extra_vertex_usage == builder.extra_vertex_usage,
    {
        let mut builder = builder;
        let buffers = [
            BufferId::WorldSettings,
            BufferId::IndicesMain,
            BufferId::PositionsIn,
            BufferId::VelocitiesIn,
            BufferId::IndicesAux,
            BufferId::PositionsAux,
            BufferId::VelocitiesAux,
        ];
        assert(buffers@ =~= spec_pack_buffers());
        builder.add_pass(
            ShaderId::PackNewParticleData,
            PackNewParticleDataShader::workgroups(total_particles),
            &buffers,
        );
        builder
    }
}

/// The numbers of those of the first `count` particles that lie in main cell
/// `cell`, in order.
pub open spec fn spec_members(
    settings: &ShaderWorldSettings,
    positions: Seq<Vec2>,
    count: int,
    cell: int,
) -> Seq<int>
    decreases count,
{
    if count <= 0 {
        Seq::empty()
    } else {
        let rest = spec_members(settings, positions, count - 1, cell);
        if settings.spec_main_cell(positions[count - 1]) == Some(cell) {
            rest.push(count - 1)
        } else {
            rest
        }
    }
}

/// The numbers of those of the first `count` particles that lie in a main
/// cell of which auxiliary cell `aux` is a corner, in order.
pub open spec fn spec_aux_members(
    settings: &ShaderWorldSettings,
    positions: Seq<Vec2>,
    count: int,
    aux: int,
) -> Seq<int>
    decreases count,
{
    if count <= 0 {
        Seq::empty()
    } else {
        let rest = spec_aux_members(settings, positions, count - 1, aux);
        if spec_touches(settings, positions[count - 1], aux) {
            rest.push(count - 1)
        } else {
            rest
        }
    }
}

/// The members of a cell are as many as its population, they are particles
/// of the frame that lie in the cell, and they grow with the count.
pub proof fn lemma_members(
    settings: &ShaderWorldSettings,
    positions: Seq<Vec2>,
    earlier: int,
    count: int,
    cell: int,
)
    requires
        0 <= earlier <= count,
    ensures
        spec_members(settings, positions, count, cell).len() == spec_population(
            settings,
            positions,
            count,
            cell,
        ),
        spec_aux_members(settings, positions, count, cell).len() == spec_aux_population(
            settings,
            positions,
            count,
            cell,
        ),
        spec_members(settings, positions, earlier, cell).len() <= spec_members(
            settings,
            positions,
            count,
            cell,
        ).len(),
        spec_aux_members(settings, positions, earlier, cell).len() <= spec_aux_members(
            settings,
            positions,
            count,
            cell,
        ).len(),
        forall|j: int|
            0 <= j < spec_members(settings, positions, count, cell).len() ==> {
                let member = #[trigger] spec_members(settings, positions, count, cell)[j];
                0 <= member < count && settings.spec_main_cell(positions[member]) == Some(cell)
            },
        forall|j: int|
            0 <= j < spec_aux_members(settings, positions, count, cell).len() ==> {
                let member = #[trigger] spec_aux_members(settings, positions, count, cell)[j];
                0 <= member < count && spec_touches(settings, positions[member], cell)
            },
    decreases count,
{
    if count > 0 {
        if earlier < count {
            lemma_members(settings, positions, earlier, count - 1, cell);
        } else {
            lemma_members(settings, positions, count - 1, count - 1, cell);
        }
    }
}

/// The slot of particle `j` of the cell `cell` whose range starts at
/// `starts[cell + 1]`.
pub open spec fn spec_slot(starts: Seq<u32>, cell: int, j: int) -> int {
    starts[cell + 1] + j
}

/// `positions` and `velocities` hold, for every cell, the particles of
/// `lists` from the start of the cell's range on: particle `lists[cell][j]`
/// of the source buffers is in slot `starts[cell + 1] + j`. No cell has more
/// particles than its range has room for, and what lies behind the range of
/// the last cell is as it was in the buffers `kept_positions` and
/// `kept_velocities`.
pub open spec fn spec_is_packed(
    starts: Seq<u32>,
    lists: Seq<Seq<int>>,
    positions: Seq<Vec2>,
    velocities: Seq<Vec2>,
    source_positions: Seq<Vec2>,
    source_velocities: Seq<Vec2>,
    kept_positions: Seq<Vec2>,
    kept_velocities: Seq<Vec2>,
) -> bool {
    &&& lists.len() + 2 <= starts.len()
    &&& positions.len() == kept_positions.len()
    &&& velocities.len() == kept_velocities.len()
    &&& starts[lists.len() as int + 1] <= positions.len()
    &&& starts[lists.len() as int + 1] <= velocities.len()
    &&& forall|cell: int|
        0 <= cell < lists.len() ==> starts[cell + 1] + (#[trigger] lists[cell]).len() <= starts[cell
            + 2]
    &&& forall|cell: int, j: int|
        0 <= cell < lists.len() && 0 <= j < lists[cell].len() ==> #[trigger] positions[spec_slot(
            starts,
            cell,
            j,
        )] == source_positions[lists[cell][j]]
    &&& forall|cell: int, j: int|
        0 <= cell < lists.len() && 0 <= j < lists[cell].len() ==> #[trigger] velocities[spec_slot(
            starts,
            cell,
            j,
        )] == source_velocities[lists[cell][j]]
    &&& forall|slot: int|
        starts[lists.len() as int + 1] <= slot < positions.len() ==> #[trigger] positions[slot]
            == kept_positions[slot]
    &&& forall|slot: int|
        starts[lists.len() as int + 1] <= slot < velocities.len() ==> #[trigger] velocities[slot]
            == kept_velocities[slot]
}

/// The members of all main cells among the first `count` particles.
pub open spec fn spec_main_lists(
    settings: &ShaderWorldSettings,
    positions: Seq<Vec2>,
    count: int,
) -> Seq<Seq<int>> {
    Seq::new(
        settings.main_cells() as nat,
        |cell: int| spec_members(settings, positions, count, cell),
    )
}

/// The members of all auxiliary cells among the first `count` particles.
pub open spec fn spec_aux_lists(
    settings: &ShaderWorldSettings,
    positions: Seq<Vec2>,
    count: int,
) -> Seq<Seq<int>> {
    Seq::new(
        settings.aux_cells() as nat,
        |aux: int| spec_aux_members(settings, positions, count, aux),
    )
}

/// The index buffers hold the running totals of the populations: item 0 is
/// zero, and the item after the slot of a cell is the item of the slot plus
/// the population of the cell.
pub open spec fn spec_totals_of(
    settings: &ShaderWorldSettings,
    positions: Seq<Vec2>,
    indices_main: Seq<u32>,
    indices_aux: Seq<u32>,
) -> bool {
    let count = settings.particles_in_frame_count as int;
    &&& settings.main_cells() + 2 <= indices_main.len()
    &&& settings.aux_cells() + 2 <= indices_aux.len()
    &&& indices_main[0] == 0
    &&& indices_main[1] == 0
    &&& indices_aux[0] == 0
    &&& indices_aux[1] == 0
    &&& forall|cell: int|
        0 <= cell < settings.main_cells() ==> #[trigger] indices_main[cell + 2] == indices_main[cell
            + 1] + spec_population(settings, positions, count, cell)
    &&& forall|aux: int|
        0 <= aux < settings.aux_cells() ==> #[trigger] indices_aux[aux + 2] == indices_aux[aux + 1]
            + spec_aux_population(settings, positions, count, aux)
}

/// Buffers of running totals do not decrease.
pub proof fn lemma_totals_ordered(
    starts: Seq<u32>,
    lists: Seq<Seq<int>>,
    first: int,
    second: int,
)
    requires
        lists.len() + 2 <= starts.len(),
        forall|cell: int|
            0 <= cell < lists.len() ==> starts[cell + 1] + (#[trigger] lists[cell]).len() <=
                starts[cell
                + 2],
        0 <= first <= second <= lists.len(),
    ensures
        starts[first + 1] <= starts[second + 1],
    decreases second - first,
{
    if first < second {
        lemma_totals_ordered(starts, lists, first, second - 1);
        assert(starts[(second - 1) + 1] + lists[second - 1].len() <= starts[(second - 1) + 2]);
    }
}

/// Puts one particle into the next free slot of the range of cell `cell`.
fn place(
    starts: &[u32],
    offsets: &mut Vec<u32>,
    positions: &mut [Vec2],
    velocities: &mut [Vec2],
    cell: usize,
    position: Vec2,
    velocity: Vec2,
    Ghost(lists): Ghost<Seq<Seq<int>>>,
    Ghost(source_positions): Ghost<Seq<Vec2>>,
    Ghost(source_velocities): Ghost<Seq<Vec2>>,
    Ghost(kept_positions): Ghost<Seq<Vec2>>,
    Ghost(kept_velocities): Ghost<Seq<Vec2>>,
    Ghost(member): Ghost<int>,
)
    requires
        cell < lists.len(),
        old(offsets)@.len() == lists.len(),
        forall|c: int| 0 <= c < lists.len() ==> #[trigger] old(offsets)@[c] == lists[c].len(),
        spec_is_packed(
            starts@,
            lists,
            old(positions)@,
            old(velocities)@,
            source_positions,
            source_velocities,
            kept_positions,
            kept_velocities,
        ),
        starts@[cell + 1] + lists[cell as int].len() < starts@[cell + 2],
        0 <= member < source_positions.len(),
        member < source_velocities.len(),
        position == source_positions[member],
        velocity == source_velocities[member],
    ensures
        final(offsets)@.len() == lists.len(),
        forall|c: int|
            0 <= c < lists.len() ==> #[trigger] final(offsets)@[c] == lists.update(
                cell as int,
                lists[cell as int].push(member),
            )[c].len(),
        spec_is_packed(
            starts@,
            lists.update(cell as int, lists[cell as int].push(member)),
            final(positions)@,
            final(velocities)@,
            source_positions,
            source_velocities,
            kept_positions,
            kept_velocities,
        ),
{
    let ghost after = lists.update(cell as int, lists[cell as int].push(member));
    let ghost cells = lists.len() as int;
    proof {
        lemma_totals_ordered(starts@, lists, cell as int + 1, cells);
    }
    let slots = starts.len();
    let start = starts[cell + 1];
    let offset = offsets[cell];
    proof {
        assert(old(offsets)@[cell as int] == lists[cell as int].len());
    }
    let slot = (start + offset) as usize;
    positions[slot] = position;
    velocities[slot] = velocity;
    offsets[cell] = offset + 1;
    proof {
        assert forall|c: int| 0 <= c < after.len() implies starts@[c + 1] + (#[trigger]
            after[c]).len()
            <= starts@[c + 2] by {
            assert(starts@[c + 1] + lists[c].len() <= starts@[c + 2]);
        }
        assert forall|c: int, j: int| 0 <= c < after.len() && 0 <= j < after[c].len() implies
            #[trigger] positions@[spec_slot(
            starts@,
            c,
            j,
        )] == source_positions[after[c][j]] by {
            lemma_totals_ordered(starts@, lists, c + 1, cells);
            assert(starts@[c + 1] + lists[c].len() <= starts@[c + 2]);
            assert(positions@ == old(positions)@.update(start + offset, position));
            assert(velocities@ == old(velocities)@.update(start + offset, velocity));
            if c == cell {
                if j < lists[c].len() {
                    assert(old(positions)@[spec_slot(starts@, c, j)]
                        == source_positions[lists[c][j]]);
                    assert(old(velocities)@[spec_slot(starts@, c, j)]
                        == source_velocities[lists[c][j]]);
                }
            } else {
                assert(starts@[c + 1] + lists[c].len() <= starts@[c + 2]);
                if c < cell {
                    lemma_totals_ordered(starts@, lists, c + 1, cell as int);
                } else {
                    lemma_totals_ordered(starts@, lists, cell as int + 1, c);
                }
                assert(old(positions)@[spec_slot(starts@, c, j)]
                    == source_positions[lists[c][j]]);
                assert(old(velocities)@[spec_slot(starts@, c, j)]
                    == source_velocities[lists[c][j]]);
            }
        }
        assert forall|c: int, j: int| 0 <= c < after.len() && 0 <= j < after[c].len() implies
            #[trigger] velocities@[spec_slot(
            starts@,
            c,
            j,
        )] == source_velocities[after[c][j]] by {
            lemma_totals_ordered(starts@, lists, c + 1, cells);
            assert(starts@[c + 1] + lists[c].len() <= starts@[c + 2]);
            assert(positions@ == old(positions)@.update(start + offset, position));
            assert(velocities@ == old(velocities)@.update(start + offset, velocity));
            if c == cell {
                if j < lists[c].len() {
                    assert(old(positions)@[spec_slot(starts@, c, j)]
                        == source_positions[lists[c][j]]);
                    assert(old(velocities)@[spec_slot(starts@, c, j)]
                        == source_velocities[lists[c][j]]);
                }
            } else {
                assert(starts@[c + 1] + lists[c].len() <= starts@[c + 2]);
                if c < cell {
                    lemma_totals_ordered(starts@, lists, c + 1, cell as int);
                } else {
                    lemma_totals_ordered(starts@, lists, cell as int + 1, c);
                }
                assert(old(positions)@[spec_slot(starts@, c, j)]
                    == source_positions[lists[c][j]]);
                assert(old(velocities)@[spec_slot(starts@, c, j)]
                    == source_velocities[lists[c][j]]);
            }
        }
    }
}

/// The packing pass: with the running totals of both grids at hand, every
/// particle of the frame that lies in the grid is put into the range of its
/// main cell, behind the particles that came before it, and into the ranges
/// of the four auxiliary cells at the corners of that cell. The particles of
/// the main grid are packed in place; what lies behind the last range is
/// left as it was.
pub fn pack_particles(
    settings: &ShaderWorldSettings,
    indices_main: &[u32],
    positions_in: &mut [Vec2],
    velocities_in: &mut [Vec2],
    indices_aux: &[u32],
    positions_aux: &mut [Vec2],
    velocities_aux: &mut [Vec2],
)
    requires
        settings.spec_countable(),
        settings.particles_in_frame_count <= old(positions_in)@.len(),
        settings.particles_in_frame_count <= old(velocities_in)@.len(),
        spec_totals_of(settings, old(positions_in)@, indices_main@, indices_aux@),
        indices_main@[settings.main_cells() + 1] <= old(positions_in)@.len(),
        indices_main@[settings.main_cells() + 1] <= old(velocities_in)@.len(),
        indices_aux@[settings.aux_cells() + 1] <= old(positions_aux)@.len(),
        indices_aux@[settings.aux_cells() + 1] <= old(velocities_aux)@.len(),
    ensures
        spec_is_packed(
            indices_main@,
            spec_main_lists(
                settings,
                old(positions_in)@,
                settings.particles_in_frame_count as int,
            ),
            final(positions_in)@,
            final(velocities_in)@,
            old(positions_in)@,
            old(velocities_in)@,
            old(positions_in)@,
            old(velocities_in)@,
        ),
        spec_is_packed(
            indices_aux@,
            spec_aux_lists(settings, old(positions_in)@, settings.particles_in_frame_count as int),
            final(positions_aux)@,
            final(velocities_aux)@,
            old(positions_in)@,
            old(velocities_in)@,
            old(positions_aux)@,
            old(velocities_aux)@,
        ),
{
    let count = settings.particles_in_frame_count as usize;
    let width = settings.grid_dimensions.x as usize;
    proof {
        settings.lemma_grid_bounds();
    }
    let main_cells = settings_main_cells(settings);
    let source_positions = vstd::slice::slice_to_vec(positions_in);
    let source_velocities = vstd::slice::slice_to_vec(velocities_in);
    let mut offsets_main: Vec<u32> = zeros(main_cells);
    let aux_cells = settings_aux_cells(settings);
    let mut offsets_aux: Vec<u32> = zeros(aux_cells);
    let ghost source = old(positions_in)@;
    let ghost speeds = old(velocities_in)@;
    let ghost kept_positions = old(positions_aux)@;
    let ghost kept_velocities = old(velocities_aux)@;
    proof {
        assert forall|cell: int| 0 <= cell < settings.main_cells() implies indices_main@[cell + 1]
            <= #[trigger] indices_main@[cell + 2] by {
            lemma_population_bounds(settings, source, count as int, cell);
        }
        assert forall|aux: int| 0 <= aux < settings.aux_cells() implies indices_aux@[aux + 1]
            <= #[trigger] indices_aux@[aux + 2] by {
            lemma_population_bounds(settings, source, count as int, aux);
        }
        assert(spec_main_lists(settings, source, 0) =~= Seq::new(
            settings.main_cells() as nat,
            |cell: int| Seq::<int>::empty(),
        ));
        assert(spec_aux_lists(settings, source, 0) =~= Seq::new(
            settings.aux_cells() as nat,
            |aux: int| Seq::<int>::empty(),
        ));
    }
    let mut i: usize = 0;
    while i < count
        invariant
            0 <= i <= count,
            count == settings.particles_in_frame_count,
            count <= source.len(),
            count <= speeds.len(),
            width == settings.grid_dimensions.x,
            settings.spec_countable(),
            source == old(positions_in)@,
            speeds == old(velocities_in)@,
            source_positions@ == source,
            source_velocities@ == speeds,
            kept_positions == old(positions_aux)@,
            kept_velocities == old(velocities_aux)@,
            spec_totals_of(settings, source, indices_main@, indices_aux@),
            0 <= settings.main_cells() <= settings.aux_cells(),
            offsets_main@.len() == settings.main_cells(),
            offsets_aux@.len() == settings.aux_cells(),
            forall|c: int|
                0 <= c < settings.main_cells() ==> #[trigger] offsets_main@[c] == spec_main_lists(
                    settings,
                    source,
                    i as int,
                )[c].len(),
            forall|c: int|
                0 <= c < settings.aux_cells() ==> #[trigger] offsets_aux@[c] == spec_aux_lists(
                    settings,
                    source,
                    i as int,
                )[c].len(),
            spec_is_packed(
                indices_main@,
                spec_main_lists(settings, source, i as int),
                positions_in@,
                velocities_in@,
                source,
                speeds,
                source,
                speeds,
            ),
            spec_is_packed(
                indices_aux@,
                spec_aux_lists(settings, source, i as int),
                positions_aux@,
                velocities_aux@,
                source,
                speeds,
                kept_positions,
                kept_velocities,
            ),
        decreases count - i,
    {
        let position = source_positions[i];
        let velocity = source_velocities[i];
        let ghost main_lists = spec_main_lists(settings, source, i as int);
        let ghost aux_lists = spec_aux_lists(settings, source, i as int);
        match settings.main_cell(position) {
            Some(cell) => {
                let corner = settings.corner(cell) as usize;
                proof {
                    settings.lemma_corner_bounds(cell as int);
                    lemma_members(settings, source, i as int + 1, count as int, cell as int);
                    lemma_members(settings, source, i as int + 1, count as int, corner as int);
                    lemma_members(settings, source, i as int + 1, count as int, corner + 1);
                    lemma_members(settings, source, i as int + 1, count as int, corner + width + 1);
                    lemma_members(settings, source, i as int + 1, count as int, corner + width + 2);
                    assert(indices_main@[cell as int + 2] == indices_main@[cell as int + 1]
                        + spec_population(settings, source, count as int, cell as int));
                    assert(indices_aux@[corner as int + 2] == indices_aux@[corner as int + 1]
                        + spec_aux_population(settings, source, count as int, corner as int));
                    assert(indices_aux@[(corner + 1) + 2] == indices_aux@[(corner + 1) + 1]
                        + spec_aux_population(settings, source, count as int, corner + 1));
                    assert(indices_aux@[(corner + width + 1) + 2] == indices_aux@[(corner + width
                        + 1) + 1] + spec_aux_population(
                        settings,
                        source,
                        count as int,
                        corner + width + 1,
                    ));
                    assert(indices_aux@[(corner + width + 2) + 2] == indices_aux@[(corner + width
                        + 2) + 1] + spec_aux_population(
                        settings,
                        source,
                        count as int,
                        corner + width + 2,
                    ));
                }
                place(
                    indices_main,
                    &mut offsets_main,
                    positions_in,
                    velocities_in,
                    cell as usize,
                    position,
                    velocity,
                    Ghost(main_lists),
                    Ghost(source),
                    Ghost(speeds),
                    Ghost(source),
                    Ghost(speeds),
                    Ghost(i as int),
                );
                let ghost first = aux_lists.update(
                    corner as int,
                    aux_lists[corner as int].push(i as int),
                );
                place(
                    indices_aux,
                    &mut offsets_aux,
                    positions_aux,
                    velocities_aux,
                    corner,
                    position,
                    velocity,
                    Ghost(aux_lists),
                    Ghost(source),
                    Ghost(speeds),
                    Ghost(kept_positions),
                    Ghost(kept_velocities),
                    Ghost(i as int),
                );
                let ghost second = first.update(corner + 1, first[corner + 1].push(i as int));
                place(
                    indices_aux,
                    &mut offsets_aux,
                    positions_aux,
                    velocities_aux,
                    corner + 1,
                    position,
                    velocity,
                    Ghost(first),
                    Ghost(source),
                    Ghost(speeds),
                    Ghost(kept_positions),
                    Ghost(kept_velocities),
                    Ghost(i as int),
                );
                let ghost third = second.update(
                    corner + width + 1,
                    second[corner + width + 1].push(i as int),
                );
                place(
                    indices_aux,
                    &mut offsets_aux,
                    positions_aux,
                    velocities_aux,
                    corner + width + 1,
                    position,
                    velocity,
                    Ghost(second),
                    Ghost(source),
                    Ghost(speeds),
                    Ghost(kept_positions),
                    Ghost(kept_velocities),
                    Ghost(i as int),
                );
                let ghost fourth = third.update(
                    corner + width + 2,
                    third[corner + width + 2].push(i as int),
                );
                place(
                    indices_aux,
                    &mut offsets_aux,
                    positions_aux,
                    velocities_aux,
                    corner + width + 2,
                    position,
                    velocity,
                    Ghost(third),
                    Ghost(source),
                    Ghost(speeds),
                    Ghost(kept_positions),
                    Ghost(kept_velocities),
                    Ghost(i as int),
                );
                proof {
                    assert(main_lists.update(cell as int, main_lists[cell as int].push(i as int))
                        =~= spec_main_lists(settings, source, i as int + 1));
                    assert(fourth =~= spec_aux_lists(settings, source, i as int + 1));
                }
            },
            None => {
                proof {
                    assert(main_lists =~= spec_main_lists(settings, source, i as int + 1));
                    assert(aux_lists =~= spec_aux_lists(settings, source, i as int + 1));
                }
            },
        }
        i += 1;
    }
}

/// The number of main cells.
fn settings_main_cells(settings: &ShaderWorldSettings) -> (r: usize)
    requires
        settings.spec_countable(),
    ensures
        r == settings.main_cells(),
{
    proof {
        settings.lemma_grid_bounds();
    }
    let width = settings.grid_dimensions.x as u64;
    let height = settings.grid_dimensions.y as u64;
    assert(width * height == settings.main_cells());
    (width * height) as usize
}

/// The number of auxiliary cells.
fn settings_aux_cells(settings: &ShaderWorldSettings) -> (r: usize)
    requires
        settings.spec_countable(),
    ensures
        r == settings.aux_cells(),
{
    let width = settings.grid_dimensions.x as u64 + 1;
    let height = settings.grid_dimensions.y as u64 + 1;
    assert(width * height == settings.aux_cells());
    (width * height) as usize
}

/// A vector of `length` zeros.
fn zeros(length: usize) -> (r: Vec<u32>)
    ensures
        r@.len() == length,
        forall|i: int| 0 <= i < length ==> #[trigger] r@[i] == 0,
{
    let mut r: Vec<u32> = Vec::new();
    let mut i: usize = 0;
    while i < length
        invariant
            0 <= i <= length,
            r@.len() == i,
            forall|j: int| 0 <= j < i ==> #[trigger] r@[j] == 0,
        decreases length - i,
    {
        r.push(0);
        i += 1;
    }
    r
}

/// After the packing pass every particle in the range of a main cell lies
/// in that cell: the slots from `indices_main[cell + 1]` up to, but not
/// including, `indices_main[cell + 2]` hold particles of the frame whose
/// position is in cell `cell`.
pub proof fn lemma_ranges_hold_their_cells(
    settings: &ShaderWorldSettings,
    source_positions: Seq<Vec2>,
    source_velocities: Seq<Vec2>,
    indices_main: Seq<u32>,
    indices_aux: Seq<u32>,
    positions: Seq<Vec2>,
    velocities: Seq<Vec2>,
    cell: int,
    slot: int,
)
    requires
        spec_totals_of(settings, source_positions, indices_main, indices_aux),
        spec_is_packed(
            indices_main,
            spec_main_lists(settings, source_positions, settings.particles_in_frame_count as int),
            positions,
            velocities,
            source_positions,
            source_velocities,
            source_positions,
            source_velocities,
        ),
        0 <= cell < settings.main_cells(),
        indices_main[cell + 1] <= slot < indices_main[cell + 2],
    ensures
        0 <= slot < positions.len(),
        settings.spec_main_cell(positions[slot]) == Some(cell),
{
    let count = settings.particles_in_frame_count as int;
    let lists = spec_main_lists(settings, source_positions, count);
    let j = slot - indices_main[cell + 1];
    lemma_members(settings, source_positions, count, count, cell);
    lemma_totals_ordered(indices_main, lists, cell + 1, settings.main_cells());
    assert(indices_main[cell + 2] == indices_main[cell + 1] + spec_population(
        settings,
        source_positions,
        count,
        cell,
    ));
    assert(lists[cell] == spec_members(settings, source_positions, count, cell));
    assert(indices_main[cell + 1] + lists[cell].len() <= indices_main[cell + 2]);
    assert(positions[spec_slot(indices_main, cell, j)] == source_positions[lists[cell][j]]);
    let member = spec_members(settings, source_positions, count, cell)[j];
    assert(settings.spec_main_cell(source_positions[member]) == Some(cell));
}

/// The running totals of a frame do not decrease, start with two zeros, and
/// end with the number of packed particles: the particles of the frame that
/// lie in the grid. The ranges of the cells together are as long.
pub proof fn lemma_totals_are_running_totals(
    settings: &ShaderWorldSettings,
    source_positions: Seq<Vec2>,
    indices_main: Seq<u32>,
    indices_aux: Seq<u32>,
)
    requires
        spec_totals_of(settings, source_positions, indices_main, indices_aux),
    ensures
        forall|i: int, j: int|
            0 <= i <= j < settings.main_cells() + 2 ==> indices_main[i] <= indices_main[j],
        indices_main[0] == 0,
        indices_main[1] == 0,
        indices_main[settings.main_cells() + 1] ==
            crate::compute::particles_cell_count::spec_population_before(
            settings,
            source_positions,
            settings.particles_in_frame_count as int,
            settings.main_cells(),
        ),
        crate::packing::range_total(indices_main, settings.main_cells()) ==
            indices_main[settings.main_cells()
            + 1],
{
    let count = settings.particles_in_frame_count as int;
    assert forall|i: int, j: int| 0 <= i <= j < settings.main_cells() + 2 implies indices_main[i]
        <= indices_main[j] by {
        lemma_totals_climb(settings, source_positions, indices_main, indices_aux, i, j);
    }
    lemma_totals_add_up(settings, source_positions, indices_main, indices_aux,
        settings.main_cells());
}

/// The induction behind the order of the running totals.
pub proof fn lemma_totals_climb(
    settings: &ShaderWorldSettings,
    source_positions: Seq<Vec2>,
    indices_main: Seq<u32>,
    indices_aux: Seq<u32>,
    first: int,
    second: int,
)
    requires
        spec_totals_of(settings, source_positions, indices_main, indices_aux),
        0 <= first <= second < settings.main_cells() + 2,
    ensures
        indices_main[first] <= indices_main[second],
    decreases second - first,
{
    if first < second {
        lemma_totals_climb(settings, source_positions, indices_main, indices_aux, first, second -
            1);
        if second >= 2 {
            lemma_population_bounds(
                settings,
                source_positions,
                settings.particles_in_frame_count as int,
                second - 2,
            );
            assert(indices_main[(second - 2) + 2] == indices_main[(second - 2) + 1]
                + spec_population(
                settings,
                source_positions,
                settings.particles_in_frame_count as int,
                second - 2,
            ));
        }
    }
}

/// The induction behind the sum of the running totals.
pub proof fn lemma_totals_add_up(
    settings: &ShaderWorldSettings,
    source_positions: Seq<Vec2>,
    indices_main: Seq<u32>,
    indices_aux: Seq<u32>,
    cells: int,
)
    requires
        spec_totals_of(settings, source_positions, indices_main, indices_aux),
        0 <= cells <= settings.main_cells(),
    ensures
        indices_main[cells + 1] == crate::compute::particles_cell_count::spec_population_before(
            settings,
            source_positions,
            settings.particles_in_frame_count as int,
            cells,
        ),
        crate::packing::range_total(indices_main, cells) == indices_main[cells + 1],
    decreases cells,
{
    if cells > 0 {
        lemma_totals_add_up(settings, source_positions, indices_main, indices_aux, cells - 1);
        assert(indices_main[(cells - 1) + 2] == indices_main[(cells - 1) + 1] + spec_population(
            settings,
            source_positions,
            settings.particles_in_frame_count as int,
            cells - 1,
        ));
    }
}

} // verus!
