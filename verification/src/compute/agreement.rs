//! The compute passes and the store agree: when the particles that the store
//! packs are what a tick starts from, the counting pass finds in each cell
//! the particles that the store holds for it, and the running totals of the
//! frame are the indices that the store packs.

use crate::compute::pack_particle_data::spec_totals_of;
use crate::compute::particles_cell_count::spec_population;
use crate::config_shader::ShaderWorldSettings;
use crate::math::Vec2;
use crate::packing::{is_packing, lemma_packed_positions_step, packed_positions};
use crate::particle_store::ParticleStore;
use crate::spatial_bin::{spec_cell_coord, PackedData, SpatialBin, SpatialBinCoord};
use vstd::prelude::*;

verus! {

/// The settings are those of the grid `bin`, whose viewport starts at the
/// origin.
pub open spec fn spec_settings_of(settings: &ShaderWorldSettings, bin: &SpatialBin) -> bool {
    &&& bin.viewport.x.raw == 0
    &&& bin.viewport.y.raw == 0
    &&& settings.view_anchor.x.raw == 0
    &&& settings.view_anchor.y.raw == 0
    &&& settings.cell_size == bin.cell_size
    &&& settings.grid_dimensions.x == bin.columns()
    &&& settings.grid_dimensions.y == bin.rows()
}

/// The passes number a cell as the grid does: a position that lies in the
/// active cell with index `k` lies in main cell `k`.
pub proof fn lemma_same_numbering(
    settings: &ShaderWorldSettings,
    bin: &SpatialBin,
    position: Vec2,
    k: int,
)
    requires
        bin.valid(),
        spec_settings_of(settings, bin),
        0 <= k < bin.active_cell_count(),
    ensures
        spec_cell_coord(bin.cell_size, position) == bin.active_cell(k)
            <==> settings.spec_main_cell(position) == Some(k),
{
    let side = bin.cell_size as int * crate::scalar::ONE_RAW;
    assert(0int / side == 0) by (nonlinear_arith)
        requires
            side > 0,
    ;
    assert(bin.bottom_left().x == 0 && bin.bottom_left().y == 0);
    bin.lemma_active_cell_index(k);
    bin.lemma_valid_bounds();
    let cell = spec_cell_coord(bin.cell_size, position);
    let w = bin.columns();
    if settings.spec_main_cell(position) == Some(k) {
        let column = cell.x as int;
        let row = cell.y as int;
        assert(0 <= column < w && 0 <= row && k == row * w + column);
        vstd::arithmetic::div_mod::lemma_fundamental_div_mod_converse(k, w, row, column);
    }
    if cell == bin.active_cell(k) {
        vstd::arithmetic::div_mod::lemma_fundamental_div_mod(k, w);
        assert((k / w) * w == w * (k / w)) by (nonlinear_arith);
    }
}

/// Of positions that all lie in the active cell with index `home`, all are
/// counted for that main cell and none for any other.
pub proof fn lemma_population_of_a_cell(
    settings: &ShaderWorldSettings,
    bin: &SpatialBin,
    positions: Seq<Vec2>,
    count: int,
    home: int,
    k: int,
)
    requires
        bin.valid(),
        spec_settings_of(settings, bin),
        0 <= home < bin.active_cell_count(),
        0 <= k < bin.active_cell_count(),
        0 <= count <= positions.len(),
        forall|i: int|
            0 <= i < positions.len() ==> spec_cell_coord(bin.cell_size, #[trigger] positions[i])
                == bin.active_cell(home),
    ensures
        spec_population(settings, positions, count, k) == (if k == home {
            count
        } else {
            0
        }),
    decreases count,
{
    if count > 0 {
        lemma_population_of_a_cell(settings, bin, positions, count - 1, home, k);
        lemma_same_numbering(settings, bin, positions[count - 1], home);
        lemma_same_numbering(settings, bin, positions[count - 1], k);
    }
}

/// What is counted among positions that follow one another is what is
/// counted among the first and among the second, together.
pub proof fn lemma_population_of_both(
    settings: &ShaderWorldSettings,
    first: Seq<Vec2>,
    second: Seq<Vec2>,
    count: int,
    k: int,
)
    requires
        0 <= count <= second.len(),
    ensures
        spec_population(settings, first + second, first.len() + count, k) == spec_population(
            settings,
            first,
            first.len() as int,
            k,
        ) + spec_population(settings, second, count, k),
    decreases count,
{
    if count > 0 {
        lemma_population_of_both(settings, first, second, count - 1, k);
        assert((first + second)[first.len() + count - 1] == second[count - 1]);
    } else {
        lemma_population_of_start(settings, first + second, first, first.len() as int, k);
    }
}

/// What is counted among the first `count` positions depends on those
/// positions only.
pub proof fn lemma_population_of_start(
    settings: &ShaderWorldSettings,
    first: Seq<Vec2>,
    second: Seq<Vec2>,
    count: int,
    k: int,
)
    requires
        0 <= count <= first.len(),
        count <= second.len(),
        forall|i: int| 0 <= i < count ==> first[i] == second[i],
    ensures
        spec_population(settings, first, count, k) == spec_population(settings, second, count, k),
    decreases count,
{
    if count > 0 {
        lemma_population_of_start(settings, first, second, count - 1, k);
    }
}

/// Among the particles that the store packs for the first `done` active
/// cells, the counting pass finds in each of those cells the particles that
/// the store holds for it, and none in the cells after them.
pub proof fn lemma_population_of_packed(
    settings: &ShaderWorldSettings,
    store: &ParticleStore,
    done: int,
    k: int,
)
    requires
        store.spatial_bin.valid(),
        store.binned(),
        spec_settings_of(settings, &store.spatial_bin),
        0 <= done <= store.spatial_bin.active_cell_count(),
        0 <= k < store.spatial_bin.active_cell_count(),
    ensures
        spec_population(
            settings,
            packed_positions(store, store.spatial_bin.active_cells().take(done)),
            packed_positions(store, store.spatial_bin.active_cells().take(done)).len() as int,
            k,
        ) == (if k < done {
            store.positions_in(store.spatial_bin.active_cell(k)).len() as int
        } else {
            0
        }),
    decreases done,
{
    let cells = store.spatial_bin.active_cells();
    if done > 0 {
        lemma_population_of_packed(settings, store, done - 1, k);
        lemma_packed_positions_step(store, cells, done - 1);
        let earlier = packed_positions(store, cells.take(done - 1));
        let own = store.positions_in(cells[done - 1]);
        lemma_population_of_both(settings, earlier, own, own.len() as int, k);
        assert forall|i: int| 0 <= i < own.len() implies spec_cell_coord(
            store.spatial_bin.cell_size,
            #[trigger] own[i],
        ) == store.spatial_bin.active_cell(done - 1) by {
            assert(spec_cell_coord(
                store.spatial_bin.cell_size,
                store.positions_in(cells[done - 1])[i],
            ) == cells[done - 1]);
        }
        lemma_population_of_a_cell(
            settings,
            &store.spatial_bin,
            own,
            own.len() as int,
            done - 1,
            k,
        );
    } else {
        assert(cells.take(0) =~= Seq::<SpatialBinCoord>::empty());
    }
}

/// When a tick starts from the particles that a store packs, the running
/// totals of the main grid are the indices that the store packs: the passes
/// and the store lay the frame out in the same way.
pub proof fn lemma_totals_are_the_packed_indices(
    settings: &ShaderWorldSettings,
    store: &ParticleStore,
    data: &PackedData,
    positions: Seq<Vec2>,
    indices_main: Seq<u32>,
    indices_aux: Seq<u32>,
)
    requires
        store.spatial_bin.valid(),
        store.binned(),
        spec_settings_of(settings, &store.spatial_bin),
        is_packing(store, store.spatial_bin.active_cells(), data),
        settings.particles_in_frame_count == data.positions@.len(),
        data.positions@.len() <= positions.len(),
        positions.take(data.positions@.len() as int) == data.positions@,
        spec_totals_of(settings, positions, indices_main, indices_aux),
    ensures
        indices_main.take(settings.main_cells() + 2) == data.indices@,
{
    let cells = store.spatial_bin.active_cells();
    let count = data.positions@.len() as int;
    store.spatial_bin.lemma_valid_bounds();
    assert(settings.main_cells() == cells.len());
    assert(cells.take(cells.len() as int) =~= cells);
    let totals = indices_main.take(settings.main_cells() + 2);
    assert forall|i: int| 0 <= i < totals.len() implies totals[i] == data.indices@[i] by {
        if i > 0 {
            lemma_same_totals(settings, store, data, positions, indices_main, indices_aux, i - 1);
        }
    }
    assert(totals =~= data.indices@);
}

/// The induction behind [`lemma_totals_are_the_packed_indices`].
pub proof fn lemma_same_totals(
    settings: &ShaderWorldSettings,
    store: &ParticleStore,
    data: &PackedData,
    positions: Seq<Vec2>,
    indices_main: Seq<u32>,
    indices_aux: Seq<u32>,
    k: int,
)
    requires
        store.spatial_bin.valid(),
        store.binned(),
        spec_settings_of(settings, &store.spatial_bin),
        is_packing(store, store.spatial_bin.active_cells(), data),
        settings.particles_in_frame_count == data.positions@.len(),
        data.positions@.len() <= positions.len(),
        positions.take(data.positions@.len() as int) == data.positions@,
        spec_totals_of(settings, positions, indices_main, indices_aux),
        0 <= k <= store.spatial_bin.active_cell_count(),
    ensures
        indices_main[k + 1] == data.indices@[k + 1],
    decreases k,
{
    let cells = store.spatial_bin.active_cells();
    let count = data.positions@.len() as int;
    store.spatial_bin.lemma_valid_bounds();
    assert(cells.take(0) =~= Seq::<SpatialBinCoord>::empty());
    assert(data.indices@[0int + 1] == packed_positions(store, cells.take(0)).len());
    if k > 0 {
        lemma_same_totals(settings, store, data, positions, indices_main, indices_aux, k - 1);
        assert(cells.take(cells.len() as int) =~= cells);
        lemma_population_of_packed(settings, store, cells.len() as int, k - 1);
        lemma_population_of_start(settings, positions, data.positions@, count, k - 1);
        lemma_packed_positions_step(store, cells, k - 1);
        assert(indices_main[(k - 1) + 2] == indices_main[(k - 1) + 1] + spec_population(
            settings,
            positions,
            count,
            k - 1,
        ));
        assert(data.indices@[(k - 1) + 1] == packed_positions(store, cells.take(k - 1)).len());
        assert(data.indices@[k + 1] == packed_positions(store, cells.take(k)).len());
    }
}

} // verus!
