//! What it means for packed data to be the layout of a store's particles,
//! and what follows from it.

use crate::math::Vec2;
use crate::particle_store::ParticleStore;
use crate::spatial_bin::{spec_cell_coord, PackedData, SpatialBinCoord};
use vstd::prelude::*;

verus! {

/// The positions stored for `cells[0]`, then those for `cells[1]`, and so on.
pub open spec fn packed_positions(store: &ParticleStore, cells: Seq<SpatialBinCoord>) -> Seq<Vec2>
    decreases cells.len(),
{
    if cells.len() == 0 {
        Seq::empty()
    } else {
        packed_positions(store, cells.drop_last()) + store.positions_in(cells.last())
    }
}

/// The velocities stored for `cells[0]`, then those for `cells[1]`, and so on.
pub open spec fn packed_velocities(store: &ParticleStore, cells: Seq<SpatialBinCoord>) -> Seq<Vec2>
    decreases cells.len(),
{
    if cells.len() == 0 {
        Seq::empty()
    } else {
        packed_velocities(store, cells.drop_last()) + store.velocities_in(cells.last())
    }
}

/// `data` is the packed layout of what `store` holds for `cells`.
pub open spec fn is_packing(
    store: &ParticleStore,
    cells: Seq<SpatialBinCoord>,
    data: &PackedData,
) -> bool {
    &&& data.indices@.len() == cells.len() + 2
    &&& data.indices@[0] == 0
    &&& forall|k: int|
        0 <= k <= cells.len() ==> #[trigger] data.indices@[k + 1] == packed_positions(
            store,
            cells.take(k),
        ).len()
    &&& data.positions@ == packed_positions(store, cells)
    &&& data.velocities@ == packed_velocities(store, cells)
}

/// Packing one more cell appends that cell's positions.
pub proof fn lemma_packed_positions_step(
    store: &ParticleStore,
    cells: Seq<SpatialBinCoord>,
    k: int,
)
    requires
        0 <= k < cells.len(),
    ensures
        packed_positions(store, cells.take(k + 1)) == packed_positions(store, cells.take(k))
            + store.positions_in(cells[k]),
        packed_velocities(store, cells.take(k + 1)) == packed_velocities(store, cells.take(k))
            + store.velocities_in(cells[k]),
{
    assert(cells.take(k + 1).drop_last() =~= cells.take(k));
    assert(cells.take(k + 1).last() == cells[k]);
}

/// The packed positions of a prefix of the cells are no longer than those of
/// a longer prefix.
pub proof fn lemma_packed_positions_monotone(
    store: &ParticleStore,
    cells: Seq<SpatialBinCoord>,
    i: int,
    j: int,
)
    requires
        0 <= i <= j <= cells.len(),
    ensures
        packed_positions(store, cells.take(i)).len() <= packed_positions(
            store,
            cells.take(j),
        ).len(),
    decreases j - i,
{
    if i < j {
        lemma_packed_positions_monotone(store, cells, i, j - 1);
        lemma_packed_positions_step(store, cells, j - 1);
    }
}

/// The number of particles that `store` holds for `cells`.
pub open spec fn stored_count(store: &ParticleStore, cells: Seq<SpatialBinCoord>) -> int
    decreases cells.len(),
{
    if cells.len() == 0 {
        0
    } else {
        stored_count(store, cells.drop_last()) + store.positions_in(cells.last()).len()
    }
}

/// The sum of the lengths of the ranges of the first `n` cells of `indices`.
pub open spec fn range_total(indices: Seq<u32>, n: int) -> int
    decreases n,
{
    if n <= 0 {
        0
    } else {
        range_total(indices, n - 1) + (indices[n + 1] - indices[n])
    }
}

/// The packed positions hold exactly the particles that the store holds for
/// the cells.
pub proof fn lemma_packed_len_is_stored_count(store: &ParticleStore, cells: Seq<SpatialBinCoord>)
    ensures
        packed_positions(store, cells).len() == stored_count(store, cells),
    decreases cells.len(),
{
    if cells.len() > 0 {
        lemma_packed_len_is_stored_count(store, cells.drop_last());
    }
}

/// The packed positions of the first `k` cells are the first items of the
/// packed positions of all cells.
pub proof fn lemma_packed_prefix(store: &ParticleStore, cells: Seq<SpatialBinCoord>, k: int)
    requires
        0 <= k <= cells.len(),
    ensures
        packed_positions(store, cells.take(k)).len() <= packed_positions(store, cells).len(),
        packed_positions(store, cells.take(k)) == packed_positions(store, cells).take(
            packed_positions(store, cells.take(k)).len() as int,
        ),
    decreases cells.len() - k,
{
    if k == cells.len() {
        assert(cells.take(k) =~= cells);
        assert(packed_positions(store, cells).take(packed_positions(store, cells).len() as int)
            =~= packed_positions(store, cells));
    } else {
        lemma_packed_prefix(store, cells, k + 1);
        lemma_packed_positions_step(store, cells, k);
        let shorter = packed_positions(store, cells.take(k));
        let longer = packed_positions(store, cells.take(k + 1));
        let all = packed_positions(store, cells);
        assert(shorter =~= longer.take(shorter.len() as int));
        assert(longer.take(shorter.len() as int) =~= all.take(longer.len() as int).take(
            shorter.len() as int,
        ));
        assert(all.take(longer.len() as int).take(shorter.len() as int) =~= all.take(
            shorter.len() as int,
        ));
    }
}

/// The index array of a packing never decreases, starts with two zeros, and
/// ends with the number of packed particles.
pub proof fn lemma_indices_are_running_totals(
    store: &ParticleStore,
    cells: Seq<SpatialBinCoord>,
    data: &PackedData,
)
    requires
        is_packing(store, cells, data),
    ensures
        forall|i: int, j: int|
            0 <= i <= j < data.indices@.len() ==> data.indices@[i] <= data.indices@[j],
        data.indices@[0] == 0,
        data.indices@[1] == 0,
        data.indices@.last() == data.positions@.len(),
{
    assert(cells.take(0) =~= Seq::<SpatialBinCoord>::empty());
    assert(data.indices@[0int + 1] == 0);
    assert(cells.take(cells.len() as int) =~= cells);
    assert(data.indices@[cells.len() as int + 1] == data.positions@.len());
    assert forall|i: int, j: int| 0 <= i <= j < data.indices@.len() implies data.indices@[i]
        <= data.indices@[j] by {
        if i == 0 {
            assert(data.indices@[i] == 0);
        } else {
            lemma_packed_positions_monotone(store, cells, i - 1, j - 1);
            assert(data.indices@[(i - 1) + 1] == packed_positions(store, cells.take(i - 1)).len());
            assert(data.indices@[(j - 1) + 1] == packed_positions(store, cells.take(j - 1)).len());
        }
    }
}

/// In a packing of a store whose particles are all stored under the cell in
/// which they lie, every position in the range of a cell lies in that cell.
pub proof fn lemma_ranges_hold_their_cells(
    store: &ParticleStore,
    cells: Seq<SpatialBinCoord>,
    data: &PackedData,
    k: int,
    i: int,
)
    requires
        store.binned(),
        is_packing(store, cells, data),
        0 <= k < cells.len(),
        data.indices@[k + 1] <= i < data.indices@[k + 2],
    ensures
        0 <= i < data.positions@.len(),
        spec_cell_coord(store.spatial_bin.cell_size, data.positions@[i]) == cells[k],
{
    lemma_packed_positions_step(store, cells, k);
    lemma_packed_prefix(store, cells, k + 1);
    let start = packed_positions(store, cells.take(k));
    let through = packed_positions(store, cells.take(k + 1));
    let own = store.positions_in(cells[k]);
    assert(data.indices@[k + 1] == start.len());
    assert(data.indices@[(k + 1) + 1] == through.len());
    assert(through == start + own);
    assert(through[i] == own[i - start.len()]);
    assert(data.positions@.take(through.len() as int)[i] == data.positions@[i]);
}

/// The ranges of all cells together are as long as the packed positions, and
/// that is the number of particles that the store holds for the cells.
pub proof fn lemma_ranges_cover_the_frame(
    store: &ParticleStore,
    cells: Seq<SpatialBinCoord>,
    data: &PackedData,
)
    requires
        is_packing(store, cells, data),
    ensures
        range_total(data.indices@, cells.len() as int) == data.positions@.len(),
        range_total(data.indices@, cells.len() as int) == stored_count(store, cells),
{
    lemma_packed_len_is_stored_count(store, cells);
    lemma_range_total_telescopes(store, cells, data, cells.len() as int);
    assert(cells.take(cells.len() as int) =~= cells);
}

/// The ranges of the first `n` cells together are as long as the packed
/// positions of those cells.
pub proof fn lemma_range_total_telescopes(
    store: &ParticleStore,
    cells: Seq<SpatialBinCoord>,
    data: &PackedData,
    n: int,
)
    requires
        is_packing(store, cells, data),
        0 <= n <= cells.len(),
    ensures
        range_total(data.indices@, n) == packed_positions(store, cells.take(n)).len(),
    decreases n,
{
    if n == 0 {
        assert(cells.take(0) =~= Seq::<SpatialBinCoord>::empty());
    } else {
        lemma_range_total_telescopes(store, cells, data, n - 1);
        assert(data.indices@[(n - 1) + 1] == packed_positions(store, cells.take(n - 1)).len());
        assert(data.indices@[n + 1] == packed_positions(store, cells.take(n)).len());
    }
}

/// Two packings of the same cells of the same store are equal, item for item.
pub proof fn lemma_packing_is_determined(
    store: &ParticleStore,
    cells: Seq<SpatialBinCoord>,
    first: &PackedData,
    second: &PackedData,
)
    requires
        is_packing(store, cells, first),
        is_packing(store, cells, second),
    ensures
        first.indices@ == second.indices@,
        first.positions@ == second.positions@,
        first.velocities@ == second.velocities@,
{
    assert forall|i: int| 0 <= i < first.indices@.len() implies first.indices@[i]
        == second.indices@[i] by {
        if i > 0 {
            assert(first.indices@[(i - 1) + 1] == packed_positions(store, cells.take(i - 1)).len());
            assert(second.indices@[(i - 1) + 1] == packed_positions(
                store,
                cells.take(i - 1),
            ).len());
        }
    }
    assert(first.indices@ =~= second.indices@);
}

/// What is packed depends on the particles of a store only: two stores that
/// hold the same particles in the same cells pack to the same data.
pub proof fn lemma_packing_ignores_counters(
    first: &ParticleStore,
    second: &ParticleStore,
    cells: Seq<SpatialBinCoord>,
    data: &PackedData,
)
    requires
        first.hashmap == second.hashmap,
    ensures
        packed_positions(first, cells) == packed_positions(second, cells),
        packed_velocities(first, cells) == packed_velocities(second, cells),
        is_packing(first, cells, data) == is_packing(second, cells, data),
        forall|cell: SpatialBinCoord| #[trigger]
            first.positions_in(cell) == second.positions_in(cell),
        forall|cell: SpatialBinCoord| #[trigger]
            first.velocities_in(cell) == second.velocities_in(cell),
{
    lemma_packed_ignores_counters(first, second, cells);
    assert forall|k: int| 0 <= k <= cells.len() implies packed_positions(first, cells.take(k))
        == #[trigger] packed_positions(second, cells.take(k)) by {
        lemma_packed_ignores_counters(first, second, cells.take(k));
    }
}

/// The induction behind [`lemma_packing_ignores_counters`].
pub proof fn lemma_packed_ignores_counters(
    first: &ParticleStore,
    second: &ParticleStore,
    cells: Seq<SpatialBinCoord>,
)
    requires
        first.hashmap == second.hashmap,
    ensures
        packed_positions(first, cells) == packed_positions(second, cells),
        packed_velocities(first, cells) == packed_velocities(second, cells),
    decreases cells.len(),
{
    if cells.len() > 0 {
        lemma_packed_ignores_counters(first, second, cells.drop_last());
    }
}

} // verus!
