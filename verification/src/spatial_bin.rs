//! The uniform grid of square cells into which particles are binned, and the
//! packed layout in which the particles of a frame travel to the compute
//! passes.

use crate::error::WrachError;
use crate::math::{IVec2, UVec2, Vec2, Vec4};
use crate::packing::{
    is_packing, lemma_packed_positions_monotone, lemma_packed_positions_step, packed_positions,
    packed_velocities,
};
use crate::particle_store::ParticleStore;
use crate::scalar::spec_cell_index;
use crate::shared::MAX_CELLS_FOR_PREFIX_SUM_PIPELINE;
use vstd::prelude::*;

verus! {

/// The coordinates of a cell in the grid.
pub type SpatialBinCoord = IVec2;

/// The grid: the side of its cells and the viewport that selects the active
/// cells.
pub struct SpatialBin {
    /// The side of a cell. A cell is a square.
    pub cell_size: u16,
    /// Width and height of the active grid, in cells.
    pub grid_dimensions: UVec2,
    /// The view onto the simulation: `(x, y)` is its bottom-left corner,
    /// `(z, w)` its top-right corner.
    pub viewport: Vec4,
}

/// The particles of one frame, laid out cell by cell.
///
/// `indices` starts with two zeros and then holds, for each active cell in
/// grid order, the running total of particles up to and including that cell.
/// The particles of active cell `k` are therefore
/// `positions[indices[k + 1]..indices[k + 2]]`, and the last entry is the
/// number of particles in the frame.
#[derive(Debug)]
pub struct PackedData {
    /// Running totals of particles per cell, shifted right by one slot.
    pub indices: Vec<u32>,
    /// All particle positions, ordered by cell.
    pub positions: Vec<Vec2>,
    /// All particle velocities, ordered by cell.
    pub velocities: Vec<Vec2>,
}

impl Default for PackedData {
    fn default() -> (r: Self)
        ensures
            r.indices@.len() == 0,
            r.positions@.len() == 0,
            r.velocities@.len() == 0,
    {
        PackedData { indices: Vec::new(), positions: Vec::new(), velocities: Vec::new() }
    }
}

/// The cell of side `cell_size` in which `position` lies: the component-wise
/// floored quotient.
pub open spec fn spec_cell_coord(cell_size: u16, position: Vec2) -> SpatialBinCoord {
    IVec2 {
        x: spec_cell_index(position.x.raw as int, cell_size as int),
        y: spec_cell_index(position.y.raw as int, cell_size as int),
    }
}

/// The number of integers in `first..=last`.
pub open spec fn span(first: int, last: int) -> int {
    if last >= first {
        last - first + 1
    } else {
        0
    }
}

impl SpatialBin {
    /// The cell that holds the bottom-left corner of the viewport.
    pub open spec fn bottom_left(&self) -> SpatialBinCoord {
        spec_cell_coord(self.cell_size, self.viewport.spec_xy())
    }

    /// The cell that holds the top-right corner of the viewport.
    pub open spec fn top_right(&self) -> SpatialBinCoord {
        spec_cell_coord(self.cell_size, self.viewport.spec_zw())
    }

    /// Height of the active grid, in cells.
    pub open spec fn rows(&self) -> int {
        span(self.bottom_left().y as int, self.top_right().y as int)
    }

    /// Width of the active grid, in cells. A grid without rows has no columns.
    pub open spec fn columns(&self) -> int {
        if self.rows() > 0 {
            span(self.bottom_left().x as int, self.top_right().x as int)
        } else {
            0
        }
    }

    /// The number of active cells.
    pub open spec fn active_cell_count(&self) -> int {
        self.columns() * self.rows()
    }

    /// The number of cells of the auxiliary grid, which has one cell for each
    /// corner of the active grid.
    pub open spec fn aux_cell_count(&self) -> int {
        (self.columns() + 1) * (self.rows() + 1)
    }

    /// The active cell with index `k`: cells are numbered row by row from the
    /// bottom-left cell, `x` running fastest.
    pub open spec fn active_cell(&self, k: int) -> SpatialBinCoord {
        IVec2 {
            x: (self.bottom_left().x + k % self.columns()) as i32,
            y: (self.bottom_left().y + k / self.columns()) as i32,
        }
    }

    /// All active cells, in grid order.
    pub open spec fn active_cells(&self) -> Seq<SpatialBinCoord> {
        Seq::new(self.active_cell_count() as nat, |k: int| self.active_cell(k))
    }

    /// `cell` lies under the viewport: it is one of the active cells.
    pub open spec fn spec_is_active(&self, cell: SpatialBinCoord) -> bool {
        &&& self.bottom_left().x <= cell.x <= self.top_right().x
        &&& self.bottom_left().y <= cell.y <= self.top_right().y
    }

    /// The index of the active cell `cell`.
    pub open spec fn spec_index_of(&self, cell: SpatialBinCoord) -> int {
        (cell.y - self.bottom_left().y) * self.columns() + (cell.x - self.bottom_left().x)
    }

    /// The cell size is positive and the auxiliary prefix sum, with its
    /// leading zero and its guard item, is short enough to be scanned.
    pub open spec fn valid(&self) -> bool {
        &&& self.cell_size > 0
        &&& self.aux_cell_count() + 2 < MAX_CELLS_FOR_PREFIX_SUM_PIPELINE
    }

    /// The grid is valid and `grid_dimensions` is up to date with the
    /// viewport.
    pub open spec fn wf(&self) -> bool {
        &&& self.valid()
        &&& self.grid_dimensions.x == self.columns()
        &&& self.grid_dimensions.y == self.rows()
    }

    /// What a grid covers depends on its cell size and its viewport alone.
    pub proof fn lemma_cover_is_determined(&self, other: &SpatialBin)
        requires
            self.cell_size == other.cell_size,
            self.viewport == other.viewport,
        ensures
            self.rows() == other.rows(),
            self.columns() == other.columns(),
            self.active_cell_count() == other.active_cell_count(),
            self.aux_cell_count() == other.aux_cell_count(),
            self.valid() == other.valid(),
            self.active_cells() == other.active_cells(),
    {
        assert(self.bottom_left() == other.bottom_left());
        assert(self.top_right() == other.top_right());
        assert(self.active_cells() =~= other.active_cells());
    }

    /// A valid grid has fewer rows, columns and cells than the prefix sum
    /// limit.
    pub proof fn lemma_valid_bounds(&self)
        requires
            self.valid(),
        ensures
            0 <= self.columns() < MAX_CELLS_FOR_PREFIX_SUM_PIPELINE,
            0 <= self.rows() < MAX_CELLS_FOR_PREFIX_SUM_PIPELINE,
            0 <= self.active_cell_count() < MAX_CELLS_FOR_PREFIX_SUM_PIPELINE,
            self.active_cell_count() + self.columns() + self.rows() + 1 == self.aux_cell_count(),
    {
        let c = self.columns();
        let r = self.rows();
        assert(0 <= c && 0 <= r);
        assert(0 <= c * r && (c + 1) * (r + 1) == c * r + c + r + 1) by (nonlinear_arith)
            requires
                0 <= c,
                0 <= r,
        ;
    }

    /// Every active cell lies under the viewport, at its own index.
    pub proof fn lemma_active_cell_index(&self, k: int)
        requires
            self.valid(),
            0 <= k < self.active_cell_count(),
        ensures
            self.spec_is_active(self.active_cell(k)),
            self.spec_index_of(self.active_cell(k)) == k,
    {
        self.lemma_valid_bounds();
        let w = self.columns();
        let h = self.rows();
        assert(w >= 1 && h >= 1) by (nonlinear_arith)
            requires
                1 <= w * h,
                0 <= w,
                0 <= h,
        ;
        vstd::arithmetic::div_mod::lemma_fundamental_div_mod(k, w);
        vstd::arithmetic::div_mod::lemma_mod_bound(k, w);
        vstd::arithmetic::div_mod::lemma_div_pos_is_pos(k, w);
        let row = k / w;
        let column = k % w;
        assert(row < h) by (nonlinear_arith)
            requires
                k == w * row + column,
                0 <= column,
                k < w * h,
                w >= 1,
        ;
        assert(row * w == w * row) by (nonlinear_arith);
    }

    /// Every cell under the viewport is the active cell at its index.
    pub proof fn lemma_index_of_active(&self, cell: SpatialBinCoord)
        requires
            self.valid(),
            self.spec_is_active(cell),
        ensures
            0 <= self.spec_index_of(cell) < self.active_cell_count(),
            self.active_cell(self.spec_index_of(cell)) == cell,
    {
        let w = self.columns();
        let h = self.rows();
        let row = cell.y - self.bottom_left().y;
        let column = cell.x - self.bottom_left().x;
        assert(0 <= row < h && 0 <= column < w);
        assert(0 <= row * w + column < w * h) by (nonlinear_arith)
            requires
                0 <= row < h,
                0 <= column < w,
        ;
        vstd::arithmetic::div_mod::lemma_fundamental_div_mod_converse(
            row * w + column,
            w,
            row,
            column,
        );
    }

    /// Whether `cell` lies under the viewport.
    pub fn is_active(&self, cell: SpatialBinCoord) -> (r: bool)
        requires
            self.cell_size > 0,
        ensures
            r == self.spec_is_active(cell),
    {
        let bottom_left = self.get_cell_coord(self.viewport.xy());
        let top_right = self.get_cell_coord(self.viewport.zw());
        bottom_left.x <= cell.x && cell.x <= top_right.x && bottom_left.y <= cell.y && cell.y
            <= top_right.y
    }

    /// A grid for cells of side `cell_size` under `viewport`.
    ///
    /// Fails with `InvalidConfig` when `cell_size` is zero, and with
    /// `ConfigurationTooLarge` when the viewport covers more cells than the
    /// prefix sum can scan.
    pub fn new(cell_size: u16, viewport: Vec4) -> (r: Result<Self, WrachError>)
        ensures
            r.is_ok() <==> (SpatialBin {
                cell_size,
                viewport,
                grid_dimensions: UVec2 { x: 0, y: 0 },
            }).valid(),
            match r {
                Ok(bin) => bin.cell_size == cell_size && bin.viewport == viewport && bin.wf(),
                Err(e) => if cell_size == 0 {
                    e == WrachError::InvalidConfig
                } else {
                    e == WrachError::ConfigurationTooLarge && !(SpatialBin {
                        cell_size,
                        viewport,
                        grid_dimensions: UVec2 { x: 0, y: 0 },
                    }).valid()
                },
            },
    {
        if cell_size == 0 {
            return Err(WrachError::InvalidConfig);
        }
        let mut spatial_bin = SpatialBin { cell_size, viewport, grid_dimensions: UVec2::default() };
        match spatial_bin.measure() {
            Some(dimensions) => {
                proof {
                    spatial_bin.lemma_cover_is_determined(
                        &SpatialBin { grid_dimensions: dimensions, ..spatial_bin },
                    );
                }
                spatial_bin.grid_dimensions = dimensions;
                Ok(spatial_bin)
            },
            None => Err(WrachError::ConfigurationTooLarge),
        }
    }

    /// The dimensions of the active grid, or `None` when the grid is too
    /// large to be valid.
    fn measure(&self) -> (r: Option<UVec2>)
        requires
            self.cell_size > 0,
        ensures
            r.is_some() <==> self.valid(),
            r matches Some(d) ==> d.x == self.columns() && d.y == self.rows(),
    {
        let bottom_left = self.get_cell_coord(self.viewport.xy());
        let top_right = self.get_cell_coord(self.viewport.zw());
        let rows: u64 = axis_span(bottom_left.y, top_right.y);
        let columns: u64 = if rows > 0 {
            axis_span(bottom_left.x, top_right.x)
        } else {
            0
        };
        let limit: u64 = MAX_CELLS_FOR_PREFIX_SUM_PIPELINE as u64;
        if rows >= limit || columns >= limit {
            proof {
                let c = self.columns();
                let r = self.rows();
                assert((c + 1) * (r + 1) >= limit) by (nonlinear_arith)
                    requires
                        0 <= c,
                        0 <= r,
                        c >= limit || r >= limit,
                ;
            }
            return None;
        }
        assert((columns + 1) * (rows + 1) <= 0x40_0000 * 0x40_0000) by (nonlinear_arith)
            requires
                columns < 0x40_0000,
                rows < 0x40_0000,
        ;
        let aux: u64 = (columns + 1) * (rows + 1);
        if aux + 2 < limit {
            Some(UVec2 { x: columns as u32, y: rows as u32 })
        } else {
            None
        }
    }

    /// The spatial bin cell in which `position` lies.
    pub fn get_cell_coord(&self, position: Vec2) -> (r: SpatialBinCoord)
        requires
            self.cell_size > 0,
        ensures
            r == spec_cell_coord(self.cell_size, position),
    {
        let cell_x = position.x.cell_index(self.cell_size as u32);
        let cell_y = position.y.cell_index(self.cell_size as u32);
        IVec2::new(cell_x, cell_y)
    }

    /// All the cells under the viewport, in grid order, and the dimensions of
    /// the grid that they form.
    pub fn get_active_cells(&self) -> (r: (Vec<SpatialBinCoord>, UVec2))
        requires
            self.valid(),
        ensures
            r.0@ == self.active_cells(),
            r.1.x == self.columns(),
            r.1.y == self.rows(),
    {
        let mut cells: Vec<SpatialBinCoord> = Vec::new();
        let mut grid_dimensions = UVec2::default();

        let bottom_left = self.get_cell_coord(self.viewport.xy());
        let top_right = self.get_cell_coord(self.viewport.zw());
        let ghost width = span(bottom_left.x as int, top_right.x as int);
        proof {
            self.lemma_valid_bounds();
        }
        let mut y: i64 = bottom_left.y as i64;
        while y <= top_right.y as i64
            invariant
                self.valid(),
                bottom_left == self.bottom_left(),
                top_right == self.top_right(),
                width == span(bottom_left.x as int, top_right.x as int),
                self.rows() > 0 ==> self.columns() == width,
                0 <= self.rows() < MAX_CELLS_FOR_PREFIX_SUM_PIPELINE,
                0 <= self.columns() < MAX_CELLS_FOR_PREFIX_SUM_PIPELINE,
                bottom_left.y <= y <= top_right.y + 1 || (self.rows() == 0 && y == bottom_left.y),
                grid_dimensions.y == y - bottom_left.y,
                grid_dimensions.x == (if self.rows() > 0 && y > top_right.y {
                    width
                } else {
                    0
                }),
                cells@.len() == (y - bottom_left.y) * width,
                forall|k: int| 0 <= k < cells@.len() ==> cells@[k] == self.active_cell(k),
            decreases top_right.y - y + 1,
        {
            grid_dimensions.y += 1_u32;
            let mut x: i64 = bottom_left.x as i64;
            let ghost row = y - bottom_left.y;
            while x <= top_right.x as i64
                invariant
                    self.valid(),
                    bottom_left == self.bottom_left(),
                    top_right == self.top_right(),
                    width == span(bottom_left.x as int, top_right.x as int),
                    self.columns() == width,
                    0 <= self.columns() < MAX_CELLS_FOR_PREFIX_SUM_PIPELINE,
                    bottom_left.y <= y <= top_right.y,
                    row == y - bottom_left.y,
                    grid_dimensions.y == row + 1,
                    bottom_left.x <= x <= top_right.x + 1 || (width == 0 && x == bottom_left.x),
                    grid_dimensions.x == (if y == top_right.y {
                        x - bottom_left.x
                    } else {
                        0
                    }),
                    cells@.len() == row * width + (x - bottom_left.x),
                    forall|k: int| 0 <= k < cells@.len() ==> cells@[k] == self.active_cell(k),
                decreases top_right.x - x + 1,
            {
                if y == top_right.y as i64 {
                    grid_dimensions.x += 1_u32;
                }
                proof {
                    let k = cells@.len() as int;
                    let column = x - bottom_left.x;
                    vstd::arithmetic::div_mod::lemma_fundamental_div_mod_converse(
                        k,
                        width,
                        row,
                        column,
                    );
                }
                cells.push(IVec2::new(x as i32, y as i32));
                x += 1;
            }
            proof {
                assert((row + 1) * width == row * width + width) by (nonlinear_arith);
            }
            y += 1;
        }
        proof {
            let rows = self.rows();
            assert(cells@.len() == self.active_cell_count()) by {
                if rows > 0 {
                    assert(y - bottom_left.y == rows);
                    assert(rows * width == width * rows) by (nonlinear_arith);
                } else {
                    assert(0 * width == 0);
                    assert(self.columns() * 0 == 0) by (nonlinear_arith);
                }
            }
            assert(cells@ =~= self.active_cells());
        }
        (cells, grid_dimensions)
    }

    /// The number of cells in the auxiliary grid: the cells from which a
    /// workgroup fetches the particles that lie just outside its own cell.
    pub fn calculate_total_aux_cells(&self) -> (r: u32)
        requires
            (self.grid_dimensions.x + 1) * (self.grid_dimensions.y + 1) <= u32::MAX,
        ensures
            r == (self.grid_dimensions.x + 1) * (self.grid_dimensions.y + 1),
    {
        let width: u64 = self.grid_dimensions.x as u64 + 1;
        let height: u64 = self.grid_dimensions.y as u64 + 1;
        assert(width * height <= 0x1_0000_0000 * 0x1_0000_0000) by (nonlinear_arith)
            requires
                width <= 0x1_0000_0000,
                height <= 0x1_0000_0000,
        ;
        (width * height) as u32
    }

    /// Brings `grid_dimensions` up to date with the viewport.
    pub fn update_grid_size(&mut self)
        requires
            old(self).valid(),
        ensures
            final(self).cell_size == old(self).cell_size,
            final(self).viewport == old(self).viewport,
            final(self).wf(),
    {
        let (_cell_list, dimensions) = self.get_active_cells();
        self.grid_dimensions = dimensions;
    }

    /// The packed layout of all the particles that `store` holds for the
    /// active cells.
    ///
    /// Fails with `CapacityExceeded` exactly when those particles are more
    /// than a `u32` can count.
    pub fn create_packed_data(&self, store: &ParticleStore) -> (r: Result<PackedData, WrachError>)
        requires
            self.valid(),
        ensures
            match r {
                Ok(data) => is_packing(store, self.active_cells(), &data),
                Err(e) => e == WrachError::CapacityExceeded && packed_positions(
                    store,
                    self.active_cells(),
                ).len() > u32::MAX,
            },
            r.is_ok() <==> packed_positions(store, self.active_cells()).len() <= u32::MAX,
    {
        let (cells, _grid) = self.get_active_cells();
        let mut indices: Vec<u32> = Vec::new();
        let mut positions: Vec<Vec2> = Vec::new();
        let mut velocities: Vec<Vec2> = Vec::new();
        let mut current_index: u32 = 0;

        // The first zero points to the beginning of the packed data. The
        // second is there because the prefix sum shifts its items one to the
        // right.
        indices.push(current_index);
        indices.push(current_index);

        let ghost all = cells@;
        assert(all.take(0) =~= Seq::<SpatialBinCoord>::empty());
        let mut k: usize = 0;
        while k < cells.len()
            invariant
                0 <= k <= cells@.len(),
                all == cells@,
                all == self.active_cells(),
                indices@.len() == k + 2,
                indices@[0] == 0,
                forall|j: int|
                    0 <= j <= k ==> #[trigger] indices@[j + 1] == packed_positions(
                        store,
                        all.take(j),
                    ).len(),
                positions@ == packed_positions(store, all.take(k as int)),
                velocities@ == packed_velocities(store, all.take(k as int)),
                current_index == positions@.len(),
            decreases cells@.len() - k,
        {
            let cell = cells[k];
            proof {
                lemma_packed_positions_step(store, all, k as int);
            }
            match store.particles_in_cell(cell) {
                Some(particles) => {
                    let particle_count: usize = particles.positions.len();
                    if particle_count > (u32::MAX - current_index) as usize {
                        proof {
                            lemma_packed_positions_monotone(
                                store,
                                all,
                                k as int + 1,
                                all.len() as int,
                            );
                            assert(all.take(all.len() as int) =~= all);
                        }
                        return Err(WrachError::CapacityExceeded);
                    }
                    current_index += particle_count as u32;
                    extend(&mut positions, &particles.positions);
                    extend(&mut velocities, &particles.velocities);
                },
                None => {
                    assert(positions@ + Seq::<Vec2>::empty() =~= positions@);
                    assert(velocities@ + Seq::<Vec2>::empty() =~= velocities@);
                },
            }
            indices.push(current_index);
            k += 1;
        }
        proof {
            assert(all.take(all.len() as int) =~= all);
        }
        Ok(PackedData { indices, positions, velocities })
    }
}

/// The number of integers in `first..=last`.
fn axis_span(first: i32, last: i32) -> (r: u64)
    ensures
        r == span(first as int, last as int),
{
    if last >= first {
        (last as i64 - first as i64 + 1) as u64
    } else {
        0
    }
}

/// Appends the items of `source` to `target`.
pub fn extend(target: &mut Vec<Vec2>, source: &Vec<Vec2>)
    ensures
        final(target)@ == old(target)@ + source@,
{
    let mut i: usize = 0;
    while i < source.len()
        invariant
            0 <= i <= source@.len(),
            target@ == old(target)@ + source@.take(i as int),
        decreases source@.len() - i,
    {
        target.push(source[i]);
        proof {
            assert(source@.take(i as int + 1) =~= source@.take(i as int).push(source@[i as int]));
            assert(target@ =~= old(target)@ + source@.take(i as int + 1));
        }
        i += 1;
    }
    proof {
        assert(source@.take(source@.len() as int) =~= source@);
    }
}

/// How many times `cell` is among `cells`.
pub open spec fn spec_occurrences(cells: Seq<SpatialBinCoord>, cell: SpatialBinCoord) -> int
    decreases cells.len(),
{
    if cells.len() == 0 {
        0
    } else {
        spec_occurrences(cells.drop_last(), cell) + (if cells.last() == cell {
            1int
        } else {
            0int
        })
    }
}

/// A cell under the viewport is among the active cells once, and any other
/// cell not at all.
pub proof fn lemma_active_once(bin: &SpatialBin, cell: SpatialBinCoord, length: int)
    requires
        bin.valid(),
        0 <= length <= bin.active_cell_count(),
    ensures
        spec_occurrences(bin.active_cells().take(length), cell) == (if bin.spec_is_active(cell)
            && bin.spec_index_of(cell) < length {
            1int
        } else {
            0int
        }),
    decreases length,
{
    let cells = bin.active_cells();
    if length > 0 {
        lemma_active_once(bin, cell, length - 1);
        assert(cells.take(length).drop_last() =~= cells.take(length - 1));
        assert(cells.take(length).last() == bin.active_cell(length - 1));
        bin.lemma_active_cell_index(length - 1);
        if bin.spec_is_active(cell) {
            bin.lemma_index_of_active(cell);
        }
    }
}

} // verus!
