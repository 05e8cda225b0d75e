//! The settings that every compute pass is bound to.

use crate::math::{UVec2, Vec2};
use crate::scalar::spec_cell_index;
use vstd::prelude::*;

verus! {

/// What a pass needs to know about the simulation world.
#[derive(Clone, Copy, Debug, PartialEq, Eq, Structural)]
pub struct ShaderWorldSettings {
    /// Dimensions of the view onto the simulation.
    pub view_dimensions: Vec2,
    /// Position of the viewport: its bottom-left corner.
    pub view_anchor: Vec2,
    /// The dimensions of the spatial bin grid, in cells.
    pub grid_dimensions: UVec2,
    /// The side of a spatial bin cell.
    pub cell_size: u32,
    /// The number of particles simulated in this frame; normally far fewer
    /// than the particles on record.
    pub particles_in_frame_count: u32,
}

/// The settings as the compute kernels name them.
pub type WorldSettings = ShaderWorldSettings;

impl Default for ShaderWorldSettings {
    fn default() -> (r: Self)
        ensures
            r.view_dimensions.x.raw == 0,
            r.view_dimensions.y.raw == 0,
            r.view_anchor.x.raw == 0,
            r.view_anchor.y.raw == 0,
            r.grid_dimensions.x == 0,
            r.grid_dimensions.y == 0,
            r.cell_size == 0,
            r.particles_in_frame_count == 0,
    {
        ShaderWorldSettings {
            view_dimensions: Vec2::default(),
            view_anchor: Vec2::default(),
            grid_dimensions: UVec2::default(),
            cell_size: 0,
            particles_in_frame_count: 0,
        }
    }
}

impl ShaderWorldSettings {
    /// The bottom-left corner of the viewport.
    pub open spec fn lower(&self) -> Vec2 {
        self.view_anchor
    }

    /// The top-right corner of the viewport.
    pub open spec fn upper(&self) -> Vec2 {
        self.view_anchor.spec_saturating_add(self.view_dimensions)
    }

    /// The number of cells of the main grid.
    pub open spec fn main_cells(&self) -> int {
        self.grid_dimensions.x * self.grid_dimensions.y
    }

    /// The number of cells of the auxiliary grid.
    pub open spec fn aux_cells(&self) -> int {
        (self.grid_dimensions.x + 1) * (self.grid_dimensions.y + 1)
    }

    /// The number of the main cell in which `position` lies, if it lies in the
    /// grid: cells are numbered row by row from the cell that holds the anchor
    /// of the viewport.
    pub open spec fn spec_main_cell(&self, position: Vec2) -> Option<int> {
        let column = spec_cell_index(position.x.raw as int, self.cell_size as int)
            - spec_cell_index(self.view_anchor.x.raw as int, self.cell_size as int);
        let row = spec_cell_index(position.y.raw as int, self.cell_size as int) - spec_cell_index(
            self.view_anchor.y.raw as int,
            self.cell_size as int,
        );
        if 0 <= column < self.grid_dimensions.x && 0 <= row < self.grid_dimensions.y {
            Some(row * self.grid_dimensions.x + column)
        } else {
            None
        }
    }

    /// The number of the auxiliary cell at the bottom-left corner of main
    /// cell `cell`. The other corners follow at distances of 1, of a row of
    /// the auxiliary grid, and of a row and 1.
    pub open spec fn spec_corner(&self, cell: int) -> int {
        (cell / (self.grid_dimensions.x as int)) * (self.grid_dimensions.x + 1) + cell % (
        self.grid_dimensions.x as int)
    }

    /// Auxiliary cell `aux` is one of the four corners of main cell `cell`.
    pub open spec fn spec_is_corner(&self, cell: int, aux: int) -> bool {
        let corner = self.spec_corner(cell);
        ||| aux == corner
        ||| aux == corner + 1
        ||| aux == corner + self.grid_dimensions.x + 1
        ||| aux == corner + self.grid_dimensions.x + 2
    }

    /// The cell size is positive and both grids can be counted in a `u32`
    /// together with the two extra items of their prefix sums.
    pub open spec fn spec_countable(&self) -> bool {
        &&& self.cell_size > 0
        &&& self.aux_cells() + 2 <= u32::MAX
    }

    /// A grid that can be counted has its main cells within its auxiliary
    /// cells.
    pub proof fn lemma_grid_bounds(&self)
        requires
            self.spec_countable(),
        ensures
            0 <= self.main_cells() <= self.aux_cells(),
            self.main_cells() + self.grid_dimensions.x + self.grid_dimensions.y + 1
                == self.aux_cells(),
    {
        let w = self.grid_dimensions.x as int;
        let h = self.grid_dimensions.y as int;
        assert(0 <= w * h && (w + 1) * (h + 1) == w * h + w + h + 1) by (nonlinear_arith)
            requires
                0 <= w,
                0 <= h,
        ;
    }

    /// The corners of a main cell are auxiliary cells.
    pub proof fn lemma_corner_bounds(&self, cell: int)
        requires
            self.spec_countable(),
            0 <= cell < self.main_cells(),
        ensures
            self.grid_dimensions.x >= 1,
            self.grid_dimensions.y >= 1,
            0 <= cell % (self.grid_dimensions.x as int) < self.grid_dimensions.x,
            0 <= cell / (self.grid_dimensions.x as int) < self.grid_dimensions.y,
            0 <= self.spec_corner(cell),
            self.spec_corner(cell) + self.grid_dimensions.x + 2 < self.aux_cells(),
            self.spec_corner(cell) == cell + cell / (self.grid_dimensions.x as int),
    {
        let w = self.grid_dimensions.x as int;
        let h = self.grid_dimensions.y as int;
        assert(w >= 1 && h >= 1) by (nonlinear_arith)
            requires
                1 <= w * h,
                0 <= w,
                0 <= h,
        ;
        vstd::arithmetic::div_mod::lemma_fundamental_div_mod(cell, w);
        vstd::arithmetic::div_mod::lemma_mod_bound(cell, w);
        vstd::arithmetic::div_mod::lemma_div_pos_is_pos(cell, w);
        let row = cell / w;
        let column = cell % w;
        assert(row < h) by (nonlinear_arith)
            requires
                cell == w * row + column,
                0 <= column,
                cell < w * h,
                w >= 1,
        ;
        assert(row * (w + 1) + column + w + 2 < (w + 1) * (h + 1) && 0 <= row * (w + 1) && row * (
        w + 1) == w * row + row) by (nonlinear_arith)
            requires
                0 <= row < h,
                0 <= column < w,
        ;
    }

    /// The number of the main cell in which `position` lies, if it lies in the
    /// grid.
    pub fn main_cell(&self, position: Vec2) -> (r: Option<u32>)
        requires
            self.spec_countable(),
        ensures
            match r {
                Some(cell) => self.spec_main_cell(position) == Some(cell as int) && cell
                    < self.main_cells(),
                None => self.spec_main_cell(position).is_none(),
            },
    {
        proof {
            self.lemma_grid_bounds();
        }
        let column: i64 = position.x.cell_index(self.cell_size) as i64 -
            self.view_anchor.x.cell_index(
            self.cell_size,
        ) as i64;
        let row: i64 = position.y.cell_index(self.cell_size) as i64 - self.view_anchor.y.cell_index(
            self.cell_size,
        ) as i64;
        let width = self.grid_dimensions.x as i64;
        let height = self.grid_dimensions.y as i64;
        if 0 <= column && column < width && 0 <= row && row < height {
            assert(0 <= row * width + column < width * height && row * width <= width * height)
                by (nonlinear_arith)
                requires
                    0 <= column < width,
                    0 <= row < height,
            ;
            Some((row * width + column) as u32)
        } else {
            None
        }
    }

    /// The number of the auxiliary cell at the bottom-left corner of main
    /// cell `cell`.
    pub fn corner(&self, cell: u32) -> (r: u32)
        requires
            self.spec_countable(),
            cell < self.main_cells(),
        ensures
            r == self.spec_corner(cell as int),
            r + self.grid_dimensions.x + 2 < self.aux_cells(),
    {
        proof {
            self.lemma_corner_bounds(cell as int);
        }
        let width = self.grid_dimensions.x;
        cell + cell / width
    }

    /// Neither dimension of the view is negative, so the viewport is not
    /// empty.
    pub open spec fn has_room(&self) -> bool {
        self.view_dimensions.x.raw >= 0 && self.view_dimensions.y.raw >= 0
    }
}

/// `position` lies inside the viewport of `settings`, edges included.
pub open spec fn in_viewport(settings: &ShaderWorldSettings, position: Vec2) -> bool {
    &&& settings.lower().x.raw <= position.x.raw <= settings.upper().x.raw
    &&& settings.lower().y.raw <= position.y.raw <= settings.upper().y.raw
}

} // verus!
