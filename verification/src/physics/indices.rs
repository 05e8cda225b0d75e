//! Where the particles of a cell and of its four corner cells are found: in
//! the packed buffers, and in the memory local to the workgroup.

use vstd::prelude::*;

verus! {

/// The maximum number of particles of a cell that take part in pairwise
/// physics: one per unit square of a cell of the standard side.
pub const MAX_PARTICLES_IN_CELL: usize = 4;

/// The cell capacity is the square of the standard cell side.
pub proof fn lemma_cell_capacity_is_cell_area()
    ensures
        MAX_PARTICLES_IN_CELL == crate::shared::SPATIAL_BIN_CELL_SIZE
            * crate::shared::SPATIAL_BIN_CELL_SIZE,
{
}

/// Starting and ending indices for the particles of a cell.
#[derive(Debug, Copy, Clone, PartialEq, Eq, Structural)]
pub struct Range {
    /// The index at which the particles start.
    pub from: usize,
    /// The index by which the particles are finished: the range does not
    /// include it.
    pub end_by: usize,
}

/// Where the particles of one cell are, in both memories.
#[derive(Debug, Copy, Clone, PartialEq, Eq, Structural)]
pub struct Storage {
    /// In the packed buffers.
    pub global: Range,
    /// In the memory local to the workgroup.
    pub local: Range,
}

/// Which of the five cells that a workgroup loads.
#[derive(Debug, Copy, Clone, PartialEq, Eq, Structural)]
pub enum Location {
    /// The workgroup's own cell, from the main grid.
    Centre,
    /// The auxiliary cell at the bottom-left corner.
    BottomLeft,
    /// The auxiliary cell at the bottom-right corner.
    BottomRight,
    /// The auxiliary cell at the top-left corner.
    TopLeft,
    /// The auxiliary cell at the top-right corner.
    TopRight,
}

/// All the indices that a workgroup needs.
#[derive(Debug)]
pub struct Indices {
    /// By how much the local ranges of the corner cells are moved down.
    pub workgroup_offset: usize,
    /// The workgroup's own cell.
    pub centre: Storage,
    /// The auxiliary cell at the bottom-left corner.
    pub bottom_left: Storage,
    /// The auxiliary cell at the bottom-right corner.
    pub bottom_right: Storage,
    /// The auxiliary cell at the top-left corner.
    pub top_left: Storage,
    /// The auxiliary cell at the top-right corner.
    pub top_right: Storage,
}

impl Location {
    /// How many slots after the slot of the bottom-left corner the slot of
    /// this location comes, in an index buffer whose rows are `stride` slots
    /// long.
    pub open spec fn spec_slot_offset(self, stride: int) -> int {
        match self {
            Location::Centre => 0,
            Location::BottomLeft => 0,
            Location::BottomRight => 1,
            Location::TopLeft => stride,
            Location::TopRight => stride + 1,
        }
    }

    /// Where in local memory the particles of this location start, before the
    /// workgroup offset is taken off.
    pub open spec fn spec_local_start(self) -> int {
        match self {
            Location::Centre => 0,
            Location::BottomLeft => MAX_PARTICLES_IN_CELL as int,
            Location::BottomRight => MAX_PARTICLES_IN_CELL * 2,
            Location::TopLeft => MAX_PARTICLES_IN_CELL * 3,
            Location::TopRight => MAX_PARTICLES_IN_CELL * 4,
        }
    }
}

/// The storage of the cell whose range starts at `index_buffer[slot]` and ends
/// by `index_buffer[slot + 1]`, when its particles go to local memory from
/// `local_start` on.
pub open spec fn spec_storage(index_buffer: Seq<u32>, slot: int, local_start: int) -> Storage {
    Storage {
        global: Range {
            from: index_buffer[slot] as usize,
            end_by: index_buffer[slot + 1] as usize,
        },
        local: Range {
            from: local_start as usize,
            end_by: (local_start + (index_buffer[slot + 1] - index_buffer[slot])) as usize,
        },
    }
}

/// `index_buffer` has the slots `slot` and `slot + 1`, they are in order, and
/// the end of the local range of a cell that long can be held in a `usize`.
pub open spec fn slot_readable(index_buffer: Seq<u32>, slot: int) -> bool {
    &&& 0 <= slot
    &&& slot + 1 < index_buffer.len()
    &&& index_buffer[slot] <= index_buffer[slot + 1]
    &&& index_buffer[slot + 1] - index_buffer[slot] + MAX_PARTICLES_IN_CELL * 4 <= usize::MAX
}

impl Indices {
    /// What [`Indices::locate`] needs of its arguments: every slot that it
    /// reads exists, the two ends of every range are in order, and the
    /// workgroup offset is no more than the room of one cell.
    pub open spec fn locatable(
        index_main: Seq<u32>,
        index_aux: Seq<u32>,
        main_slot: int,
        aux_slot: int,
        aux_stride: int,
        workgroup_offset: int,
    ) -> bool {
        &&& aux_stride >= 0
        &&& workgroup_offset <= MAX_PARTICLES_IN_CELL
        &&& slot_readable(index_main, main_slot)
        &&& slot_readable(index_aux, aux_slot)
        &&& slot_readable(index_aux, aux_slot + 1)
        &&& slot_readable(index_aux, aux_slot + aux_stride)
        &&& slot_readable(index_aux, aux_slot + aux_stride + 1)
    }

    /// The indices that [`Indices::locate`] returns.
    pub open spec fn spec_locate(
        index_main: Seq<u32>,
        index_aux: Seq<u32>,
        main_slot: int,
        aux_slot: int,
        aux_stride: int,
        workgroup_offset: int,
    ) -> Indices {
        Indices {
            workgroup_offset: workgroup_offset as usize,
            centre: spec_storage(index_main, main_slot, 0),
            bottom_left: spec_storage(
                index_aux,
                aux_slot,
                Location::BottomLeft.spec_local_start() - workgroup_offset,
            ),
            bottom_right: spec_storage(
                index_aux,
                aux_slot + 1,
                Location::BottomRight.spec_local_start() - workgroup_offset,
            ),
            top_left: spec_storage(
                index_aux,
                aux_slot + aux_stride,
                Location::TopLeft.spec_local_start() - workgroup_offset,
            ),
            top_right: spec_storage(
                index_aux,
                aux_slot + aux_stride + 1,
                Location::TopRight.spec_local_start() - workgroup_offset,
            ),
        }
    }

    /// The indices of the cell whose range starts at slot `cell_index` of
    /// both index buffers, where a row of the auxiliary grid is two cells
    /// longer than the `grid_width` cells of a row of the main grid.
    pub fn new(
        index_main: &[u32],
        index_aux: &[u32],
        cell_index: usize,
        grid_width: u32,
        workgroup_offset: usize,
    ) -> (r: Self)
        requires
            Self::locatable(
                index_main@,
                index_aux@,
                cell_index as int,
                cell_index as int,
                grid_width + 2,
                workgroup_offset as int,
            ),
        ensures
            r == Self::spec_locate(
                index_main@,
                index_aux@,
                cell_index as int,
                cell_index as int,
                grid_width + 2,
                workgroup_offset as int,
            ),
    {
        let aux_slots = index_aux.len();
        assert(grid_width + 2 < aux_slots);
        let aux_grid_width = grid_width as usize + 2;
        Self::locate(
            index_main,
            index_aux,
            cell_index,
            cell_index,
            aux_grid_width,
            workgroup_offset,
        )
    }

    /// The indices of a cell whose own range starts at slot `main_slot` of
    /// the main index buffer, and whose bottom-left corner cell has its range
    /// start at slot `aux_slot` of the auxiliary index buffer, a row of which
    /// is `aux_stride` slots long.
    ///
    /// Locally the centre cell starts at 0 and the corner cells follow, one
    /// cell capacity apart, moved down by `workgroup_offset`.
    pub fn locate(
        index_main: &[u32],
        index_aux: &[u32],
        main_slot: usize,
        aux_slot: usize,
        aux_stride: usize,
        workgroup_offset: usize,
    ) -> (r: Self)
        requires
            Self::locatable(
                index_main@,
                index_aux@,
                main_slot as int,
                aux_slot as int,
                aux_stride as int,
                workgroup_offset as int,
            ),
        ensures
            r == Self::spec_locate(
                index_main@,
                index_aux@,
                main_slot as int,
                aux_slot as int,
                aux_stride as int,
                workgroup_offset as int,
            ),
    {
        Indices {
            workgroup_offset,
            centre: Self::get_start_end_indices_of_particles_in_cell(
                index_main,
                Location::Centre,
                main_slot,
                aux_stride,
                0,
            ),
            bottom_left: Self::get_start_end_indices_of_particles_in_cell(
                index_aux,
                Location::BottomLeft,
                aux_slot,
                aux_stride,
                workgroup_offset,
            ),
            bottom_right: Self::get_start_end_indices_of_particles_in_cell(
                index_aux,
                Location::BottomRight,
                aux_slot,
                aux_stride,
                workgroup_offset,
            ),
            top_left: Self::get_start_end_indices_of_particles_in_cell(
                index_aux,
                Location::TopLeft,
                aux_slot,
                aux_stride,
                workgroup_offset,
            ),
            top_right: Self::get_start_end_indices_of_particles_in_cell(
                index_aux,
                Location::TopRight,
                aux_slot,
                aux_stride,
                workgroup_offset,
            ),
        }
    }

    /// Where the first and last particles of the cell at `location` are,
    /// given the slot of the cell at the bottom-left.
    fn get_start_end_indices_of_particles_in_cell(
        index_buffer: &[u32],
        location: Location,
        first_slot: usize,
        stride: usize,
        workgroup_offset: usize,
    ) -> (r: Storage)
        requires
            slot_readable(
                index_buffer@,
                first_slot as int + location.spec_slot_offset(stride as int),
            ),
            workgroup_offset <= location.spec_local_start(),
        ensures
            r == spec_storage(
                index_buffer@,
                first_slot as int + location.spec_slot_offset(stride as int),
                location.spec_local_start() - workgroup_offset,
            ),
    {
        let slots = index_buffer.len();
        assert(first_slot + location.spec_slot_offset(stride as int) + 1 < slots);
        let (cell_index, local_index): (usize, usize) = match location {
            Location::Centre => (first_slot, 0),
            Location::BottomLeft => (first_slot, MAX_PARTICLES_IN_CELL),
            Location::BottomRight => (first_slot + 1, MAX_PARTICLES_IN_CELL * 2),
            Location::TopLeft => (first_slot + stride, MAX_PARTICLES_IN_CELL * 3),
            Location::TopRight => (first_slot + stride + 1, MAX_PARTICLES_IN_CELL * 4),
        };

        let particles_start_at: u32 = index_buffer[cell_index];
        let marker: u32 = index_buffer[cell_index + 1];
        let particles_count: u32 = marker - particles_start_at;
        let particles_end_by: u32 = particles_start_at + particles_count;

        let global = Range { from: particles_start_at as usize, end_by: particles_end_by as usize };
        let local = Range {
            from: local_index - workgroup_offset,
            end_by: local_index + particles_count as usize - workgroup_offset,
        };

        Storage { global, local }
    }
}

} // verus!
