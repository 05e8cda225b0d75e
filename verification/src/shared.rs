//! Constants on which the host side and the compute kernels must agree.

use vstd::prelude::*;

verus! {

/// The side of a single spatial bin cell, in particle diameters.
pub const SPATIAL_BIN_CELL_SIZE: u16 = 2;

/// The prefix sum writes its results one slot to the right, so every reader
/// adds one to a cell index before it looks the cell up.
pub const PREFIX_SUM_OFFSET_HACK: u32 = 1;

/// One extra item at the end of a prefix sum, so that the last cell has an
/// end marker like every other cell.
pub const PREFIX_SUM_GUARD_ITEM: u32 = 1;

/// The most items that the two-stage prefix sum can scan.
pub const MAX_CELLS_FOR_PREFIX_SUM_PIPELINE: u32 = 4_194_304;

/// The number of items that one workgroup of the prefix sum handles.
pub const PREFIX_SUM_ITEMS_PER_WORKGROUP: u32 = 2048;

/// The number of threads in a workgroup of the per-particle passes.
pub const PARTICLE_WORKGROUP_LOCAL_SIZE: u32 = 64;

} // verus!
