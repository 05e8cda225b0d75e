//! What the host can configure.

use crate::error::WrachError;
use crate::shared::SPATIAL_BIN_CELL_SIZE;
use vstd::prelude::*;

verus! {

/// All the configuration of a simulation.
#[derive(Clone, Copy, Debug, PartialEq, Eq)]
pub struct WrachConfig {
    /// Dimensions of the view onto the simulation. They need not be those of
    /// any window.
    pub dimensions: (u16, u16),
    /// Should particles be limited to the viewport?
    pub boundaries_as_dimensions: bool,
    /// The side of a cell of the spatial binning grid, in particle
    /// diameters.
    pub cell_size: u16,
    /// Leaves the physics pass out of the pipeline, so that what the passes
    /// before it produce can be read back.
    pub exclude_integration_pass: bool,
}

impl Default for WrachConfig {
    fn default() -> (r: Self)
        ensures
            r.dimensions == (480u16, 352u16),
            !r.boundaries_as_dimensions,
            r.cell_size == SPATIAL_BIN_CELL_SIZE,
            !r.exclude_integration_pass,
    {
        WrachConfig {
            dimensions: (480, 352),
            boundaries_as_dimensions: false,
            cell_size: SPATIAL_BIN_CELL_SIZE,
            exclude_integration_pass: false,
        }
    }
}

impl WrachConfig {
    /// No dimension is zero, the cell size is not zero, and the viewport is
    /// at least one cell wide and one cell high.
    pub open spec fn spec_valid(&self) -> bool {
        &&& self.cell_size > 0
        &&& self.dimensions.0 >= self.cell_size
        &&& self.dimensions.1 >= self.cell_size
    }

    /// Checks the configuration: fails with `InvalidConfig` unless
    /// [`WrachConfig::spec_valid`] holds.
    pub fn validate(&self) -> (r: Result<(), WrachError>)
        ensures
            r.is_ok() <==> self.spec_valid(),
            r matches Err(e) ==> e == WrachError::InvalidConfig,
    {
        if self.cell_size == 0 || self.dimensions.0 < self.cell_size || self.dimensions.1
            < self.cell_size {
            Err(WrachError::InvalidConfig)
        } else {
            Ok(())
        }
    }
}

} // verus!
