//! The ways in which the simulation can refuse an input.

use vstd::prelude::*;

verus! {

/// Why an operation of the simulation failed.
#[derive(Clone, Copy, Debug, PartialEq, Eq, Structural, Hash)]
pub enum WrachError {
    /// A zero dimension, a zero cell size, or a viewport smaller than one cell.
    InvalidConfig,
    /// The grid has more cells than the two-stage prefix sum can scan.
    ConfigurationTooLarge,
    /// More particles than a `u32` can count, or than the frame has room for.
    CapacityExceeded,
    /// The device was lost; the instance cannot be used any more.
    DeviceLost,
    /// No tick has completed yet, so there is nothing to read back.
    NotReady,
}

} // verus!
