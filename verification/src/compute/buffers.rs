//! The names of the buffers, so that every pass and every reader refers to a
//! buffer in the same way.

use vstd::prelude::*;

verus! {

/// Just a place to keep buffer names.
pub struct Buffers;

impl Buffers {
    /// The settings of the simulation.
    pub const WORLD_SETTINGS_UNIFORM: &'static str = "world_settings";

    /// Running totals of particles per cell of the main grid.
    pub const INDICES_MAIN: &'static str = "indices_main";

    /// Running totals for the auxiliary grid, from which a cell gets the
    /// particles around it.
    pub const INDICES_AUX: &'static str = "indices_aux";

    /// A scratch buffer for the prefix sum.
    pub const INDICES_BLOCK_SUMS: &'static str = "indices_block_sums";

    /// Particle positions for reading.
    pub const POSITIONS_IN: &'static str = "positions_in";

    /// Particle positions for writing.
    pub const POSITIONS_OUT: &'static str = "positions_out";

    /// Particle velocities for reading.
    pub const VELOCITIES_IN: &'static str = "velocities_in";

    /// Particle velocities for writing.
    pub const VELOCITIES_OUT: &'static str = "velocities_out";

    /// Positions of the particles that surround a cell.
    pub const POSITIONS_AUX: &'static str = "positions_aux";

    /// Velocities of the particles that surround a cell.
    pub const VELOCITIES_AUX: &'static str = "velocities_aux";
}

/// A buffer of the pipeline, by its role.
#[derive(Clone, Copy, Debug, PartialEq, Eq, Structural, Hash)]
pub enum BufferId {
    /// The settings block that every pass is bound to.
    WorldSettings,
    /// Prefix sum of the main grid.
    IndicesMain,
    /// Prefix sum of the auxiliary grid.
    IndicesAux,
    /// Scratch space of the prefix sum pass.
    IndicesBlockSums,
    /// Positions that the passes read.
    PositionsIn,
    /// Positions that the host reads.
    PositionsOut,
    /// Velocities that the passes read.
    VelocitiesIn,
    /// Velocities that the host reads.
    VelocitiesOut,
    /// Positions in the layout of the auxiliary grid.
    PositionsAux,
    /// Velocities in the layout of the auxiliary grid.
    VelocitiesAux,
}

/// How a buffer is stored.
#[derive(Clone, Copy, Debug, PartialEq, Eq, Structural, Hash)]
pub enum BufferKind {
    /// A uniform block that the host can write.
    Uniform,
    /// A buffer that the host can read back.
    Staging,
    /// A buffer that only the device sees.
    Storage,
}

impl BufferId {
    /// The name of the buffer.
    pub open spec fn spec_name(self) -> Seq<char> {
        match self {
            BufferId::WorldSettings => Buffers::WORLD_SETTINGS_UNIFORM@,
            BufferId::IndicesMain => Buffers::INDICES_MAIN@,
            BufferId::IndicesAux => Buffers::INDICES_AUX@,
            BufferId::IndicesBlockSums => Buffers::INDICES_BLOCK_SUMS@,
            BufferId::PositionsIn => Buffers::POSITIONS_IN@,
            BufferId::PositionsOut => Buffers::POSITIONS_OUT@,
            BufferId::VelocitiesIn => Buffers::VELOCITIES_IN@,
            BufferId::VelocitiesOut => Buffers::VELOCITIES_OUT@,
            BufferId::PositionsAux => Buffers::POSITIONS_AUX@,
            BufferId::VelocitiesAux => Buffers::VELOCITIES_AUX@,
        }
    }

    /// The name of the buffer.
    pub fn name(self) -> (r: &'static str)
        ensures
            r@ == self.spec_name(),
    {
        match self {
            BufferId::WorldSettings => Buffers::WORLD_SETTINGS_UNIFORM,
            BufferId::IndicesMain => Buffers::INDICES_MAIN,
            BufferId::IndicesAux => Buffers::INDICES_AUX,
            BufferId::IndicesBlockSums => Buffers::INDICES_BLOCK_SUMS,
            BufferId::PositionsIn => Buffers::POSITIONS_IN,
            BufferId::PositionsOut => Buffers::POSITIONS_OUT,
            BufferId::VelocitiesIn => Buffers::VELOCITIES_IN,
            BufferId::VelocitiesOut => Buffers::VELOCITIES_OUT,
            BufferId::PositionsAux => Buffers::POSITIONS_AUX,
            BufferId::VelocitiesAux => Buffers::VELOCITIES_AUX,
        }
    }

    /// How the buffer is stored: the settings are a uniform block, what the
    /// host reads back is staged, and the rest stays on the device.
    pub fn kind(self) -> (r: BufferKind)
        ensures
            r == self.spec_kind(),
    {
        match self {
            BufferId::WorldSettings => BufferKind::Uniform,
            BufferId::IndicesMain => BufferKind::Staging,
            BufferId::IndicesAux => BufferKind::Staging,
            BufferId::PositionsOut => BufferKind::Staging,
            BufferId::VelocitiesOut => BufferKind::Staging,
            BufferId::IndicesBlockSums => BufferKind::Storage,
            BufferId::PositionsIn => BufferKind::Storage,
            BufferId::VelocitiesIn => BufferKind::Storage,
            BufferId::PositionsAux => BufferKind::Storage,
            BufferId::VelocitiesAux => BufferKind::Storage,
        }
    }

    /// How the buffer is stored.
    pub open spec fn spec_kind(self) -> BufferKind {
        match self {
            BufferId::WorldSettings => BufferKind::Uniform,
            BufferId::IndicesMain => BufferKind::Staging,
            BufferId::IndicesAux => BufferKind::Staging,
            BufferId::PositionsOut => BufferKind::Staging,
            BufferId::VelocitiesOut => BufferKind::Staging,
            BufferId::IndicesBlockSums => BufferKind::Storage,
            BufferId::PositionsIn => BufferKind::Storage,
            BufferId::VelocitiesIn => BufferKind::Storage,
            BufferId::PositionsAux => BufferKind::Storage,
            BufferId::VelocitiesAux => BufferKind::Storage,
        }
    }
}

} // verus!
