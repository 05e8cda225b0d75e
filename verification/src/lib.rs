//! Two-dimensional pixel-particle physics on a uniform spatial grid.
//!
//! A simulation keeps all its particles in a [`ParticleStore`], keyed by the
//! cell of the grid in which they lie. For every frame the particles under
//! the viewport are packed cell by cell and handed to a pipeline of compute
//! passes: the particles of each cell are counted, the counts are turned into
//! running totals, the particles are packed again by those totals, and the
//! physics of every cell pushes apart the particles that are too close, moves
//! each by its velocity and holds it to the walls of the viewport and to the
//! speed limit.
//!
//! All numbers are fixed-point scalars: see [`scalar`]. A host that works in
//! single-precision floats hands them over, and takes them back, as bit
//! patterns: see [`single`] and [`api`].

pub mod api;
pub mod compute;
pub mod config_app;
pub mod config_shader;
pub mod error;
pub mod math;
pub mod packing;
pub mod particle_store;
pub mod physics;
pub mod plugin;
pub mod scalar;
pub mod shaders;
pub mod shared;
pub mod single;
pub mod spatial_bin;
pub mod state;

pub use crate::config_app::WrachConfig;
pub use crate::error::WrachError;
pub use crate::particle_store::ParticleStore;
pub use crate::state::Particle;
pub use crate::state::WrachState;
