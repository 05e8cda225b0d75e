//! The per-cell physics kernel: what one workgroup does for one cell of the
//! grid.

pub mod indices;
pub mod particle;
pub mod particles;
pub mod separation;
pub mod cell;
pub mod world;
pub mod neighbours;
