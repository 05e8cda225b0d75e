//! The workgroup-local neighbour search: each workgroup copies its part of
//! the pixel grid into local memory and finds the neighbours of its
//! particles there.

pub mod compute;
pub mod neighbours;
pub mod particle;
pub mod workgroup;
pub mod world;
