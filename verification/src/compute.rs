//! The compute pipeline: its buffers, its passes, and the order in which a
//! tick runs them.

pub mod agreement;
pub mod buffers;
pub mod builder;
pub mod idle;
pub mod integration;
pub mod pack_particle_data;
pub mod particles_cell_count;
pub mod prefix_sum;
pub mod worker;
