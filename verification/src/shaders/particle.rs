//! Particles as the device keeps them, and as a workgroup keeps them.

use crate::math::{Vec2, Vec4};
use crate::physics::neighbours::spec_zero;
use crate::physics::world::{scale, spec_scale, World};
use crate::scalar::Scalar;
use vstd::prelude::*;

verus! {

/// The number of a particle among all particles.
#[derive(Default, Copy, Clone, Debug, PartialEq, Eq, Structural)]
pub struct ParticleIDGlobal {
    /// The number.
    pub id: u32,
}

impl ParticleIDGlobal {
    /// The ID that stands for no particle.
    pub fn null() -> (r: u32)
        ensures
            r == u32::MAX,
    {
        u32::MAX
    }
}

/// The number of a particle among the particles of a workgroup.
#[derive(Default, Copy, Clone, Debug, PartialEq, Eq, Structural)]
pub struct ParticleIDLocal {
    /// The number.
    pub id: u32,
}

impl ParticleIDLocal {
    /// The ID that stands for no particle.
    pub fn null() -> (r: u32)
        ensures
            r == u32::MAX,
    {
        u32::MAX
    }
}

/// A particle as the device keeps it. The order of the fields is that of the
/// device's memory.
#[derive(Copy, Clone, Debug, PartialEq, Eq, Structural)]
pub struct ParticleGlobal {
    /// The colour in which the particle is drawn.
    pub color: Vec4,
    /// Where the particle is.
    pub position: Vec2,
    /// How fast it moves.
    pub velocity: Vec2,
}

/// A particle as a workgroup keeps it.
#[derive(Copy, Clone, Debug, PartialEq, Eq, Structural)]
pub struct ParticleLocal {
    /// The number of the particle among all particles.
    pub id_global: ParticleIDGlobal,
    /// The colour in which the particle is drawn.
    pub color: Vec4,
    /// Where the particle is.
    pub position: Vec2,
    /// Where it was before the solver moved it.
    pub previous: Vec2,
    /// Where it was before the fluid was solved.
    pub pre_fluid_position: Vec2,
    /// How fast it moves.
    pub velocity: Vec2,
    /// The multiplier that the solver found for it.
    pub lambda: Scalar,
}

/// The colour of a particle of which nothing is known.
pub open spec fn spec_no_color() -> Vec4 {
    Vec4 { x: Scalar { raw: 0 }, y: Scalar { raw: 0 }, z: Scalar { raw: 0 }, w: Scalar { raw: 0 } }
}

/// The local particle that stands where there is none, with `id` as its
/// global ID.
pub open spec fn spec_blank_local(id: u32) -> ParticleLocal {
    ParticleLocal {
        id_global: ParticleIDGlobal { id },
        color: spec_no_color(),
        position: spec_zero(),
        previous: spec_zero(),
        pre_fluid_position: spec_zero(),
        velocity: spec_zero(),
        lambda: Scalar { raw: 0 },
    }
}

impl Default for ParticleGlobal {
    fn default() -> (r: Self)
        ensures
            r == (ParticleGlobal {
                color: spec_no_color(),
                position: spec_zero(),
                velocity: spec_zero(),
            }),
    {
        ParticleGlobal {
            color: Vec4::new(Scalar::zero(), Scalar::zero(), Scalar::zero(), Scalar::zero()),
            position: Vec2::default(),
            velocity: Vec2::default(),
        }
    }
}

impl Default for ParticleLocal {
    fn default() -> (r: Self)
        ensures
            r == spec_blank_local(0),
    {
        ParticleLocal {
            id_global: ParticleIDGlobal { id: 0 },
            color: Vec4::new(Scalar::zero(), Scalar::zero(), Scalar::zero(), Scalar::zero()),
            position: Vec2::default(),
            previous: Vec2::default(),
            pre_fluid_position: Vec2::default(),
            velocity: Vec2::default(),
            lambda: Scalar::zero(),
        }
    }
}

impl ParticleLocal {
    /// The particle `id` as a workgroup keeps it, with what the device keeps
    /// of it.
    pub fn new(id: ParticleIDGlobal, particle_global: ParticleGlobal) -> (r: ParticleLocal)
        ensures
            r == (ParticleLocal {
                id_global: id,
                position: particle_global.position,
                velocity: particle_global.velocity,
                color: particle_global.color,
                lambda: Scalar { raw: 0 },
                pre_fluid_position: spec_zero(),
                previous: spec_zero(),
            }),
    {
        ParticleLocal {
            id_global: id,
            position: particle_global.position,
            velocity: particle_global.velocity,
            color: particle_global.color,
            lambda: Scalar::zero(),
            pre_fluid_position: Vec2::default(),
            previous: Vec2::default(),
        }
    }

    /// The particle as the device keeps it.
    pub fn to_global(&self) -> (r: ParticleGlobal)
        ensures
            r == (ParticleGlobal {
                position: self.position,
                velocity: self.velocity,
                color: self.color,
            }),
    {
        ParticleGlobal { position: self.position, velocity: self.velocity, color: self.color }
    }

    /// The position of the particle on the pixel grid.
    pub fn pixel_position(&self, world: &World) -> (r: Vec2)
        requires
            world.wf(),
            world.covers(self.position),
        ensures
            r.x.raw == spec_scale(self.position.x.raw as int, world.grid_width()),
            r.y.raw == spec_scale(self.position.y.raw as int, world.grid_height()),
    {
        Vec2::new(
            scale(self.position.x, world.get_grid_width()),
            scale(self.position.y, world.get_grid_height()),
        )
    }
}

impl ParticleGlobal {
    /// The position of the particle on the pixel grid.
    pub fn pixel_position(&self, world: &World) -> (r: Vec2)
        requires
            world.wf(),
            world.covers(self.position),
        ensures
            r.x.raw == spec_scale(self.position.x.raw as int, world.grid_width()),
            r.y.raw == spec_scale(self.position.y.raw as int, world.grid_height()),
    {
        Vec2::new(
            scale(self.position.x, world.get_grid_width()),
            scale(self.position.y, world.get_grid_height()),
        )
    }
}

} // verus!
