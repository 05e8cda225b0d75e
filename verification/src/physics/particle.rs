//! A single particle and everything that can be done to it.

use crate::config_shader::{in_viewport, WorldSettings};
use crate::math::Vec2;
use crate::scalar::{clamp_int, saturate, Scalar, ONE_RAW};
use vstd::prelude::*;

verus! {

/// The largest speed along an axis, as a raw scalar: one unit per tick.
pub const MAX_SPEED_RAW: i64 = 16_777_216;

/// A particle in the hands of a workgroup.
#[derive(Copy, Clone, Debug, PartialEq, Eq, Structural)]
pub struct Particle {
    /// Index of the particle in the packed buffers.
    pub index: usize,
    /// Particle position.
    pub position: Vec2,
    /// Particle velocity.
    pub velocity: Vec2,
}

impl Default for Particle {
    fn default() -> (r: Self)
        ensures
            r.index == 0,
            r.position.x.raw == 0,
            r.position.y.raw == 0,
            r.velocity.x.raw == 0,
            r.velocity.y.raw == 0,
    {
        Particle { index: 0, position: Vec2::default(), velocity: Vec2::default() }
    }
}

/// What a wall does to one coordinate and to the velocity along it. A
/// coordinate above `upper` is put on `upper` and the velocity is turned
/// round; then the same is done for a coordinate below `lower`.
pub open spec fn spec_bounce(coordinate: i64, velocity: i64, lower: i64, upper: i64) -> (i64, i64) {
    let (c, v) = if coordinate > upper {
        (upper, saturate(-velocity))
    } else {
        (coordinate, velocity)
    };
    if c < lower {
        (lower, saturate(-v))
    } else {
        (c, v)
    }
}

/// The speed limit for one component of a velocity.
pub open spec fn spec_limit_speed(velocity: i64) -> i64 {
    clamp_int(velocity as int, -MAX_SPEED_RAW as int, MAX_SPEED_RAW as int) as i64
}

impl Particle {
    /// The particle after it has moved by its velocity.
    pub open spec fn spec_integrate(self) -> Particle {
        Particle {
            index: self.index,
            position: self.position.spec_saturating_add(self.velocity),
            velocity: self.velocity,
        }
    }

    /// The particle after the walls of the viewport have been enforced.
    pub open spec fn spec_enforce_boundaries(self, world_config: &WorldSettings) -> Particle {
        let lower = world_config.lower();
        let upper = world_config.upper();
        let x = spec_bounce(self.position.x.raw, self.velocity.x.raw, lower.x.raw, upper.x.raw);
        let y = spec_bounce(self.position.y.raw, self.velocity.y.raw, lower.y.raw, upper.y.raw);
        Particle {
            index: self.index,
            position: Vec2 { x: Scalar { raw: x.0 }, y: Scalar { raw: y.0 } },
            velocity: Vec2 { x: Scalar { raw: x.1 }, y: Scalar { raw: y.1 } },
        }
    }

    /// The particle after the speed limit has been enforced.
    pub open spec fn spec_enforce_velocity(self) -> Particle {
        Particle {
            index: self.index,
            position: self.position,
            velocity: Vec2 {
                x: Scalar { raw: spec_limit_speed(self.velocity.x.raw) },
                y: Scalar { raw: spec_limit_speed(self.velocity.y.raw) },
            },
        }
    }

    /// The particle after walls and speed limit have been enforced.
    pub open spec fn spec_enforce_limits(self, world_config: &WorldSettings) -> Particle {
        self.spec_enforce_boundaries(world_config).spec_enforce_velocity()
    }

    /// The particle as a tick leaves it when nothing pushes it: moved by its
    /// velocity, then held to the walls and to the speed limit.
    pub open spec fn spec_step(self, world_config: &WorldSettings) -> Particle {
        self.spec_integrate().spec_enforce_limits(world_config)
    }

    /// No component of the velocity is faster than the speed limit.
    pub open spec fn within_speed_limit(self) -> bool {
        &&& -MAX_SPEED_RAW <= self.velocity.x.raw <= MAX_SPEED_RAW
        &&& -MAX_SPEED_RAW <= self.velocity.y.raw <= MAX_SPEED_RAW
    }

    /// The particle with index `index` of the packed buffers.
    pub fn new(index: usize, positions_input: &[Vec2], velocities_input: &[Vec2]) -> (r: Self)
        requires
            index < positions_input@.len(),
            index < velocities_input@.len(),
        ensures
            r.index == index,
            r.position == positions_input@[index as int],
            r.velocity == velocities_input@[index as int],
    {
        Particle { index, position: positions_input[index], velocity: velocities_input[index] }
    }

    /// Enforces the limits of a particle: the walls of the viewport, and the
    /// speed limit.
    ///
    /// Whatever the particle was, its speed is within the limit afterwards;
    /// and it is inside the viewport, if the viewport has room.
    pub fn enforce_limits(&mut self, world_config: &WorldSettings)
        ensures
            *final(self) == old(self).spec_enforce_limits(world_config),
            final(self).within_speed_limit(),
            world_config.has_room() ==> in_viewport(world_config, final(self).position),
    {
        self.enforce_boundaries(world_config);
        self.enforce_velocity();
    }

    /// Enforces the walls of the viewport: a particle beyond a wall is put on
    /// the wall, and its velocity across the wall is turned round.
    pub fn enforce_boundaries(&mut self, world_config: &WorldSettings)
        ensures
            *final(self) == old(self).spec_enforce_boundaries(world_config),
            world_config.has_room() ==> in_viewport(world_config, final(self).position),
    {
        let lower = world_config.view_anchor;
        let upper = world_config.view_anchor.saturating_add(world_config.view_dimensions);

        if self.position.x.raw > upper.x.raw {
            self.position.x = upper.x;
            self.velocity.x = self.velocity.x.saturating_neg();
        }
        if self.position.x.raw < lower.x.raw {
            self.position.x = lower.x;
            self.velocity.x = self.velocity.x.saturating_neg();
        }
        if self.position.y.raw > upper.y.raw {
            self.position.y = upper.y;
            self.velocity.y = self.velocity.y.saturating_neg();
        }
        if self.position.y.raw < lower.y.raw {
            self.position.y = lower.y;
            self.velocity.y = self.velocity.y.saturating_neg();
        }
    }

    /// Enforces the speed limit on each component of the velocity.
    pub fn enforce_velocity(&mut self)
        ensures
            *final(self) == old(self).spec_enforce_velocity(),
            final(self).within_speed_limit(),
    {
        let max = Scalar::from_raw(MAX_SPEED_RAW);
        let min = Scalar::from_raw(-MAX_SPEED_RAW);
        self.velocity.x = self.velocity.x.clamp(min, max);
        self.velocity.y = self.velocity.y.clamp(min, max);
    }

    /// Integration: moves the particle by its velocity.
    pub fn integrate(&mut self)
        ensures
            *final(self) == old(self).spec_integrate(),
    {
        self.position = self.position.saturating_add(self.velocity);
    }

    /// Writes the particle back to its slot of the packed buffers.
    pub fn write(&self, positions_output: &mut [Vec2], velocities_output: &mut [Vec2])
        requires
            self.index < old(positions_output)@.len(),
            self.index < old(velocities_output)@.len(),
        ensures
            final(positions_output)@ == old(positions_output)@.update(
                self.index as int,
                self.position,
            ),
            final(velocities_output)@ == old(velocities_output)@.update(
                self.index as int,
                self.velocity,
            ),
    {
        positions_output[self.index] = self.position;
        velocities_output[self.index] = self.velocity;
    }
}

/// After a tick every particle is inside the viewport, edges included,
/// provided that the viewport has room.
pub proof fn lemma_step_stays_in_viewport(particle: Particle, world_config: &WorldSettings)
    requires
        world_config.has_room(),
    ensures
        in_viewport(world_config, particle.spec_step(world_config).position),
{
}

/// After a tick no component of a particle's velocity is faster than one unit
/// per tick.
pub proof fn lemma_step_keeps_speed_limit(particle: Particle, world_config: &WorldSettings)
    ensures
        particle.spec_step(world_config).within_speed_limit(),
        MAX_SPEED_RAW == ONE_RAW,
{
}

/// A particle within the speed limit that a tick leaves inside the viewport
/// keeps its velocity.
pub proof fn lemma_free_flight_keeps_velocity(particle: Particle, world_config: &WorldSettings)
    requires
        particle.within_speed_limit(),
        in_viewport(world_config, particle.spec_integrate().position),
    ensures
        particle.spec_step(world_config).velocity == particle.velocity,
        particle.spec_step(world_config).position == particle.spec_integrate().position,
{
}

/// A particle that a tick carries beyond the upper walls is put on them, and
/// its velocity is turned round.
pub proof fn lemma_step_reflects_at_upper_walls(particle: Particle, world_config: &WorldSettings)
    requires
        world_config.has_room(),
        particle.within_speed_limit(),
        particle.spec_integrate().position.x.raw > world_config.upper().x.raw,
        particle.spec_integrate().position.y.raw > world_config.upper().y.raw,
    ensures
        particle.spec_step(world_config).position == world_config.upper(),
        particle.spec_step(world_config).velocity.x.raw == -particle.velocity.x.raw,
        particle.spec_step(world_config).velocity.y.raw == -particle.velocity.y.raw,
{
}

} // verus!
