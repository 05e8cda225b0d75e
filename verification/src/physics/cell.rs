//! A cell is the unit of work of the physics pass: one workgroup loads the
//! particles of one spatial bin cell and of its surroundings, does the
//! physics on them, and clears the cell's counters for the next frame.

use crate::config_shader::{in_viewport, WorldSettings};
use crate::math::Vec2;
use crate::physics::indices::{Indices, MAX_PARTICLES_IN_CELL};
use crate::physics::particle::Particle;
use crate::physics::particles::{
    spec_auxiliares, spec_capped, spec_loaded, spec_pairs_in_cell, spec_particle_at, Particles,
};
use crate::shared::PREFIX_SUM_OFFSET_HACK;
use vstd::prelude::*;

verus! {

/// The items of `buffer` do not decrease over its first `length` slots.
pub open spec fn spec_running_totals(buffer: Seq<u32>, length: int) -> bool {
    &&& length <= buffer.len()
    &&& forall|i: int, j: int| 0 <= i <= j < length ==> buffer[i] <= buffer[j]
}

/// `buffer` with item `slot` set to zero.
pub open spec fn spec_cleared(buffer: Seq<u32>, slot: int) -> Seq<u32> {
    buffer.update(slot, 0u32)
}

/// All the data that a workgroup needs for its cell.
pub struct Cell<'world> {
    /// The slot of the main index buffer at which the range of the cell
    /// starts: one more than the index of the cell.
    pub current: usize,
    /// Is this the final cell of the grid?
    pub is_last: bool,
    /// By how much the particles of the corner cells are moved down in local
    /// memory.
    pub first_particle_index: usize,
    /// Settings, like the position of the viewport.
    pub settings: &'world WorldSettings,
    /// The running totals of the main grid.
    pub indices_main: &'world mut [u32],
    /// Particle positions for reading.
    pub positions_in: &'world [Vec2],
    /// Particle positions for writing.
    pub positions_out: &'world mut [Vec2],
    /// Particle velocities for reading.
    pub velocities_in: &'world [Vec2],
    /// Particle velocities for writing.
    pub velocities_out: &'world mut [Vec2],
    /// The running totals of the auxiliary grid.
    pub indices_aux: &'world mut [u32],
    /// Positions of the particles of the auxiliary grid, for reading.
    pub positions_workgroup: &'world [Vec2],
    /// Velocities of the particles of the auxiliary grid, for reading.
    pub velocities_workgroup: &'world [Vec2],
}

/// A cell and the buffers that it reads, as mathematical values.
pub struct CellView {
    /// The slot of the main index buffer at which the range of the cell
    /// starts.
    pub current: usize,
    /// By how much the particles of the corner cells are moved down in local
    /// memory.
    pub first_particle_index: usize,
    /// The settings.
    pub settings: WorldSettings,
    /// The running totals of the main grid.
    pub indices_main: Seq<u32>,
    /// Particle positions for reading.
    pub positions_in: Seq<Vec2>,
    /// Particle velocities for reading.
    pub velocities_in: Seq<Vec2>,
    /// The length of the buffer of positions for writing.
    pub positions_out_length: nat,
    /// The length of the buffer of velocities for writing.
    pub velocities_out_length: nat,
    /// The running totals of the auxiliary grid.
    pub indices_aux: Seq<u32>,
    /// Positions of the particles of the auxiliary grid.
    pub positions_workgroup: Seq<Vec2>,
    /// Velocities of the particles of the auxiliary grid.
    pub velocities_workgroup: Seq<Vec2>,
}

impl CellView {
    /// Width of the main grid, in cells.
    pub open spec fn width(&self) -> int {
        self.settings.grid_dimensions.x as int
    }

    /// Height of the main grid, in cells.
    pub open spec fn height(&self) -> int {
        self.settings.grid_dimensions.y as int
    }

    /// The slot of the last cell of the main grid.
    pub open spec fn last_slot(&self) -> int {
        self.width() * self.height()
    }

    /// There is a cell for the slot `current`.
    pub open spec fn in_grid(&self) -> bool {
        1 <= self.current <= self.last_slot()
    }

    /// The slot of the auxiliary index buffer at which the range of the
    /// bottom-left corner cell of the current cell starts.
    pub open spec fn aux_slot(&self) -> int {
        Particles::spec_aux_slot(self.current - 1, self.width())
    }

    /// The current cell is in the last column of the grid.
    pub open spec fn at_right_edge(&self) -> bool {
        (self.current - 1) % self.width() == self.width() - 1
    }

    /// The current cell is in the last row of the grid.
    pub open spec fn at_top_edge(&self) -> bool {
        (self.current - 1) / self.width() == self.height() - 1
    }

    /// The buffers fit the grid: both index buffers have a slot for every
    /// cell, a leading slot and a guard slot; their items do not decrease;
    /// and the particle buffers hold every particle that they point to.
    pub open spec fn wf(&self) -> bool {
        let main_slots = self.width() * self.height() + 2;
        let aux_slots = (self.width() + 1) * (self.height() + 1) + 2;
        &&& spec_running_totals(self.indices_main, main_slots)
        &&& spec_running_totals(self.indices_aux, aux_slots)
        &&& self.indices_main[main_slots - 1] <= self.positions_in.len()
        &&& self.indices_main[main_slots - 1] <= self.velocities_in.len()
        &&& self.indices_main[main_slots - 1] <= self.positions_out_length
        &&& self.indices_main[main_slots - 1] <= self.velocities_out_length
        &&& self.indices_aux[aux_slots - 1] <= self.positions_workgroup.len()
        &&& self.indices_aux[aux_slots - 1] <= self.velocities_workgroup.len()
        &&& self.positions_in.len() + MAX_PARTICLES_IN_CELL * 4 <= usize::MAX
        &&& self.positions_workgroup.len() + MAX_PARTICLES_IN_CELL * 4 <= usize::MAX
        &&& self.first_particle_index <= MAX_PARTICLES_IN_CELL
        &&& self.in_grid() ==> self.first_particle_index + self.centre_count()
            <= MAX_PARTICLES_IN_CELL
    }

    /// The number of slots of the main index buffer.
    pub open spec fn main_length(&self) -> int {
        self.indices_main.len() as int
    }

    /// The number of slots of the auxiliary index buffer.
    pub open spec fn aux_length(&self) -> int {
        self.indices_aux.len() as int
    }

    /// The current cell has everything that loading it needs.
    pub open spec fn loadable(&self) -> bool {
        Particles::loadable(
            self.indices_main,
            self.indices_aux,
            self.current as int,
            self.width(),
            self.first_particle_index as int,
            self.positions_in,
            self.velocities_in,
            self.positions_workgroup,
            self.velocities_workgroup,
        )
    }

    /// The indices of the current cell.
    pub open spec fn indices(&self) -> Indices {
        Indices::spec_locate(
            self.indices_main,
            self.indices_aux,
            self.current as int,
            self.aux_slot(),
            self.width() + 1,
            self.first_particle_index as int,
        )
    }

    /// The number of particles of the current cell that take part in
    /// pairwise physics.
    pub open spec fn centre_count(&self) -> int {
        spec_capped(self.indices().centre.global)
    }

    /// Local memory when all the pushing is done: the loaded particles, after
    /// the pairs of the centre cell and then the four corner cells have been
    /// gone through.
    pub open spec fn pushed(&self) -> Seq<Particle> {
        let loaded = spec_loaded(
            self.indices(),
            self.positions_in,
            self.velocities_in,
            self.positions_workgroup,
            self.velocities_workgroup,
        );
        spec_auxiliares(
            spec_pairs_in_cell(loaded, self.centre_count(), self.centre_count()),
            self.centre_count(),
            self.indices(),
        )
    }

    /// The particle that the physics of the current cell writes to slot
    /// `slot` of the output buffers, if it writes one there. The first
    /// particles of the cell, as many as a cell has capacity for, are pushed
    /// apart and then make their move; the particles beyond that only make
    /// their move.
    pub open spec fn output(&self, slot: int) -> Option<Particle> {
        let range = self.indices().centre.global;
        if range.from <= slot < range.from + self.centre_count() {
            Some(self.pushed()[slot - range.from].spec_step(&self.settings))
        } else if range.from + MAX_PARTICLES_IN_CELL <= slot < range.end_by {
            Some(
                spec_particle_at(self.positions_in, self.velocities_in, slot).spec_step(
                    &self.settings,
                ),
            )
        } else {
            None
        }
    }

    /// The number of the slot of the auxiliary index buffer counts as one of
    /// those that the current cell clears.
    pub open spec fn clears_aux(&self, slot: int) -> bool {
        let own = self.aux_slot();
        let last = self.current == self.last_slot();
        ||| slot == own
        ||| (self.at_right_edge() && slot == own + 1)
        ||| (self.at_top_edge() && slot == own + self.width() + 1)
        ||| (last && slot == own + self.width() + 2)
        ||| (last && slot == own + self.width() + 3)
    }

    /// The number of the slot of the main index buffer counts as one of those
    /// that the current cell clears.
    pub open spec fn clears_main(&self, slot: int) -> bool {
        ||| slot == self.current
        ||| (self.current == self.last_slot() && slot == self.current + 1)
    }

    /// Under `wf`, a cell of the grid has everything that loading it needs.
    pub proof fn lemma_cell_is_loadable(&self)
        requires
            self.wf(),
            self.in_grid(),
        ensures
            self.width() >= 1,
            self.height() >= 1,
            0 <= (self.current - 1) % self.width() < self.width(),
            0 <= (self.current - 1) / self.width() < self.height(),
            0 < self.aux_slot(),
            self.aux_slot() + self.width() + 3 < (self.width() + 1) * (self.height() + 1) + 2,
            self.aux_slot() + self.width() + 3 < self.aux_length(),
            self.current + 1 < self.main_length(),
            self.loadable(),
    {
        let w = self.width();
        let h = self.height();
        let k = self.current - 1;
        assert(w >= 1 && h >= 1) by (nonlinear_arith)
            requires
                1 <= w * h,
                0 <= w,
                0 <= h,
        ;
        vstd::arithmetic::div_mod::lemma_fundamental_div_mod(k, w);
        vstd::arithmetic::div_mod::lemma_mod_bound(k, w);
        vstd::arithmetic::div_mod::lemma_div_pos_is_pos(k, w);
        let row = k / w;
        let column = k % w;
        assert(row < h) by (nonlinear_arith)
            requires
                k == w * row + column,
                0 <= column,
                k < w * h,
                w >= 1,
        ;
        assert(row * (w + 1) + column + 1 + w + 3 < (w + 1) * (h + 1) + 2) by (nonlinear_arith)
            requires
                0 <= row < h,
                0 <= column < w,
        ;
        assert(0 <= row * (w + 1)) by (nonlinear_arith)
            requires
                0 <= row,
                w >= 1,
        ;
        let aux_slots = (w + 1) * (h + 1) + 2;
        let main_slots = w * h + 2;
        let a = self.aux_slot();
        assert(self.indices_aux[a] <= self.indices_aux[a + 1]);
        assert(self.indices_aux[a + 1] <= self.indices_aux[a + 2]);
        assert(self.indices_aux[a + w + 1] <= self.indices_aux[a + w + 2]);
        assert(self.indices_aux[a + w + 2] <= self.indices_aux[a + w + 3]);
        assert(self.indices_aux[a + 1] <= self.indices_aux[aux_slots - 1]);
        assert(self.indices_aux[a + 2] <= self.indices_aux[aux_slots - 1]);
        assert(self.indices_aux[a + w + 2] <= self.indices_aux[aux_slots - 1]);
        assert(self.indices_aux[a + w + 3] <= self.indices_aux[aux_slots - 1]);
        assert(self.indices_main[self.current as int] <= self.indices_main[self.current + 1]);
        assert(self.indices_main[self.current + 1] <= self.indices_main[main_slots - 1]);
    }
}

impl<'world> View for Cell<'world> {
    type V = CellView;

    open spec fn view(&self) -> CellView {
        CellView {
            current: self.current,
            first_particle_index: self.first_particle_index,
            settings: *self.settings,
            indices_main: self.indices_main@,
            positions_in: self.positions_in@,
            velocities_in: self.velocities_in@,
            positions_out_length: self.positions_out@.len(),
            velocities_out_length: self.velocities_out@.len(),
            indices_aux: self.indices_aux@,
            positions_workgroup: self.positions_workgroup@,
            velocities_workgroup: self.velocities_workgroup@,
        }
    }
}

impl<'world> Cell<'world> {
    /// Goes through all the particles of the cell and does physics on them:
    /// pushes apart those that are too close to each other or to a particle
    /// of a corner cell, lets each make its move within the limits, writes
    /// the results to the output buffers, and clears the cell's counters.
    ///
    /// Nothing happens when there is no cell for the slot `current`.
    pub fn physics_for_cell(&mut self)
        requires
            old(self)@.wf(),
        ensures
            final(self).current == old(self).current,
            final(self).first_particle_index == old(self).first_particle_index,
            final(self).settings == old(self).settings,
            final(self).positions_in == old(self).positions_in,
            final(self).velocities_in == old(self).velocities_in,
            final(self).positions_workgroup == old(self).positions_workgroup,
            final(self).velocities_workgroup == old(self).velocities_workgroup,
            final(final(self).indices_main)@ == final(old(self).indices_main)@,
            final(final(self).indices_aux)@ == final(old(self).indices_aux)@,
            final(final(self).positions_out)@ == final(old(self).positions_out)@,
            final(final(self).velocities_out)@ == final(old(self).velocities_out)@,
            final(self).indices_main@.len() == old(self).indices_main@.len(),
            final(self).indices_aux@.len() == old(self).indices_aux@.len(),
            final(self).positions_out@.len() == old(self).positions_out@.len(),
            final(self).velocities_out@.len() == old(self).velocities_out@.len(),
            !old(self)@.in_grid() ==> {
                &&& final(self).is_last == old(self).is_last
                &&& final(self).indices_main@ == old(self).indices_main@
                &&& final(self).indices_aux@ == old(self).indices_aux@
                &&& final(self).positions_out@ == old(self).positions_out@
                &&& final(self).velocities_out@ == old(self).velocities_out@
            },
            old(self)@.in_grid() ==> {
                &&& final(self).is_last == (old(self).current == old(self)@.last_slot())
                &&& forall|slot: int|
                    0 <= slot < old(self).indices_main@.len() ==> #[trigger]
                        final(self).indices_main@[slot] == (if old(self)@.clears_main(slot) {
                        0u32
                    } else {
                        old(self).indices_main@[slot]
                    })
                &&& forall|slot: int|
                    0 <= slot < old(self).indices_aux@.len() ==> #[trigger]
                        final(self).indices_aux@[slot] == (if old(self)@.clears_aux(slot) {
                        0u32
                    } else {
                        old(self).indices_aux@[slot]
                    })
                &&& forall|slot: int|
                    0 <= slot < old(self).positions_out@.len() ==> #[trigger]
                        final(self).positions_out@[slot] == (match old(self)@.output(slot) {
                        Some(particle) => particle.position,
                        None => old(self).positions_out@[slot],
                    })
                &&& forall|slot: int|
                    0 <= slot < old(self).velocities_out@.len() ==> #[trigger]
                        final(self).velocities_out@[slot] == (match old(self)@.output(slot) {
                        Some(particle) => particle.velocity,
                        None => old(self).velocities_out@[slot],
                    })
            },
    {
        let width = self.settings.grid_dimensions.x as u64;
        let height = self.settings.grid_dimensions.y as u64;
        assert(width * height <= 0xffff_ffff * 0xffff_ffff) by (nonlinear_arith)
            requires
                width <= 0xffff_ffff,
                height <= 0xffff_ffff,
        ;
        let total_cells: u64 = width * height + PREFIX_SUM_OFFSET_HACK as u64;
        let main_slots = self.indices_main.len();
        let last_cell_index: usize = (total_cells - 1) as usize;
        if self.current < 1 || self.current > last_cell_index {
            return ;
        }
        self.is_last = self.current == last_cell_index;

        proof {
            self.lemma_cell_is_loadable();
        }
        self.simulate();
        self.clear_cells_for_next_frame();
    }

    /// The physics of the cell without the clearing of its counters: pushes
    /// apart the particles that are too close to each other or to a particle
    /// of a corner cell, lets each make its move within the limits, and
    /// writes the results to the output buffers.
    pub fn simulate(&mut self)
        requires
            old(self)@.wf(),
            old(self)@.in_grid(),
        ensures
            final(self).current == old(self).current,
            final(self).is_last == old(self).is_last,
            final(self).first_particle_index == old(self).first_particle_index,
            final(self).settings == old(self).settings,
            final(self).positions_in == old(self).positions_in,
            final(self).velocities_in == old(self).velocities_in,
            final(self).positions_workgroup == old(self).positions_workgroup,
            final(self).velocities_workgroup == old(self).velocities_workgroup,
            final(self).indices_main@ == old(self).indices_main@,
            final(self).indices_aux@ == old(self).indices_aux@,
            final(final(self).indices_main)@ == final(old(self).indices_main)@,
            final(final(self).indices_aux)@ == final(old(self).indices_aux)@,
            final(final(self).positions_out)@ == final(old(self).positions_out)@,
            final(final(self).velocities_out)@ == final(old(self).velocities_out)@,
            final(self).positions_out@.len() == old(self).positions_out@.len(),
            final(self).velocities_out@.len() == old(self).velocities_out@.len(),
            forall|slot: int|
                0 <= slot < old(self).positions_out@.len() ==> #[trigger]
                    final(self).positions_out@[slot] == (match old(self)@.output(slot) {
                    Some(particle) => particle.position,
                    None => old(self).positions_out@[slot],
                }),
            forall|slot: int|
                0 <= slot < old(self).velocities_out@.len() ==> #[trigger]
                    final(self).velocities_out@[slot] == (match old(self)@.output(slot) {
                    Some(particle) => particle.velocity,
                    None => old(self).velocities_out@[slot],
                }),
    {
        proof {
            self.lemma_cell_is_loadable();
        }
        let mut particles = Particles::new(
            self.indices_main,
            self.indices_aux,
            self.current,
            self.settings.grid_dimensions.x,
            self.first_particle_index,
            self.positions_in,
            self.velocities_in,
            self.positions_workgroup,
            self.velocities_workgroup,
        );
        let ghost loaded = particles.data@;
        particles.pairs_in_cell();
        particles.auxiliares_around_cell();
        let ghost pushed = particles.data@;
        proof {
            assert(particles.centre_count == old(self)@.centre_count());
            assert(pushed == old(self)@.pushed());
            crate::physics::particles::lemma_pushing_keeps_indices(
                loaded,
                particles.centre_count as int,
                particles.indices,
            );
        }
        particles.finish(self.settings, self.positions_out, self.velocities_out);
        proof {
            crate::physics::particles::lemma_written_pointwise(
                old(self).positions_out@,
                old(self).velocities_out@,
                pushed,
                particles.data@,
                particles.centre_count as int,
                particles.indices.centre.global.from as int,
                self.settings,
            );
        }

        self.handle_overflown_particles(
            particles.indices.centre.global.from,
            particles.indices.centre.global.end_by,
        );
    }

    /// Under `wf`, a cell of the grid has everything that loading it needs.
    pub proof fn lemma_cell_is_loadable(&self)
        requires
            self@.wf(),
            self@.in_grid(),
        ensures
            self@.width() >= 1,
            self@.height() >= 1,
            0 <= (self.current - 1) % self@.width() < self@.width(),
            0 <= (self.current - 1) / self@.width() < self@.height(),
            0 < self@.aux_slot(),
            self@.aux_slot() + self@.width() + 3 < (self@.width() + 1) * (self@.height() + 1) + 2,
            self@.aux_slot() + self@.width() + 3 < self@.aux_length(),
            self.current + 1 < self@.main_length(),
            self@.loadable(),
    {
        self@.lemma_cell_is_loadable();
    }

    /// Handles the particles beyond the capacity of the cell: they make
    /// their move within the limits and are written to the output buffers,
    /// without any pushing.
    fn handle_overflown_particles(&mut self, particles_start_at: usize, particles_end_by: usize)
        requires
            particles_start_at + MAX_PARTICLES_IN_CELL <= usize::MAX,
            particles_end_by <= old(self).positions_in@.len(),
            particles_end_by <= old(self).velocities_in@.len(),
            particles_end_by <= old(self).positions_out@.len(),
            particles_end_by <= old(self).velocities_out@.len(),
        ensures
            final(self).current == old(self).current,
            final(self).is_last == old(self).is_last,
            final(self).first_particle_index == old(self).first_particle_index,
            final(self).settings == old(self).settings,
            final(self).positions_in == old(self).positions_in,
            final(self).velocities_in == old(self).velocities_in,
            final(self).positions_workgroup == old(self).positions_workgroup,
            final(self).velocities_workgroup == old(self).velocities_workgroup,
            final(self).indices_main@ == old(self).indices_main@,
            final(self).indices_aux@ == old(self).indices_aux@,
            final(final(self).indices_main)@ == final(old(self).indices_main)@,
            final(final(self).indices_aux)@ == final(old(self).indices_aux)@,
            final(final(self).positions_out)@ == final(old(self).positions_out)@,
            final(final(self).velocities_out)@ == final(old(self).velocities_out)@,
            final(self).positions_out@.len() == old(self).positions_out@.len(),
            final(self).velocities_out@.len() == old(self).velocities_out@.len(),
            forall|slot: int|
                0 <= slot < old(self).positions_out@.len() ==> #[trigger]
                    final(self).positions_out@[slot] == (if particles_start_at +
                    MAX_PARTICLES_IN_CELL <= slot
                    < particles_end_by {
                    spec_particle_at(
                        old(self).positions_in@,
                        old(self).velocities_in@,
                        slot,
                    ).spec_step(old(self).settings).position
                } else {
                    old(self).positions_out@[slot]
                }),
            forall|slot: int|
                0 <= slot < old(self).velocities_out@.len() ==> #[trigger]
                    final(self).velocities_out@[slot] == (if particles_start_at +
                    MAX_PARTICLES_IN_CELL <= slot
                    < particles_end_by {
                    spec_particle_at(
                        old(self).positions_in@,
                        old(self).velocities_in@,
                        slot,
                    ).spec_step(old(self).settings).velocity
                } else {
                    old(self).velocities_out@[slot]
                }),
    {
        let overflow_starts_at = particles_start_at + MAX_PARTICLES_IN_CELL;
        if particles_end_by <= overflow_starts_at {
            return ;
        }
        let mut particle_index = overflow_starts_at;
        while particle_index < particles_end_by
            invariant
                overflow_starts_at == particles_start_at + MAX_PARTICLES_IN_CELL,
                overflow_starts_at <= particle_index <= particles_end_by,
                particles_end_by <= self.positions_in@.len(),
                particles_end_by <= self.velocities_in@.len(),
                particles_end_by <= self.positions_out@.len(),
                particles_end_by <= self.velocities_out@.len(),
                self.current == old(self).current,
                self.is_last == old(self).is_last,
                self.first_particle_index == old(self).first_particle_index,
                self.settings == old(self).settings,
                self.positions_in == old(self).positions_in,
                self.velocities_in == old(self).velocities_in,
                self.positions_workgroup == old(self).positions_workgroup,
                self.velocities_workgroup == old(self).velocities_workgroup,
                self.indices_main@ == old(self).indices_main@,
                self.indices_aux@ == old(self).indices_aux@,
                final(self.indices_main)@ == final(old(self).indices_main)@,
                final(self.indices_aux)@ == final(old(self).indices_aux)@,
                final(self.positions_out)@ == final(old(self).positions_out)@,
                final(self.velocities_out)@ == final(old(self).velocities_out)@,
                self.positions_out@.len() == old(self).positions_out@.len(),
                self.velocities_out@.len() == old(self).velocities_out@.len(),
                forall|slot: int|
                    0 <= slot < self.positions_out@.len() ==> #[trigger] self.positions_out@[slot]
                        == (if overflow_starts_at <= slot < particle_index {
                        spec_particle_at(
                            self.positions_in@,
                            self.velocities_in@,
                            slot,
                        ).spec_step(self.settings).position
                    } else {
                        old(self).positions_out@[slot]
                    }),
                forall|slot: int|
                    0 <= slot < self.velocities_out@.len() ==> #[trigger] self.velocities_out@[slot]
                        == (if overflow_starts_at <= slot < particle_index {
                        spec_particle_at(
                            self.positions_in@,
                            self.velocities_in@,
                            slot,
                        ).spec_step(self.settings).velocity
                    } else {
                        old(self).velocities_out@[slot]
                    }),
            decreases particles_end_by - particle_index,
        {
            let mut particle = Particle::new(particle_index, self.positions_in, self.velocities_in);
            particle.integrate();
            particle.enforce_limits(self.settings);
            particle.write(self.positions_out, self.velocities_out);
            particle_index += 1;
        }
    }

    /// The counters of the cells take atomically added particle counts, so
    /// they must all be zero when the next frame starts to count. Each cell
    /// clears its own; the cells at the right and top edges also clear those of
    /// the auxiliary cells beyond the edge, and the last cell clears the guard
    /// items.
    pub fn clear_cells_for_next_frame(&mut self)
        requires
            old(self)@.in_grid(),
            old(self)@.width() >= 1,
            old(self)@.height() >= 1,
            old(self).is_last == (old(self).current == old(self)@.last_slot()),
            old(self).current + 1 < old(self).indices_main@.len(),
            0 < old(self)@.aux_slot(),
            old(self)@.aux_slot() + old(self)@.width() + 3 < old(self).indices_aux@.len(),
        ensures
            final(self).current == old(self).current,
            final(self).is_last == old(self).is_last,
            final(self).first_particle_index == old(self).first_particle_index,
            final(self).settings == old(self).settings,
            final(self).positions_in == old(self).positions_in,
            final(self).velocities_in == old(self).velocities_in,
            final(self).positions_workgroup == old(self).positions_workgroup,
            final(self).velocities_workgroup == old(self).velocities_workgroup,
            final(self).positions_out@ == old(self).positions_out@,
            final(self).velocities_out@ == old(self).velocities_out@,
            final(final(self).indices_main)@ == final(old(self).indices_main)@,
            final(final(self).indices_aux)@ == final(old(self).indices_aux)@,
            final(final(self).positions_out)@ == final(old(self).positions_out)@,
            final(final(self).velocities_out)@ == final(old(self).velocities_out)@,
            final(self).indices_main@.len() == old(self).indices_main@.len(),
            final(self).indices_aux@.len() == old(self).indices_aux@.len(),
            forall|slot: int|
                0 <= slot < old(self).indices_main@.len() ==> #[trigger]
                    final(self).indices_main@[slot] == (if old(self)@.clears_main(slot) {
                    0u32
                } else {
                    old(self).indices_main@[slot]
                }),
            forall|slot: int|
                0 <= slot < old(self).indices_aux@.len() ==> #[trigger]
                    final(self).indices_aux@[slot] == (if old(self)@.clears_aux(slot) {
                    0u32
                } else {
                    old(self).indices_aux@[slot]
                }),
    {
        let aux_slots = self.indices_aux.len();
        let main_slots = self.indices_main.len();
        let width = self.settings.grid_dimensions.x as usize;
        let cell = self.current - 1;
        proof {
            let row = cell as int / width as int;
            vstd::arithmetic::div_mod::lemma_div_pos_is_pos(cell as int, width as int);
            vstd::arithmetic::div_mod::lemma_mod_bound(cell as int, width as int);
            assert(0 <= row * (width + 1)) by (nonlinear_arith)
                requires
                    0 <= row,
                    0 <= width,
            ;
        }
        let row = cell / width;
        let column = cell % width;
        assert(row * (width + 1) <= aux_slots) by (nonlinear_arith)
            requires
                row * (width + 1) + column + 1 < aux_slots,
                0 <= column,
        ;
        let aux_slot = row * (width + 1) + column + 1;
        self.clear_indices_cells_for_next_frame(self.current, aux_slot);
        // The last cell also clears the slots of the top-right corner and the
        // guard items at the end of both index buffers.
        if self.is_last {
            self.indices_main[self.current + 1] = 0;
            self.indices_aux[aux_slot + width + 2] = 0;
            self.indices_aux[aux_slot + width + 3] = 0;
        }
    }

    /// Clears the counter of the current cell in the main index buffer, the
    /// counter of its bottom-left corner in the auxiliary index buffer, and,
    /// at the right and top edges of the grid, the counters of the corners
    /// beyond the edge.
    fn clear_indices_cells_for_next_frame(&mut self, cell_index: usize, aux_slot: usize)
        requires
            old(self)@.in_grid(),
            old(self)@.width() >= 1,
            old(self)@.height() >= 1,
            cell_index == old(self).current,
            aux_slot == old(self)@.aux_slot(),
            cell_index < old(self).indices_main@.len(),
            aux_slot + old(self)@.width() + 1 < old(self).indices_aux@.len(),
        ensures
            final(self).current == old(self).current,
            final(self).is_last == old(self).is_last,
            final(self).first_particle_index == old(self).first_particle_index,
            final(self).settings == old(self).settings,
            final(self).positions_in == old(self).positions_in,
            final(self).velocities_in == old(self).velocities_in,
            final(self).positions_workgroup == old(self).positions_workgroup,
            final(self).velocities_workgroup == old(self).velocities_workgroup,
            final(self).positions_out@ == old(self).positions_out@,
            final(self).velocities_out@ == old(self).velocities_out@,
            final(final(self).indices_main)@ == final(old(self).indices_main)@,
            final(final(self).indices_aux)@ == final(old(self).indices_aux)@,
            final(final(self).positions_out)@ == final(old(self).positions_out)@,
            final(final(self).velocities_out)@ == final(old(self).velocities_out)@,
            final(self).indices_main@ == spec_cleared(old(self).indices_main@, cell_index as int),
            final(self).indices_aux@.len() == old(self).indices_aux@.len(),
            forall|slot: int|
                0 <= slot < old(self).indices_aux@.len() ==> #[trigger]
                    final(self).indices_aux@[slot] == (if slot == aux_slot ||
                    (old(self)@.at_right_edge() && slot
                    == aux_slot + 1) || (old(self)@.at_top_edge() && slot == aux_slot +
                        old(self)@.width() + 1) {
                    0u32
                } else {
                    old(self).indices_aux@[slot]
                }),
    {
        self.indices_main[cell_index] = 0;
        self.indices_aux[aux_slot] = 0;

        if self.is_cell_at_right_edge(cell_index) {
            self.indices_aux[aux_slot + 1] = 0;
        }
        if self.is_cell_at_top_edge(cell_index) {
            let width = self.settings.grid_dimensions.x as usize;
            self.indices_aux[aux_slot + width + 1] = 0;
        }
    }

    /// Is the cell whose range starts at slot `cell_index` at the right edge
    /// of the grid?
    fn is_cell_at_right_edge(&self, cell_index: usize) -> (r: bool)
        requires
            cell_index >= 1,
            self@.width() >= 1,
        ensures
            r == ((cell_index - 1) % self@.width() == self@.width() - 1),
    {
        let width = self.settings.grid_dimensions.x as usize;
        let remainder = (cell_index - 1) % width;
        remainder == width - 1
    }

    /// Is the cell whose range starts at slot `cell_index` at the top edge of
    /// the grid?
    fn is_cell_at_top_edge(&self, cell_index: usize) -> (r: bool)
        requires
            cell_index >= 1,
            self@.width() >= 1,
            self@.height() >= 1,
        ensures
            r == ((cell_index - 1) / self@.width() == self@.height() - 1),
    {
        let width = self.settings.grid_dimensions.x as usize;
        let height = self.settings.grid_dimensions.y as usize;
        let rows = (cell_index - 1) / width;
        rows == height - 1
    }
}

/// Every particle that the physics of a cell writes is inside the viewport,
/// edges included, when the viewport has room; and none of them is faster
/// than the speed limit.
pub proof fn lemma_output_within_limits(cell: &CellView, slot: int)
    requires
        cell.output(slot).is_some(),
    ensures
        cell.output(slot).unwrap().within_speed_limit(),
        cell.settings.has_room() ==> in_viewport(
            &cell.settings,
            cell.output(slot).unwrap().position,
        ),
{
}

} // verus!
