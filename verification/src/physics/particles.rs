//! The particles that a workgroup holds in local memory, and how they push
//! each other apart.

use crate::config_shader::WorldSettings;
use crate::math::Vec2;
use crate::physics::indices::{Indices, Range, Storage, MAX_PARTICLES_IN_CELL};
use crate::config_shader::in_viewport;
use crate::physics::particle::{lemma_free_flight_keeps_velocity, Particle};
use crate::scalar::{floor_div_i64, isqrt, Scalar};
use vstd::prelude::*;

verus! {

/// The number of particles that local memory has room for: the centre cell
/// and its four corner cells.
pub const LOCAL_PARTICLES: usize = 20;

/// The minimum distance allowed between particles, as a raw scalar: one
/// particle diameter.
pub const MIN_DISTANCE_RAW: i64 = 16_777_216;

/// What stands in for a distance of zero, as a raw scalar: about a
/// ten-thousandth.
pub const ZERO_DISTANCE_RAW: i64 = 1678;

/// The distance that is reported for particles too far apart to matter.
pub const FAR_RAW: i64 = i64::MAX;

/// The square of the raw distance between `a` and `b`.
pub open spec fn spec_distance_squared(a: Vec2, b: Vec2) -> int {
    (b.x.raw - a.x.raw) * (b.x.raw - a.x.raw) + (b.y.raw - a.y.raw) * (b.y.raw - a.y.raw)
}

/// `a` and `b` are no more than the minimum distance apart.
pub open spec fn spec_close(a: Vec2, b: Vec2) -> bool {
    spec_distance_squared(a, b) <= MIN_DISTANCE_RAW * MIN_DISTANCE_RAW
}

/// `r` is the integer square root of `n`.
pub open spec fn is_root(n: int, r: int) -> bool {
    0 <= r && r * r <= n < (r + 1) * (r + 1)
}

/// The integer square root of `n`.
pub open spec fn spec_root(n: int) -> int {
    choose|r: int| is_root(n, r)
}

/// A number has at most one integer square root.
pub proof fn lemma_root_unique(n: int, r: int)
    requires
        is_root(n, r),
    ensures
        spec_root(n) == r,
{
    let s = spec_root(n);
    assert(is_root(n, s));
    if s < r {
        assert((s + 1) * (s + 1) <= r * r) by (nonlinear_arith)
            requires
                0 <= s < r,
        ;
    }
    if r < s {
        assert((r + 1) * (r + 1) <= s * s) by (nonlinear_arith)
            requires
                0 <= r < s,
        ;
    }
}

/// Particles that are close are close along each axis.
pub proof fn lemma_close_along_axes(a: Vec2, b: Vec2)
    requires
        spec_close(a, b),
    ensures
        -MIN_DISTANCE_RAW <= b.x.raw - a.x.raw <= MIN_DISTANCE_RAW,
        -MIN_DISTANCE_RAW <= b.y.raw - a.y.raw <= MIN_DISTANCE_RAW,
{
    let dx = b.x.raw - a.x.raw;
    let dy = b.y.raw - a.y.raw;
    assert(dx * dx >= 0 && dy * dy >= 0) by (nonlinear_arith);
    if dx > MIN_DISTANCE_RAW || dx < -MIN_DISTANCE_RAW {
        assert(dx * dx > 16777216 * 16777216) by (nonlinear_arith)
            requires
                dx > 16777216 || dx < -16777216,
        ;
    }
    if dy > MIN_DISTANCE_RAW || dy < -MIN_DISTANCE_RAW {
        assert(dy * dy > 16777216 * 16777216) by (nonlinear_arith)
            requires
                dy > 16777216 || dy < -16777216,
        ;
    }
}

/// The distance between two particles as the kernel measures it: the integer
/// square root of the squared distance, with [`ZERO_DISTANCE_RAW`] in place of
/// zero; and [`FAR_RAW`] for particles that are not close.
pub open spec fn spec_pair_distance(a: Vec2, b: Vec2) -> i64 {
    if spec_close(a, b) {
        let root = spec_root(spec_distance_squared(a, b));
        if root == 0 {
            ZERO_DISTANCE_RAW
        } else {
            root as i64
        }
    } else {
        FAR_RAW
    }
}

/// How far a particle is pushed along an axis on which it is `delta` away
/// from the other, when the two are `distance` apart: half of what is missing
/// to the minimum distance, in proportion.
pub open spec fn spec_axis_push(delta: int, distance: int) -> int {
    (delta * (MIN_DISTANCE_RAW - distance)) / (2 * distance)
}

/// The vector by which each of two close particles is pushed.
pub open spec fn spec_push_vector(a: Vec2, b: Vec2) -> Vec2 {
    let distance = spec_pair_distance(a, b);
    Vec2 {
        x: Scalar { raw: spec_axis_push(b.x.raw - a.x.raw, distance as int) as i64 },
        y: Scalar { raw: spec_axis_push(b.y.raw - a.y.raw, distance as int) as i64 },
    }
}

/// `particle`, at another position.
pub open spec fn spec_moved(particle: Particle, position: Vec2) -> Particle {
    Particle { index: particle.index, position, velocity: particle.velocity }
}

/// The particles after the pair `(left, right)` has been looked at: if the two
/// are close, the left one is pushed back by the push vector and the right
/// one forward.
pub open spec fn spec_push_pair(data: Seq<Particle>, left: int, right: int) -> Seq<Particle> {
    if spec_close(data[left].position, data[right].position) {
        let v = spec_push_vector(data[left].position, data[right].position);
        data.update(left, spec_moved(data[left],
            data[left].position.spec_saturating_sub(v))).update(
            right,
            spec_moved(data[right], data[right].position.spec_saturating_add(v)),
        )
    } else {
        data
    }
}

/// The particles after `left` has been pushed away from `right`, which stays
/// where it is.
pub open spec fn spec_push_from(data: Seq<Particle>, left: int, right: int) -> Seq<Particle> {
    if spec_close(data[left].position, data[right].position) {
        let v = spec_push_vector(data[left].position, data[right].position);
        data.update(left, spec_moved(data[left], data[left].position.spec_saturating_sub(v)))
    } else {
        data
    }
}

/// The particles after the pairs `(left, left + 1)`, ..., `(left, end - 1)`
/// have been looked at, in that order.
pub open spec fn spec_pairs_of(data: Seq<Particle>, left: int, end: int) -> Seq<Particle>
    decreases end - left,
{
    if end <= left + 1 {
        data
    } else {
        spec_push_pair(spec_pairs_of(data, left, end - 1), left, end - 1)
    }
}

/// The particles after all the pairs of the first `count` particles whose
/// left particle comes before `left_end` have been looked at.
pub open spec fn spec_pairs_in_cell(data: Seq<Particle>, left_end: int, count: int) -> Seq<
    Particle,
>
    decreases left_end,
{
    if left_end <= 0 {
        data
    } else {
        spec_pairs_of(spec_pairs_in_cell(data, left_end - 1, count), left_end - 1, count)
    }
}

/// The particles after `left` has been pushed away from the particles `from`,
/// ..., `end - 1`, in that order.
pub open spec fn spec_pushes_from(data: Seq<Particle>, left: int, from: int, end: int) -> Seq<
    Particle,
>
    decreases end - from,
{
    if end <= from {
        data
    } else {
        spec_push_from(spec_pushes_from(data, left, from, end - 1), left, end - 1)
    }
}

/// The particles after each of the first `left_end` particles has been pushed
/// away from the particles `from`, ..., `end - 1`.
pub open spec fn spec_auxiliary_cell(data: Seq<Particle>, left_end: int, from: int, end: int) ->
    Seq<
    Particle,
>
    decreases left_end,
{
    if left_end <= 0 {
        data
    } else {
        spec_pushes_from(spec_auxiliary_cell(data, left_end - 1, from, end), left_end - 1, from,
            end)
    }
}

/// The number of particles of `range` that a workgroup loads: all of them, up
/// to the capacity of a cell.
pub open spec fn spec_capped(range: Range) -> int {
    if range.end_by - range.from > MAX_PARTICLES_IN_CELL {
        MAX_PARTICLES_IN_CELL as int
    } else {
        range.end_by - range.from
    }
}

/// The local range of `storage`, cut off at the capacity of a cell.
pub open spec fn spec_capped_local(storage: Storage) -> Range {
    Range {
        from: storage.local.from,
        end_by: (storage.local.from + spec_capped(storage.global)) as usize,
    }
}

/// The particle with index `index` of the given buffers.
pub open spec fn spec_particle_at(positions: Seq<Vec2>, velocities: Seq<Vec2>, index: int) ->
    Particle {
    Particle { index: index as usize, position: positions[index], velocity: velocities[index] }
}

/// The particle that local memory holds where nothing was loaded.
pub open spec fn spec_no_particle() -> Particle {
    Particle {
        index: 0,
        position: Vec2 { x: Scalar { raw: 0 }, y: Scalar { raw: 0 } },
        velocity: Vec2 { x: Scalar { raw: 0 }, y: Scalar { raw: 0 } },
    }
}

/// Local slot `slot` belongs to the loaded part of `storage`.
pub open spec fn spec_in_local(storage: Storage, slot: int) -> bool {
    storage.local.from <= slot < storage.local.from + spec_capped(storage.global)
}

/// What local slot `slot` holds once the five cells of `indices` are loaded.
pub open spec fn spec_local_particle(
    indices: Indices,
    positions_in: Seq<Vec2>,
    velocities_in: Seq<Vec2>,
    positions_aux: Seq<Vec2>,
    velocities_aux: Seq<Vec2>,
    slot: int,
) -> Particle {
    if spec_in_local(indices.centre, slot) {
        spec_particle_at(
            positions_in,
            velocities_in,
            indices.centre.global.from + (slot - indices.centre.local.from),
        )
    } else if spec_in_local(indices.bottom_left, slot) {
        spec_particle_at(
            positions_aux,
            velocities_aux,
            indices.bottom_left.global.from + (slot - indices.bottom_left.local.from),
        )
    } else if spec_in_local(indices.bottom_right, slot) {
        spec_particle_at(
            positions_aux,
            velocities_aux,
            indices.bottom_right.global.from + (slot - indices.bottom_right.local.from),
        )
    } else if spec_in_local(indices.top_left, slot) {
        spec_particle_at(
            positions_aux,
            velocities_aux,
            indices.top_left.global.from + (slot - indices.top_left.local.from),
        )
    } else if spec_in_local(indices.top_right, slot) {
        spec_particle_at(
            positions_aux,
            velocities_aux,
            indices.top_right.global.from + (slot - indices.top_right.local.from),
        )
    } else {
        spec_no_particle()
    }
}

/// Local memory once the five cells of `indices` are loaded.
pub open spec fn spec_loaded(
    indices: Indices,
    positions_in: Seq<Vec2>,
    velocities_in: Seq<Vec2>,
    positions_aux: Seq<Vec2>,
    velocities_aux: Seq<Vec2>,
) -> Seq<Particle> {
    Seq::new(
        LOCAL_PARTICLES as nat,
        |slot: int|
            spec_local_particle(
                indices,
                positions_in,
                velocities_in,
                positions_aux,
                velocities_aux,
                slot,
            ),
    )
}

/// The global range of `storage` lies within buffers of `length` items.
pub open spec fn spec_within(storage: Storage, length: int) -> bool {
    storage.global.from <= storage.global.end_by <= length
}

/// All the particles of a cell and of its corner cells.
pub struct Particles {
    /// The global and local indices that say where the particles are.
    pub indices: Indices,
    /// The local memory: first the particles of the centre cell, then those of
    /// the corner cells, one cell capacity apart.
    pub data: [Particle; LOCAL_PARTICLES],
    /// Number of loaded particles of the centre cell.
    pub centre_count: usize,
}

impl Particles {
    /// The slot of the auxiliary index buffer at which the range of the
    /// bottom-left corner cell of main cell `cell` starts. A row of the
    /// auxiliary grid is one cell longer than a row of the main grid, and
    /// every index buffer starts with one slot that belongs to no cell.
    pub open spec fn spec_aux_slot(cell: int, grid_width: int) -> int {
        (cell / grid_width) * (grid_width + 1) + cell % grid_width + 1
    }

    /// What [`Particles::new`] needs of its arguments.
    pub open spec fn loadable(
        indices_main: Seq<u32>,
        indices_aux: Seq<u32>,
        cell_index: int,
        grid_width: int,
        workgroup_offset: int,
        positions_in: Seq<Vec2>,
        velocities_in: Seq<Vec2>,
        positions_aux: Seq<Vec2>,
        velocities_aux: Seq<Vec2>,
    ) -> bool {
        let aux_slot = Self::spec_aux_slot(cell_index - 1, grid_width);
        let indices = Indices::spec_locate(
            indices_main,
            indices_aux,
            cell_index,
            aux_slot,
            grid_width + 1,
            workgroup_offset,
        );
        &&& cell_index >= 1
        &&& grid_width >= 1
        &&& Indices::locatable(
            indices_main,
            indices_aux,
            cell_index,
            aux_slot,
            grid_width + 1,
            workgroup_offset,
        )
        &&& workgroup_offset + spec_capped(indices.centre.global) <= MAX_PARTICLES_IN_CELL
        &&& spec_within(indices.centre, positions_in.len() as int)
        &&& spec_within(indices.centre, velocities_in.len() as int)
        &&& spec_within(indices.bottom_left, positions_aux.len() as int)
        &&& spec_within(indices.bottom_left, velocities_aux.len() as int)
        &&& spec_within(indices.bottom_right, positions_aux.len() as int)
        &&& spec_within(indices.bottom_right, velocities_aux.len() as int)
        &&& spec_within(indices.top_left, positions_aux.len() as int)
        &&& spec_within(indices.top_left, velocities_aux.len() as int)
        &&& spec_within(indices.top_right, positions_aux.len() as int)
        &&& spec_within(indices.top_right, velocities_aux.len() as int)
    }

    /// The loaded centre particles are at the start of local memory and each
    /// corner cell has its loaded particles after them, inside local memory.
    pub open spec fn laid_out(&self) -> bool {
        &&& self.centre_count == spec_capped(self.indices.centre.global)
        &&& self.indices.centre.local.from == 0
        &&& self.indices.centre.global.from <= self.indices.centre.global.end_by
        &&& self.aux_wf(self.indices.bottom_left)
        &&& self.aux_wf(self.indices.bottom_right)
        &&& self.aux_wf(self.indices.top_left)
        &&& self.aux_wf(self.indices.top_right)
    }

    /// Local memory is laid out, and every loaded particle of the centre cell
    /// knows its slot in the packed buffers.
    pub open spec fn wf(&self) -> bool {
        &&& self.laid_out()
        &&& forall|i: int|
            0 <= i < self.centre_count ==> (#[trigger] self.data@[i]).index
                == self.indices.centre.global.from + i
    }

    /// The loaded particles of the corner cell `storage` come after the
    /// centre particles, inside local memory.
    pub open spec fn aux_wf(&self, storage: Storage) -> bool {
        &&& storage.global.from <= storage.global.end_by
        &&& self.centre_count <= storage.local.from
        &&& storage.local.from + spec_capped(storage.global) <= LOCAL_PARTICLES
    }

    /// Loads the particles of the cell whose range starts at slot
    /// `cell_index` of the main index buffer, and those of its four corner
    /// cells, from the packed buffers into local memory. Of each cell no more
    /// particles are loaded than a cell has capacity for.
    pub fn new(
        indices_main: &[u32],
        indices_aux: &[u32],
        cell_index: usize,
        grid_width: u32,
        workgroup_offset: usize,
        positions_in: &[Vec2],
        velocities_in: &[Vec2],
        positions_aux: &[Vec2],
        velocities_aux: &[Vec2],
    ) -> (r: Self)
        requires
            Self::loadable(
                indices_main@,
                indices_aux@,
                cell_index as int,
                grid_width as int,
                workgroup_offset as int,
                positions_in@,
                velocities_in@,
                positions_aux@,
                velocities_aux@,
            ),
        ensures
            r.indices == Indices::spec_locate(
                indices_main@,
                indices_aux@,
                cell_index as int,
                Self::spec_aux_slot(cell_index - 1, grid_width as int),
                grid_width + 1,
                workgroup_offset as int,
            ),
            r.data@ == spec_loaded(
                r.indices,
                positions_in@,
                velocities_in@,
                positions_aux@,
                velocities_aux@,
            ),
            r.wf(),
    {
        let width = grid_width as usize;
        let cell = cell_index - 1;
        let aux_slots = indices_aux.len();
        let ghost aux_slot_spec = Self::spec_aux_slot(cell as int, grid_width as int);
        proof {
            let row = cell as int / grid_width as int;
            let column = cell as int % grid_width as int;
            vstd::arithmetic::div_mod::lemma_fundamental_div_mod(cell as int, grid_width as int);
            vstd::arithmetic::div_mod::lemma_mod_bound(cell as int, grid_width as int);
            vstd::arithmetic::div_mod::lemma_div_pos_is_pos(cell as int, grid_width as int);
            assert(0 <= row * (grid_width + 1)) by (nonlinear_arith)
                requires
                    0 <= row,
                    0 <= grid_width,
            ;
            assert(aux_slot_spec + (grid_width + 1) + 2 < aux_slots);
        }
        let row = cell / width;
        let column = cell % width;
        assert(row * (width + 1) <= aux_slots) by (nonlinear_arith)
            requires
                row * (width + 1) + column + 1 < aux_slots,
                0 <= column,
        ;
        let aux_slot = row * (width + 1) + column + 1;
        let mut particles = Particles {
            indices: Indices::locate(
                indices_main,
                indices_aux,
                cell_index,
                aux_slot,
                width + 1,
                workgroup_offset,
            ),
            data: [Particle::default(); LOCAL_PARTICLES],
            centre_count: 0,
        };
        let ghost empty = particles.data@;
        assert(forall|slot: int| 0 <= slot < LOCAL_PARTICLES ==> empty[slot] == spec_no_particle());

        particles.centre_count = particles.load_particles_from_cell_centre(
            particles.indices.centre,
            positions_in,
            velocities_in,
        );
        particles.load_particles_from_cell(
            particles.indices.bottom_left,
            positions_aux,
            velocities_aux,
        );
        particles.load_particles_from_cell(
            particles.indices.bottom_right,
            positions_aux,
            velocities_aux,
        );
        particles.load_particles_from_cell(
            particles.indices.top_left,
            positions_aux,
            velocities_aux,
        );
        particles.load_particles_from_cell(
            particles.indices.top_right,
            positions_aux,
            velocities_aux,
        );
        proof {
            let loaded = spec_loaded(
                particles.indices,
                positions_in@,
                velocities_in@,
                positions_aux@,
                velocities_aux@,
            );
            assert forall|slot: int| 0 <= slot < LOCAL_PARTICLES implies particles.data@[slot]
                == loaded[slot] by {}
            assert(particles.data@ =~= loaded);
        }

        particles
    }

    /// Loads the particles of the centre cell.
    fn load_particles_from_cell_centre(
        &mut self,
        storage: Storage,
        positions: &[Vec2],
        velocities: &[Vec2],
    ) -> (particles_count: usize)
        requires
            spec_within(storage, positions@.len() as int),
            spec_within(storage, velocities@.len() as int),
            storage.local.from + spec_capped(storage.global) <= LOCAL_PARTICLES,
        ensures
            particles_count == spec_capped(storage.global),
            final(self).indices == old(self).indices,
            final(self).centre_count == old(self).centre_count,
            forall|slot: int|
                0 <= slot < LOCAL_PARTICLES ==> #[trigger] final(self).data@[slot] == (if
                    spec_in_local(
                    storage,
                    slot,
                ) {
                    spec_particle_at(
                        positions@,
                        velocities@,
                        storage.global.from + (slot - storage.local.from),
                    )
                } else {
                    old(self).data@[slot]
                }),
    {
        self.load(storage, positions, velocities)
    }

    /// Loads the particles of a corner cell.
    fn load_particles_from_cell(
        &mut self,
        storage: Storage,
        positions: &[Vec2],
        velocities: &[Vec2],
    ) -> (particles_count: usize)
        requires
            spec_within(storage, positions@.len() as int),
            spec_within(storage, velocities@.len() as int),
            storage.local.from + spec_capped(storage.global) <= LOCAL_PARTICLES,
        ensures
            particles_count == spec_capped(storage.global),
            final(self).indices == old(self).indices,
            final(self).centre_count == old(self).centre_count,
            forall|slot: int|
                0 <= slot < LOCAL_PARTICLES ==> #[trigger] final(self).data@[slot] == (if
                    spec_in_local(
                    storage,
                    slot,
                ) {
                    spec_particle_at(
                        positions@,
                        velocities@,
                        storage.global.from + (slot - storage.local.from),
                    )
                } else {
                    old(self).data@[slot]
                }),
    {
        self.load(storage, positions, velocities)
    }

    /// Copies the first particles of the global range of `storage`, up to
    /// the capacity of a cell, to local memory from the start of the local
    /// range on.
    fn load(&mut self, storage: Storage, positions: &[Vec2], velocities: &[Vec2]) ->
        (particles_count:
        usize)
        requires
            spec_within(storage, positions@.len() as int),
            spec_within(storage, velocities@.len() as int),
            storage.local.from + spec_capped(storage.global) <= LOCAL_PARTICLES,
        ensures
            particles_count == spec_capped(storage.global),
            final(self).indices == old(self).indices,
            final(self).centre_count == old(self).centre_count,
            forall|slot: int|
                0 <= slot < LOCAL_PARTICLES ==> #[trigger] final(self).data@[slot] == (if
                    spec_in_local(
                    storage,
                    slot,
                ) {
                    spec_particle_at(
                        positions@,
                        velocities@,
                        storage.global.from + (slot - storage.local.from),
                    )
                } else {
                    old(self).data@[slot]
                }),
    {
        let mut particles_count = storage.global.end_by - storage.global.from;
        if particles_count > MAX_PARTICLES_IN_CELL {
            particles_count = MAX_PARTICLES_IN_CELL;
        }
        let particles_end_by = storage.global.from + particles_count;

        let mut local_index = storage.local.from;
        let mut global_index = storage.global.from;
        while global_index < particles_end_by
            invariant
                particles_count == spec_capped(storage.global),
                particles_end_by == storage.global.from + particles_count,
                storage.global.from <= global_index <= particles_end_by,
                local_index == storage.local.from + (global_index - storage.global.from),
                storage.local.from + particles_count <= LOCAL_PARTICLES,
                particles_end_by <= positions@.len(),
                particles_end_by <= velocities@.len(),
                self.indices == old(self).indices,
                self.centre_count == old(self).centre_count,
                forall|slot: int|
                    0 <= slot < LOCAL_PARTICLES ==> #[trigger] self.data@[slot] == (if
                        storage.local.from
                        <= slot < local_index {
                        spec_particle_at(
                            positions@,
                            velocities@,
                            storage.global.from + (slot - storage.local.from),
                        )
                    } else {
                        old(self).data@[slot]
                    }),
            decreases particles_end_by - global_index,
        {
            self.set(local_index, Particle::new(global_index, positions, velocities));
            local_index += 1;
            global_index += 1;
        }

        particles_count
    }

    /// The distance between two particles of local memory, as
    /// [`spec_pair_distance`] defines it.
    fn calculate_distance_between_particle_pair(&self, index_left: usize, index_right: usize) ->
        (distance:
        Scalar)
        requires
            index_left < LOCAL_PARTICLES,
            index_right < LOCAL_PARTICLES,
        ensures
            distance.raw == spec_pair_distance(
                self.data@[index_left as int].position,
                self.data@[index_right as int].position,
            ),
            spec_close(
                self.data@[index_left as int].position,
                self.data@[index_right as int].position,
            ) <==> distance.raw <= MIN_DISTANCE_RAW,
            distance.raw > 0,
    {
        let left = self.data[index_left].position;
        let right = self.data[index_right].position;
        let dx: i128 = right.x.raw as i128 - left.x.raw as i128;
        let dy: i128 = right.y.raw as i128 - left.y.raw as i128;
        let limit: i128 = MIN_DISTANCE_RAW as i128;
        if dx > limit || dx < -limit || dy > limit || dy < -limit {
            proof {
                if spec_close(left, right) {
                    lemma_close_along_axes(left, right);
                }
            }
            return Scalar::from_raw(FAR_RAW);
        }
        assert(0 <= dx * dx <= 16777216 * 16777216 && 0 <= dy * dy <= 16777216 * 16777216) by
            (nonlinear_arith)
            requires
                -16777216 <= dx <= 16777216,
                -16777216 <= dy <= 16777216,
        ;
        let squared: u64 = (dx * dx + dy * dy) as u64;
        if squared > (MIN_DISTANCE_RAW as u64) * (MIN_DISTANCE_RAW as u64) {
            return Scalar::from_raw(FAR_RAW);
        }
        let root = isqrt(squared);
        proof {
            lemma_root_unique(squared as int, root as int);
            if root > 16777216 {
                assert(root * root > 16777216 * 16777216) by (nonlinear_arith)
                    requires
                        root > 16777216,
                ;
            }
        }
        if root == 0 {
            Scalar::from_raw(ZERO_DISTANCE_RAW)
        } else {
            Scalar::from_raw(root as i64)
        }
    }

    /// Goes through the pairs of particles of the centre cell, each pair
    /// once, and pushes apart those that are too close.
    pub fn pairs_in_cell(&mut self)
        requires
            old(self).centre_count <= LOCAL_PARTICLES,
        ensures
            final(self).indices == old(self).indices,
            final(self).centre_count == old(self).centre_count,
            final(self).data@ == spec_pairs_in_cell(
                old(self).data@,
                old(self).centre_count as int,
                old(self).centre_count as int,
            ),
    {
        let count = self.centre_count;
        let mut i_left: usize = 0;
        while i_left < count
            invariant
                0 <= i_left <= count <= LOCAL_PARTICLES,
                count == old(self).centre_count,
                self.indices == old(self).indices,
                self.centre_count == old(self).centre_count,
                self.data@ == spec_pairs_in_cell(old(self).data@, i_left as int, count as int),
            decreases count - i_left,
        {
            let ghost before = self.data@;
            let mut i_right: usize = i_left + 1;
            while i_right < count
                invariant
                    i_left < i_right <= count <= LOCAL_PARTICLES,
                    self.indices == old(self).indices,
                    self.centre_count == old(self).centre_count,
                    self.data@ == spec_pairs_of(before, i_left as int, i_right as int),
                decreases count - i_right,
            {
                let distance = self.calculate_distance_between_particle_pair(i_left, i_right);
                if distance.raw <= MIN_DISTANCE_RAW {
                    self.push_close_particles_apart(distance, i_left, i_right);
                }
                i_right += 1;
            }
            i_left += 1;
        }
    }

    /// Pushes the particles of the centre cell away from the particles of
    /// the four corner cells, corner by corner. The particles of the corner
    /// cells stay where they are: they are copies of particles that belong to
    /// other cells.
    pub fn auxiliares_around_cell(&mut self)
        requires
            old(self).laid_out(),
        ensures
            final(self).indices == old(self).indices,
            final(self).centre_count == old(self).centre_count,
            final(self).data@ == spec_auxiliares(
                old(self).data@,
                old(self).centre_count as int,
                old(self).indices,
            ),
    {
        let bottom_left = capped_local(self.indices.bottom_left);
        let bottom_right = capped_local(self.indices.bottom_right);
        let top_left = capped_local(self.indices.top_left);
        let top_right = capped_local(self.indices.top_right);
        self.single_auxiliary_cell(bottom_left);
        self.single_auxiliary_cell(bottom_right);
        self.single_auxiliary_cell(top_left);
        self.single_auxiliary_cell(top_right);
    }

    /// Pushes each particle of the centre cell away from each particle of
    /// the local range `indices`. A range of more particles than a cell has
    /// capacity for is left alone.
    pub fn single_auxiliary_cell(&mut self, indices: Range)
        requires
            old(self).centre_count <= indices.from <= indices.end_by <= LOCAL_PARTICLES,
        ensures
            final(self).indices == old(self).indices,
            final(self).centre_count == old(self).centre_count,
            final(self).data@ == spec_single_auxiliary_cell(
                old(self).data@,
                old(self).centre_count as int,
                indices,
            ),
    {
        if indices.end_by - indices.from > MAX_PARTICLES_IN_CELL {
            return ;
        }
        let count = self.centre_count;
        let mut i_left: usize = 0;
        while i_left < count
            invariant
                0 <= i_left <= count,
                count <= indices.from <= indices.end_by <= LOCAL_PARTICLES,
                count == old(self).centre_count,
                self.indices == old(self).indices,
                self.centre_count == old(self).centre_count,
                self.data@ == spec_auxiliary_cell(
                    old(self).data@,
                    i_left as int,
                    indices.from as int,
                    indices.end_by as int,
                ),
            decreases count - i_left,
        {
            let ghost before = self.data@;
            let mut i_right: usize = indices.from;
            while i_right < indices.end_by
                invariant
                    i_left < count <= indices.from <= i_right <= indices.end_by <= LOCAL_PARTICLES,
                    self.indices == old(self).indices,
                    self.centre_count == old(self).centre_count,
                    self.data@ == spec_pushes_from(
                        before,
                        i_left as int,
                        indices.from as int,
                        i_right as int,
                    ),
                decreases indices.end_by - i_right,
            {
                let distance = self.calculate_distance_between_particle_pair(i_left, i_right);
                if distance.raw <= MIN_DISTANCE_RAW {
                    self.push_particle_away(distance, i_left, i_right);
                }
                i_right += 1;
            }
            i_left += 1;
        }
    }

    /// The vector by which each of the two close particles is pushed.
    fn push_vector(&self, distance: Scalar, i_left: usize, i_right: usize) -> (v: Vec2)
        requires
            i_left < LOCAL_PARTICLES,
            i_right < LOCAL_PARTICLES,
            spec_close(self.data@[i_left as int].position, self.data@[i_right as int].position),
            distance.raw == spec_pair_distance(
                self.data@[i_left as int].position,
                self.data@[i_right as int].position,
            ),
        ensures
            v == spec_push_vector(
                self.data@[i_left as int].position,
                self.data@[i_right as int].position,
            ),
    {
        let left = self.data[i_left].position;
        let right = self.data[i_right].position;
        proof {
            lemma_close_along_axes(left, right);
            let root = spec_root(spec_distance_squared(left, right));
            let squared = spec_distance_squared(left, right);
            assert(squared >= 0) by (nonlinear_arith)
                requires
                    squared == (right.x.raw - left.x.raw) * (right.x.raw - left.x.raw) +
                        (right.y.raw
                        - left.y.raw) * (right.y.raw - left.y.raw),
            ;
            lemma_root_exists(squared);
            if root > 16777216 {
                assert(root * root > 16777216 * 16777216) by (nonlinear_arith)
                    requires
                        root > 16777216,
                ;
            }
        }
        let dx: i64 = right.x.raw - left.x.raw;
        let dy: i64 = right.y.raw - left.y.raw;
        let missing: i64 = MIN_DISTANCE_RAW - distance.raw;
        assert(-16777216 * 16777216 <= dx * missing <= 16777216 * 16777216 && -16777216 * 16777216
            <= dy * missing
            <= 16777216 * 16777216) by (nonlinear_arith)
            requires
                -16777216 <= dx <= 16777216,
                -16777216 <= dy <= 16777216,
                0 <= missing <= 16777216,
        ;
        let divisor: i64 = 2 * distance.raw;
        let x = floor_div_i64(dx * missing, divisor);
        let y = floor_div_i64(dy * missing, divisor);
        Vec2 { x: Scalar::from_raw(x), y: Scalar::from_raw(y) }
    }

    /// Two particles are closer than their size allows: moves each of them
    /// back by half of what is missing.
    fn push_close_particles_apart(&mut self, distance: Scalar, i_left: usize, i_right: usize)
        requires
            i_left < LOCAL_PARTICLES,
            i_right < LOCAL_PARTICLES,
            i_left != i_right,
            spec_close(
                old(self).data@[i_left as int].position,
                old(self).data@[i_right as int].position,
            ),
            distance.raw == spec_pair_distance(
                old(self).data@[i_left as int].position,
                old(self).data@[i_right as int].position,
            ),
        ensures
            final(self).indices == old(self).indices,
            final(self).centre_count == old(self).centre_count,
            final(self).data@ == spec_push_pair(old(self).data@, i_left as int, i_right as int),
    {
        let distance_vec = self.push_vector(distance, i_left, i_right);
        self.data[i_left].position = self.data[i_left].position.saturating_sub(distance_vec);
        self.data[i_right].position = self.data[i_right].position.saturating_add(distance_vec);
        proof {
            assert(self.data@ =~= spec_push_pair(old(self).data@, i_left as int, i_right as int));
        }
    }

    /// A particle of the centre cell is closer to a particle of a corner cell
    /// than their size allows: moves the particle of the centre cell back by
    /// half of what is missing.
    fn push_particle_away(&mut self, distance: Scalar, i_left: usize, i_right: usize)
        requires
            i_left < LOCAL_PARTICLES,
            i_right < LOCAL_PARTICLES,
            i_left != i_right,
            spec_close(
                old(self).data@[i_left as int].position,
                old(self).data@[i_right as int].position,
            ),
            distance.raw == spec_pair_distance(
                old(self).data@[i_left as int].position,
                old(self).data@[i_right as int].position,
            ),
        ensures
            final(self).indices == old(self).indices,
            final(self).centre_count == old(self).centre_count,
            final(self).data@ == spec_push_from(old(self).data@, i_left as int, i_right as int),
    {
        let distance_vec = self.push_vector(distance, i_left, i_right);
        self.data[i_left].position = self.data[i_left].position.saturating_sub(distance_vec);
        proof {
            assert(self.data@ =~= spec_push_from(old(self).data@, i_left as int, i_right as int));
        }
    }

    /// Lets each particle of the centre cell make its move, holds it to the
    /// limits, and writes it back to its slot of the packed buffers.
    pub fn finish(
        &mut self,
        settings: &WorldSettings,
        positions: &mut [Vec2],
        velocities: &mut [Vec2],
    )
        requires
            old(self).centre_count <= LOCAL_PARTICLES,
            forall|i: int|
                0 <= i < old(self).centre_count ==> (#[trigger] old(self).data@[i]).index <
                    old(positions)@.len() && old(self).data@[i].index < old(velocities)@.len(),
        ensures
            final(self).indices == old(self).indices,
            final(self).centre_count == old(self).centre_count,
            final(self).data@ == spec_finished(
                old(self).data@,
                old(self).centre_count as int,
                settings,
            ),
            final(positions)@ == spec_written_positions(
                old(positions)@,
                final(self).data@,
                old(self).centre_count as int,
            ),
            final(velocities)@ == spec_written_velocities(
                old(velocities)@,
                final(self).data@,
                old(self).centre_count as int,
            ),
    {
        let count = self.centre_count;
        let mut i: usize = 0;
        while i < count
            invariant
                0 <= i <= count <= LOCAL_PARTICLES,
                count == old(self).centre_count,
                self.indices == old(self).indices,
                self.centre_count == old(self).centre_count,
                positions@.len() == old(positions)@.len(),
                velocities@.len() == old(velocities)@.len(),
                forall|j: int|
                    0 <= j < count ==> (#[trigger] old(self).data@[j]).index < positions@.len()
                        && old(self).data@[j].index < velocities@.len(),
                self.data@ == spec_finished(old(self).data@, i as int, settings),
                positions@ == spec_written_positions(old(positions)@, self.data@, i as int),
                velocities@ == spec_written_velocities(old(velocities)@, self.data@, i as int),
            decreases count - i,
        {
            let ghost before = self.data@;
            proof {
                lemma_finished_keeps_rest(old(self).data@, i as int, settings, i as int);
            }
            self.data[i].integrate();
            self.data[i].enforce_limits(settings);
            let particle = self.data[i];
            particle.write(positions, velocities);
            proof {
                assert(self.data@ =~= spec_finished(old(self).data@, i as int + 1, settings));
                lemma_written_ignores_rest(old(positions)@, before, self.data@, i as int);
                lemma_written_ignores_rest_velocities(
                    old(velocities)@,
                    before,
                    self.data@,
                    i as int,
                );
            }
            i += 1;
        }
    }

    /// Puts `value` into local memory.
    fn set(&mut self, index: usize, value: Particle)
        requires
            index < LOCAL_PARTICLES,
        ensures
            final(self).data@ == old(self).data@.update(index as int, value),
            final(self).indices == old(self).indices,
            final(self).centre_count == old(self).centre_count,
    {
        self.data[index] = value;
    }
}

/// The local range of `storage`, cut off at the capacity of a cell.
fn capped_local(storage: Storage) -> (r: Range)
    requires
        storage.global.from <= storage.global.end_by,
        storage.local.from + spec_capped(storage.global) <= LOCAL_PARTICLES,
    ensures
        r == spec_capped_local(storage),
{
    let mut count = storage.global.end_by - storage.global.from;
    if count > MAX_PARTICLES_IN_CELL {
        count = MAX_PARTICLES_IN_CELL;
    }
    Range { from: storage.local.from, end_by: storage.local.from + count }
}

/// Every number that is not negative has an integer square root.
pub proof fn lemma_root_exists(n: int)
    requires
        n >= 0,
    ensures
        is_root(n, spec_root(n)),
    decreases n,
{
    if n == 0 {
        assert(is_root(0, 0));
    } else {
        lemma_root_exists(n - 1);
        let r = spec_root(n - 1);
        if (r + 1) * (r + 1) <= n {
            assert(n < (r + 2) * (r + 2)) by (nonlinear_arith)
                requires
                    n - 1 < (r + 1) * (r + 1),
                    0 <= r,
            ;
            assert(is_root(n, r + 1));
        } else {
            assert(is_root(n, r));
        }
    }
}

/// The particles after each particle of the centre cell has been pushed away
/// from the particles of the local range `range`; unchanged if the range is
/// longer than the capacity of a cell.
pub open spec fn spec_single_auxiliary_cell(data: Seq<Particle>, count: int, range: Range) -> Seq<
    Particle,
> {
    if range.end_by - range.from > MAX_PARTICLES_IN_CELL {
        data
    } else {
        spec_auxiliary_cell(data, count, range.from as int, range.end_by as int)
    }
}

/// The particles after the particles of the centre cell have been pushed away
/// from the loaded particles of the four corner cells: bottom-left,
/// bottom-right, top-left, top-right.
pub open spec fn spec_auxiliares(data: Seq<Particle>, count: int, indices: Indices) ->
    Seq<Particle> {
    let first = spec_single_auxiliary_cell(data, count, spec_capped_local(indices.bottom_left));
    let second = spec_single_auxiliary_cell(first, count, spec_capped_local(indices.bottom_right));
    let third = spec_single_auxiliary_cell(second, count, spec_capped_local(indices.top_left));
    spec_single_auxiliary_cell(third, count, spec_capped_local(indices.top_right))
}

/// Local memory after the first `done` particles have made their move and
/// have been held to the limits.
pub open spec fn spec_finished(data: Seq<Particle>, done: int, settings: &WorldSettings) -> Seq<
    Particle,
>
    decreases done,
{
    if done <= 0 {
        data
    } else {
        spec_finished(data, done - 1, settings).update(
            done - 1,
            data[done - 1].spec_step(settings),
        )
    }
}

/// A packed position buffer after the first `done` particles of local memory
/// have been written to their slots.
pub open spec fn spec_written_positions(buffer: Seq<Vec2>, data: Seq<Particle>, done: int) -> Seq<
    Vec2,
>
    decreases done,
{
    if done <= 0 {
        buffer
    } else {
        spec_written_positions(buffer, data, done - 1).update(
            data[done - 1].index as int,
            data[done - 1].position,
        )
    }
}

/// A packed velocity buffer after the first `done` particles of local memory
/// have been written to their slots.
pub open spec fn spec_written_velocities(buffer: Seq<Vec2>, data: Seq<Particle>, done: int) -> Seq<
    Vec2,
>
    decreases done,
{
    if done <= 0 {
        buffer
    } else {
        spec_written_velocities(buffer, data, done - 1).update(
            data[done - 1].index as int,
            data[done - 1].velocity,
        )
    }
}

/// Finishing the first `done` particles leaves the others as they were, keeps
/// every index, and makes each finished particle what a tick makes of it.
pub proof fn lemma_finished_keeps_rest(
    data: Seq<Particle>,
    done: int,
    settings: &WorldSettings,
    slot: int,
)
    requires
        0 <= done <= data.len(),
        0 <= slot < data.len(),
    ensures
        spec_finished(data, done, settings).len() == data.len(),
        slot >= done ==> spec_finished(data, done, settings)[slot] == data[slot],
        slot < done ==> spec_finished(data, done, settings)[slot] == data[slot].spec_step(settings),
        spec_finished(data, done, settings)[slot].index == data[slot].index,
    decreases done,
{
    if done > 0 {
        lemma_finished_keeps_rest(data, done - 1, settings, slot);
    }
}

/// What is written from the first `done` particles does not depend on the
/// particles after them.
pub proof fn lemma_written_ignores_rest(
    buffer: Seq<Vec2>,
    first: Seq<Particle>,
    second: Seq<Particle>,
    done: int,
)
    requires
        0 <= done <= first.len(),
        first.len() == second.len(),
        forall|i: int| 0 <= i < done ==> first[i] == second[i],
    ensures
        spec_written_positions(buffer, first, done) == spec_written_positions(buffer, second, done),
    decreases done,
{
    if done > 0 {
        lemma_written_ignores_rest(buffer, first, second, done - 1);
    }
}

/// What is written from the first `done` particles does not depend on the
/// particles after them.
pub proof fn lemma_written_ignores_rest_velocities(
    buffer: Seq<Vec2>,
    first: Seq<Particle>,
    second: Seq<Particle>,
    done: int,
)
    requires
        0 <= done <= first.len(),
        first.len() == second.len(),
        forall|i: int| 0 <= i < done ==> first[i] == second[i],
    ensures
        spec_written_velocities(buffer, first, done) == spec_written_velocities(
            buffer,
            second,
            done,
        ),
    decreases done,
{
    if done > 0 {
        lemma_written_ignores_rest_velocities(buffer, first, second, done - 1);
    }
}

/// Looking at a pair moves particles but keeps their indices and velocities.
pub proof fn lemma_push_pair_keeps_indices(data: Seq<Particle>, left: int, right: int, slot: int)
    requires
        0 <= left < data.len(),
        0 <= right < data.len(),
        0 <= slot < data.len(),
    ensures
        spec_push_pair(data, left, right).len() == data.len(),
        spec_push_pair(data, left, right)[slot].index == data[slot].index,
        spec_push_pair(data, left, right)[slot].velocity == data[slot].velocity,
        spec_push_from(data, left, right).len() == data.len(),
        spec_push_from(data, left, right)[slot].index == data[slot].index,
        spec_push_from(data, left, right)[slot].velocity == data[slot].velocity,
{
}

/// Going through pairs keeps the indices and velocities of all particles.
pub proof fn lemma_pairs_of_keeps_indices(data: Seq<Particle>, left: int, end: int, slot: int)
    requires
        0 <= left < data.len(),
        end <= data.len(),
        0 <= slot < data.len(),
    ensures
        spec_pairs_of(data, left, end).len() == data.len(),
        spec_pairs_of(data, left, end)[slot].index == data[slot].index,
        spec_pairs_of(data, left, end)[slot].velocity == data[slot].velocity,
    decreases end - left,
{
    if end > left + 1 {
        lemma_pairs_of_keeps_indices(data, left, end - 1, slot);
        lemma_pairs_of_keeps_indices(data, left, end - 1, left);
        lemma_pairs_of_keeps_indices(data, left, end - 1, end - 1);
        lemma_push_pair_keeps_indices(spec_pairs_of(data, left, end - 1), left, end - 1, slot);
    }
}

/// Going through the pairs of a cell keeps the indices and velocities of all
/// particles.
pub proof fn lemma_pairs_in_cell_keeps_indices(
    data: Seq<Particle>,
    left_end: int,
    count: int,
    slot: int,
)
    requires
        0 <= left_end <= count <= data.len(),
        0 <= slot < data.len(),
    ensures
        spec_pairs_in_cell(data, left_end, count).len() == data.len(),
        spec_pairs_in_cell(data, left_end, count)[slot].index == data[slot].index,
        spec_pairs_in_cell(data, left_end, count)[slot].velocity == data[slot].velocity,
    decreases left_end,
{
    if left_end > 0 {
        lemma_pairs_in_cell_keeps_indices(data, left_end - 1, count, slot);
        lemma_pairs_in_cell_keeps_indices(data, left_end - 1, count, 0);
        lemma_pairs_of_keeps_indices(
            spec_pairs_in_cell(data, left_end - 1, count),
            left_end - 1,
            count,
            slot,
        );
    }
}

/// Pushing a particle away from a range of others keeps the indices and
/// velocities of all particles.
pub proof fn lemma_pushes_from_keeps_indices(
    data: Seq<Particle>,
    left: int,
    from: int,
    end: int,
    slot: int,
)
    requires
        0 <= left < data.len(),
        0 <= from,
        end <= data.len(),
        0 <= slot < data.len(),
    ensures
        spec_pushes_from(data, left, from, end).len() == data.len(),
        spec_pushes_from(data, left, from, end)[slot].index == data[slot].index,
        spec_pushes_from(data, left, from, end)[slot].velocity == data[slot].velocity,
    decreases end - from,
{
    if end > from {
        lemma_pushes_from_keeps_indices(data, left, from, end - 1, slot);
        lemma_pushes_from_keeps_indices(data, left, from, end - 1, left);
        lemma_push_pair_keeps_indices(
            spec_pushes_from(data, left, from, end - 1),
            left,
            end - 1,
            slot,
        );
    }
}

/// Going through a corner cell keeps the indices and velocities of all
/// particles.
pub proof fn lemma_auxiliary_cell_keeps_indices(
    data: Seq<Particle>,
    left_end: int,
    from: int,
    end: int,
    slot: int,
)
    requires
        0 <= left_end <= data.len(),
        0 <= from,
        end <= data.len(),
        0 <= slot < data.len(),
    ensures
        spec_auxiliary_cell(data, left_end, from, end).len() == data.len(),
        spec_auxiliary_cell(data, left_end, from, end)[slot].index == data[slot].index,
        spec_auxiliary_cell(data, left_end, from, end)[slot].velocity == data[slot].velocity,
    decreases left_end,
{
    if left_end > 0 {
        lemma_auxiliary_cell_keeps_indices(data, left_end - 1, from, end, slot);
        lemma_auxiliary_cell_keeps_indices(data, left_end - 1, from, end, 0);
        lemma_pushes_from_keeps_indices(
            spec_auxiliary_cell(data, left_end - 1, from, end),
            left_end - 1,
            from,
            end,
            slot,
        );
    }
}

/// All the pushing of a cell keeps the indices and velocities of all
/// particles of local memory.
pub proof fn lemma_pushing_keeps_indices(data: Seq<Particle>, count: int, indices: Indices)
    requires
        data.len() == LOCAL_PARTICLES,
        0 <= count <= LOCAL_PARTICLES,
        spec_capped_local(indices.bottom_left).end_by <= LOCAL_PARTICLES,
        spec_capped_local(indices.bottom_right).end_by <= LOCAL_PARTICLES,
        spec_capped_local(indices.top_left).end_by <= LOCAL_PARTICLES,
        spec_capped_local(indices.top_right).end_by <= LOCAL_PARTICLES,
    ensures
        spec_auxiliares(spec_pairs_in_cell(data, count, count), count, indices).len()
            == data.len(),
        forall|slot: int|
            0 <= slot < data.len() ==> (#[trigger] spec_auxiliares(
                spec_pairs_in_cell(data, count, count),
                count,
                indices,
            )[slot]).index == data[slot].index,
        forall|slot: int|
            0 <= slot < data.len() ==> (#[trigger] spec_auxiliares(
                spec_pairs_in_cell(data, count, count),
                count,
                indices,
            )[slot]).velocity == data[slot].velocity,
{
    let paired = spec_pairs_in_cell(data, count, count);
    let bl = spec_capped_local(indices.bottom_left);
    let br = spec_capped_local(indices.bottom_right);
    let tl = spec_capped_local(indices.top_left);
    let tr = spec_capped_local(indices.top_right);
    let first = spec_single_auxiliary_cell(paired, count, bl);
    let second = spec_single_auxiliary_cell(first, count, br);
    let third = spec_single_auxiliary_cell(second, count, tl);
    let fourth = spec_single_auxiliary_cell(third, count, tr);
    lemma_pairs_in_cell_keeps_indices(data, count, count, 0);
    lemma_auxiliary_cell_keeps_indices(paired, count, bl.from as int, bl.end_by as int, 0);
    lemma_auxiliary_cell_keeps_indices(first, count, br.from as int, br.end_by as int, 0);
    lemma_auxiliary_cell_keeps_indices(second, count, tl.from as int, tl.end_by as int, 0);
    lemma_auxiliary_cell_keeps_indices(third, count, tr.from as int, tr.end_by as int, 0);
    assert forall|slot: int| 0 <= slot < data.len() implies (#[trigger] spec_auxiliares(
        paired,
        count,
        indices,
    )[slot]).index == data[slot].index && spec_auxiliares(paired, count, indices)[slot].velocity
        == data[slot].velocity by {
        lemma_pairs_in_cell_keeps_indices(data, count, count, slot);
        lemma_auxiliary_cell_keeps_indices(paired, count, bl.from as int, bl.end_by as int, slot);
        lemma_auxiliary_cell_keeps_indices(first, count, br.from as int, br.end_by as int, slot);
        lemma_auxiliary_cell_keeps_indices(second, count, tl.from as int, tl.end_by as int, slot);
        lemma_auxiliary_cell_keeps_indices(third, count, tr.from as int, tr.end_by as int, slot);
    }
}

/// When the first `count` particles of local memory have the indices `from`,
/// `from + 1`, ..., the buffers written from them hold each finished particle
/// in its own slot and are unchanged elsewhere.
pub proof fn lemma_written_pointwise(
    positions: Seq<Vec2>,
    velocities: Seq<Vec2>,
    before: Seq<Particle>,
    after: Seq<Particle>,
    count: int,
    from: int,
    settings: &WorldSettings,
)
    requires
        0 <= count <= before.len(),
        after == spec_finished(before, count, settings),
        forall|i: int| 0 <= i < count ==> (#[trigger] before[i]).index == from + i,
        from + count <= positions.len(),
        from + count <= velocities.len(),
        0 <= from,
    ensures
        spec_written_positions(positions, after, count).len() == positions.len(),
        spec_written_velocities(velocities, after, count).len() == velocities.len(),
        forall|slot: int|
            0 <= slot < positions.len() ==> #[trigger] spec_written_positions(
                positions,
                after,
                count,
            )[slot] == (if from <= slot < from + count {
                before[slot - from].spec_step(settings).position
            } else {
                positions[slot]
            }),
        forall|slot: int|
            0 <= slot < velocities.len() ==> #[trigger] spec_written_velocities(
                velocities,
                after,
                count,
            )[slot] == (if from <= slot < from + count {
                before[slot - from].spec_step(settings).velocity
            } else {
                velocities[slot]
            }),
{
    lemma_written_prefix(positions, velocities, before, after, count, count, from, settings);
}

/// The induction behind [`lemma_written_pointwise`]: what holds after the
/// first `done` of the `count` particles have been written.
pub proof fn lemma_written_prefix(
    positions: Seq<Vec2>,
    velocities: Seq<Vec2>,
    before: Seq<Particle>,
    after: Seq<Particle>,
    count: int,
    done: int,
    from: int,
    settings: &WorldSettings,
)
    requires
        0 <= done <= count <= before.len(),
        after == spec_finished(before, count, settings),
        forall|i: int| 0 <= i < count ==> (#[trigger] before[i]).index == from + i,
        from + count <= positions.len(),
        from + count <= velocities.len(),
        0 <= from,
    ensures
        spec_written_positions(positions, after, done).len() == positions.len(),
        spec_written_velocities(velocities, after, done).len() == velocities.len(),
        forall|slot: int|
            0 <= slot < positions.len() ==> #[trigger] spec_written_positions(
                positions,
                after,
                done,
            )[slot] == (if from <= slot < from + done {
                before[slot - from].spec_step(settings).position
            } else {
                positions[slot]
            }),
        forall|slot: int|
            0 <= slot < velocities.len() ==> #[trigger] spec_written_velocities(
                velocities,
                after,
                done,
            )[slot] == (if from <= slot < from + done {
                before[slot - from].spec_step(settings).velocity
            } else {
                velocities[slot]
            }),
    decreases done,
{
    if done > 0 {
        lemma_written_prefix(positions, velocities, before, after, count, done - 1, from, settings);
        lemma_finished_keeps_rest(before, count, settings, done - 1);
        assert(before[done - 1].index == from + (done - 1));
    }
}

/// How much closer than the minimum distance two particles can be after
/// they were pushed apart, as a raw scalar: what the rounding of the square
/// root and of the two quotients can take away.
pub const PUSH_TOLERANCE_RAW: i64 = 7;

/// Neither coordinate of `position` is so large that a push could take it to
/// the end of the range of scalars.
pub open spec fn spec_pushable(position: Vec2) -> bool {
    &&& -0x2000_0000_0000_0000 <= position.x.raw <= 0x2000_0000_0000_0000
    &&& -0x2000_0000_0000_0000 <= position.y.raw <= 0x2000_0000_0000_0000
}

/// What a push does to the gap between two particles along one axis: the
/// new gap, times the distance, is the old gap times the minimum distance,
/// less what the rounding of the quotient takes away.
pub proof fn lemma_axis_push(delta: int, distance: int)
    requires
        distance >= 1,
    ensures
        delta * MIN_DISTANCE_RAW - 2 * distance < distance * (delta + 2 * spec_axis_push(
            delta,
            distance,
        )) <= delta * MIN_DISTANCE_RAW,
{
    let numerator = delta * (MIN_DISTANCE_RAW - distance);
    let push = spec_axis_push(delta, distance);
    vstd::arithmetic::div_mod::lemma_fundamental_div_mod(numerator, 2 * distance);
    vstd::arithmetic::div_mod::lemma_mod_bound(numerator, 2 * distance);
    let rest = numerator % (2 * distance);
    assert(distance * (delta + 2 * push) == delta * 16777216 - rest) by (nonlinear_arith)
        requires
            numerator == delta * (16777216 - distance),
            numerator == (2 * distance) * push + rest,
    ;
}

/// The square of a gap after a push is no less than the square of what the
/// rounding leaves of it.
pub proof fn lemma_axis_square(delta: int, distance: int, gap: int, size: int)
    requires
        distance >= 1,
        delta * MIN_DISTANCE_RAW - 2 * distance < distance * gap <= delta * MIN_DISTANCE_RAW,
        size == (if delta < 0 {
            -delta
        } else {
            delta
        }),
        size * MIN_DISTANCE_RAW >= 2 * distance,
    ensures
        (distance * gap) * (distance * gap) >= (size * MIN_DISTANCE_RAW - 2 * distance) * (size
            * MIN_DISTANCE_RAW - 2 * distance),
{
    let scaled = distance * gap;
    let least = size * MIN_DISTANCE_RAW - 2 * distance;
    if delta >= 0 {
        assert(scaled * scaled >= least * least) by (nonlinear_arith)
            requires
                scaled >= least,
                least >= 0,
        ;
    } else {
        assert(-scaled >= least) by (nonlinear_arith)
            requires
                scaled <= delta * 16777216,
                least == (-delta) * 16777216 - 2 * distance,
                distance >= 1,
        ;
        assert(scaled * scaled >= least * least) by (nonlinear_arith)
            requires
                -scaled >= least,
                least >= 0,
        ;
    }
}

/// Two particles that are close, but not on the same spot, are no closer
/// than the minimum distance less [`PUSH_TOLERANCE_RAW`] once they have been
/// pushed apart.
pub proof fn lemma_pushed_pair_is_apart(a: Vec2, b: Vec2)
    requires
        spec_close(a, b),
        a != b,
        spec_pushable(a),
        spec_pushable(b),
    ensures
        spec_distance_squared(
            a.spec_saturating_sub(spec_push_vector(a, b)),
            b.spec_saturating_add(spec_push_vector(a, b)),
        ) >= (MIN_DISTANCE_RAW - PUSH_TOLERANCE_RAW) * (MIN_DISTANCE_RAW - PUSH_TOLERANCE_RAW),
        a.spec_saturating_sub(spec_push_vector(a, b)).x.raw == a.x.raw - spec_push_vector(
            a,
            b,
        ).x.raw,
        a.spec_saturating_sub(spec_push_vector(a, b)).y.raw == a.y.raw - spec_push_vector(
            a,
            b,
        ).y.raw,
        b.spec_saturating_add(spec_push_vector(a, b)).x.raw == b.x.raw + spec_push_vector(
            a,
            b,
        ).x.raw,
        b.spec_saturating_add(spec_push_vector(a, b)).y.raw == b.y.raw + spec_push_vector(
            a,
            b,
        ).y.raw,
        -0x1000_0000_0000_0000 <= spec_push_vector(a, b).x.raw <= 0x1000_0000_0000_0000,
        -0x1000_0000_0000_0000 <= spec_push_vector(a, b).y.raw <= 0x1000_0000_0000_0000,
{
    let dx = b.x.raw - a.x.raw;
    let dy = b.y.raw - a.y.raw;
    let squared = spec_distance_squared(a, b);
    lemma_close_along_axes(a, b);
    assert(squared == dx * dx + dy * dy);
    assert(dx * dx >= 0 && dy * dy >= 0) by (nonlinear_arith);
    assert(squared >= 1) by (nonlinear_arith)
        requires
            squared == dx * dx + dy * dy,
            dx != 0 || dy != 0,
    ;
    lemma_root_exists(squared);
    let d = spec_root(squared);
    assert(d >= 1) by {
        if d == 0 {
            assert((d + 1) * (d + 1) == 1) by (nonlinear_arith)
                requires
                    d == 0,
            ;
        }
    }
    assert(d <= 16777216) by {
        if d > 16777216 {
            assert(d * d > 16777216 * 16777216) by (nonlinear_arith)
                requires
                    d > 16777216,
            ;
        }
    }
    assert(spec_pair_distance(a, b) == d);
    let v = spec_push_vector(a, b);
    let vx = spec_axis_push(dx, d);
    let vy = spec_axis_push(dy, d);
    lemma_axis_push(dx, d);
    lemma_axis_push(dy, d);
    let gx = dx + 2 * vx;
    let gy = dy + 2 * vy;
    // The pushes are small, so nothing saturates.
    assert(-2 * 16777216 * 16777216 <= gx <= 2 * 16777216 * 16777216) by (nonlinear_arith)
        requires
            dx * 16777216 - 2 * d < d * gx <= dx * 16777216,
            -16777216 <= dx <= 16777216,
            1 <= d <= 16777216,
    ;
    assert(-2 * 16777216 * 16777216 <= gy <= 2 * 16777216 * 16777216) by (nonlinear_arith)
        requires
            dy * 16777216 - 2 * d < d * gy <= dy * 16777216,
            -16777216 <= dy <= 16777216,
            1 <= d <= 16777216,
    ;
    assert(v.x.raw == vx && v.y.raw == vy);
    let pushed_a = a.spec_saturating_sub(v);
    let pushed_b = b.spec_saturating_add(v);
    assert(pushed_b.x.raw - pushed_a.x.raw == gx);
    assert(pushed_b.y.raw - pushed_a.y.raw == gy);
    let after = spec_distance_squared(pushed_a, pushed_b);
    assert(after == gx * gx + gy * gy);

    let sx = if dx < 0 {
        -dx
    } else {
        dx
    };
    let sy = if dy < 0 {
        -dy
    } else {
        dy
    };
    assert(sx * sx == dx * dx && sy * sy == dy * dy) by (nonlinear_arith)
        requires
            sx == dx || sx == -dx,
            sy == dy || sy == -dy,
    ;
    lemma_apart(sx, sy, d, gx, gy, squared);
    if sx * 16777216 >= 2 * d {
        lemma_axis_square(dx, d, gx, sx);
    }
    if sy * 16777216 >= 2 * d {
        lemma_axis_square(dy, d, gy, sy);
    }
    lemma_apart_from_squares(sx, sy, d, gx, gy, squared);
}

/// The sizes of the gaps along the two axes are together no more than three
/// times the distance.
pub proof fn lemma_apart(sx: int, sy: int, d: int, gx: int, gy: int, squared: int)
    requires
        0 <= sx <= 16777216,
        0 <= sy <= 16777216,
        1 <= d <= 16777216,
        squared == sx * sx + sy * sy,
        d * d <= squared < (d + 1) * (d + 1),
    ensures
        sx + sy <= 3 * d,
{
    assert((sx + sy) * (sx + sy) <= 2 * squared) by (nonlinear_arith)
        requires
            squared == sx * sx + sy * sy,
    ;
    assert(2 * squared < 9 * d * d) by (nonlinear_arith)
        requires
            squared < (d + 1) * (d + 1),
            d >= 1,
    ;
    if sx + sy > 3 * d {
        assert((sx + sy) * (sx + sy) > 9 * d * d) by (nonlinear_arith)
            requires
                sx + sy > 3 * d,
                d >= 1,
        ;
    }
}

/// From the squares of the gaps along the axes to the distance after a push.
pub proof fn lemma_apart_from_squares(sx: int, sy: int, d: int, gx: int, gy: int, squared: int)
    requires
        0 <= sx <= 16777216,
        0 <= sy <= 16777216,
        1 <= d <= 16777216,
        squared == sx * sx + sy * sy,
        d * d <= squared < (d + 1) * (d + 1),
        sx + sy <= 3 * d,
        sx * 16777216 >= 2 * d ==> (d * gx) * (d * gx) >= (sx * 16777216 - 2 * d) * (sx * 16777216
            - 2 * d),
        sy * 16777216 >= 2 * d ==> (d * gy) * (d * gy) >= (sy * 16777216 - 2 * d) * (sy * 16777216
            - 2 * d),
    ensures
        gx * gx + gy * gy >= (16777216 - 7) * (16777216 - 7),
{
    let m: int = 16777216;
    let area = d * d;
    let along_x = gx * gx;
    let along_y = gy * gy;
    let least = (m - 7) * (m - 7);
    assert((d * gx) * (d * gx) == area * along_x) by (nonlinear_arith)
        requires
            area == d * d,
            along_x == gx * gx,
    ;
    assert((d * gy) * (d * gy) == area * along_y) by (nonlinear_arith)
        requires
            area == d * d,
            along_y == gy * gy,
    ;
    assert(along_x >= 0 && along_y >= 0 && area >= 1) by (nonlinear_arith)
        requires
            area == d * d,
            along_x == gx * gx,
            along_y == gy * gy,
            d >= 1,
    ;
    assert(area * (along_x + along_y) == area * along_x + area * along_y) by (nonlinear_arith);
    assert(area * along_x >= 0 && area * along_y >= 0) by (nonlinear_arith)
        requires
            along_x >= 0,
            along_y >= 0,
            area >= 1,
    ;
    if sx * m >= 2 * d && sy * m >= 2 * d {
        let x = sx * m - 2 * d;
        let y = sy * m - 2 * d;
        assert(x * x == m * m * (sx * sx) - 4 * m * (d * sx) + 4 * area) by (nonlinear_arith)
            requires
                x == sx * m - 2 * d,
                area == d * d,
        ;
        assert(y * y == m * m * (sy * sy) - 4 * m * (d * sy) + 4 * area) by (nonlinear_arith)
            requires
                y == sy * m - 2 * d,
                area == d * d,
        ;
        assert(d * sx + d * sy <= 3 * area) by (nonlinear_arith)
            requires
                sx + sy <= 3 * d,
                d >= 1,
                area == d * d,
        ;
        assert(m * m * (sx * sx) + m * m * (sy * sy) >= m * m * area) by (nonlinear_arith)
            requires
                sx * sx + sy * sy >= area,
                m == 16777216,
        ;
        assert(m * m * area - 12 * m * area + 8 * area >= area * least) by (nonlinear_arith)
            requires
                area >= 1,
                m == 16777216,
                least == (m - 7) * (m - 7),
        ;
        assert(x * x + y * y >= area * least);
        lemma_cancel(d, along_x + along_y, least);
    } else if sx * m < 2 * d {
        // The gap along x is next to nothing: all of the distance is along y.
        assert(sx <= 1);
        lemma_apart_along_one_axis(sx, sy, d, squared);
        let y = sy * m - 2 * d;
        assert(y * y >= area * least) by (nonlinear_arith)
            requires
                y >= d * (m - 4),
                d >= 1,
                m == 16777216,
                area == d * d,
                least == (m - 7) * (m - 7),
        ;
        lemma_cancel(d, along_x + along_y, least);
    } else {
        assert(sy <= 1);
        lemma_apart_along_one_axis(sy, sx, d, squared);
        let x = sx * m - 2 * d;
        assert(x * x >= area * least) by (nonlinear_arith)
            requires
                x >= d * (m - 4),
                d >= 1,
                m == 16777216,
                area == d * d,
                least == (m - 7) * (m - 7),
        ;
        lemma_cancel(d, along_x + along_y, least);
    }
}

/// When the gap along one axis is next to nothing, the gap along the other
/// is all but the distance.
pub proof fn lemma_apart_along_one_axis(small: int, large: int, d: int, squared: int)
    requires
        0 <= small <= 1,
        0 <= large <= 16777216,
        1 <= d <= 16777216,
        squared == small * small + large * large,
        d * d <= squared < (d + 1) * (d + 1),
        small * 16777216 < 2 * d,
    ensures
        large * 16777216 >= 2 * d,
        large * 16777216 - 2 * d >= d * (16777216 - 4),
{
    if small == 0 {
        assert(large >= d) by (nonlinear_arith)
            requires
                large * large >= d * d,
                large >= 0,
                d >= 1,
        ;
        assert(large * 16777216 - 2 * d >= d * (16777216 - 4)) by (nonlinear_arith)
            requires
                large >= d,
                d >= 1,
        ;
    } else {
        assert(small * small == 1) by (nonlinear_arith)
            requires
                small == 1,
        ;
        assert(large >= d - 1) by (nonlinear_arith)
            requires
                large * large >= d * d - 1,
                large >= 0,
                d >= 1,
        ;
        assert(large * 16777216 - 2 * d >= d * (16777216 - 4)) by (nonlinear_arith)
            requires
                large >= d - 1,
                2 * d > 16777216,
                d <= 16777216,
        ;
    }
}

/// A factor that is a positive square can be taken off both sides of an
/// inequality.
pub proof fn lemma_cancel(d: int, left: int, right: int)
    requires
        d >= 1,
        (d * d) * left >= (d * d) * right,
    ensures
        left >= right,
{
    let area = d * d;
    assert(area >= 1) by (nonlinear_arith)
        requires
            area == d * d,
            d >= 1,
    ;
    assert(left >= right) by (nonlinear_arith)
        requires
            area >= 1,
            area * left >= area * right,
    ;
}

/// Two particles of a cell that are close, but not on the same spot, and
/// that have the same velocity within the speed limit, are no closer than the
/// minimum distance less [`PUSH_TOLERANCE_RAW`] after the tick, if neither
/// meets a wall: they are pushed apart, and then both make the same move.
pub proof fn lemma_pushed_pair_stays_apart(a: Particle, b: Particle, world_config: &WorldSettings)
    requires
        spec_close(a.position, b.position),
        a.position != b.position,
        spec_pushable(a.position),
        spec_pushable(b.position),
        a.velocity == b.velocity,
        a.within_speed_limit(),
        in_viewport(world_config, spec_push_pair(seq![a, b], 0, 1)[0].spec_integrate().position),
        in_viewport(world_config, spec_push_pair(seq![a, b], 0, 1)[1].spec_integrate().position),
    ensures
        spec_distance_squared(
            spec_push_pair(seq![a, b], 0, 1)[0].spec_step(world_config).position,
            spec_push_pair(seq![a, b], 0, 1)[1].spec_step(world_config).position,
        ) >= (MIN_DISTANCE_RAW - PUSH_TOLERANCE_RAW) * (MIN_DISTANCE_RAW - PUSH_TOLERANCE_RAW),
{
    let pushed = spec_push_pair(seq![a, b], 0, 1);
    let v = spec_push_vector(a.position, b.position);
    lemma_pushed_pair_is_apart(a.position, b.position);
    assert(pushed[0].position == a.position.spec_saturating_sub(v));
    assert(pushed[1].position == b.position.spec_saturating_add(v));
    assert(pushed[0].velocity == a.velocity && pushed[1].velocity == a.velocity);
    lemma_free_flight_keeps_velocity(pushed[0], world_config);
    lemma_free_flight_keeps_velocity(pushed[1], world_config);
    let left = pushed[0].spec_step(world_config).position;
    let right = pushed[1].spec_step(world_config).position;
    assert(left.x.raw == pushed[0].position.x.raw + a.velocity.x.raw);
    assert(left.y.raw == pushed[0].position.y.raw + a.velocity.y.raw);
    assert(right.x.raw == pushed[1].position.x.raw + a.velocity.x.raw);
    assert(right.y.raw == pushed[1].position.y.raw + a.velocity.y.raw);
    assert(right.x.raw - left.x.raw == pushed[1].position.x.raw - pushed[0].position.x.raw);
    assert(right.y.raw - left.y.raw == pushed[1].position.y.raw - pushed[0].position.y.raw);
}

} // verus!
