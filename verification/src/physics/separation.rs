//! Why two particles that have a cell to themselves are apart after the
//! pushing: the pair is pushed apart, and the particles of the corner cells
//! that lie between the two push each of them further from the other.

use crate::config_shader::in_viewport;
use crate::math::Vec2;
use crate::physics::cell::CellView;
use crate::physics::indices::Indices;
use crate::physics::particle::{lemma_free_flight_keeps_velocity, Particle};
use crate::physics::particles::{
    lemma_close_along_axes, lemma_pushed_pair_is_apart, lemma_pushing_keeps_indices,
    lemma_root_exists, spec_auxiliares, spec_loaded,
    spec_auxiliary_cell, spec_axis_push, spec_capped_local, spec_close, spec_distance_squared,
    spec_pair_distance, spec_pairs_in_cell, spec_pairs_of, spec_push_from, spec_push_pair,
    spec_push_vector, spec_pushable, spec_pushes_from, spec_root, spec_single_auxiliary_cell,
    MIN_DISTANCE_RAW, PUSH_TOLERANCE_RAW,
};
use crate::scalar::lemma_floor_div_bounds;
use vstd::prelude::*;

verus! {

/// Along one axis, `now_p` and `now_q` are no nearer to each other than `p`
/// and `q` were, each on its own side.
pub open spec fn spec_outward(p: int, q: int, now_p: int, now_q: int) -> bool {
    &&& p <= q ==> now_p <= p && q <= now_q
    &&& p >= q ==> now_p >= p && q >= now_q
}

/// Along one axis, `x` lies between `p` and `q`, ends included.
pub open spec fn spec_amid(p: int, q: int, x: int) -> bool {
    &&& p <= q ==> p <= x <= q
    &&& p >= q ==> q <= x <= p
}

/// The first two particles of `data` are, along each axis, no nearer to each
/// other than `p` and `q`.
pub open spec fn spec_held_apart(data: Seq<Particle>, p: Vec2, q: Vec2) -> bool {
    &&& data.len() >= 2
    &&& spec_outward(
        p.x.raw as int,
        q.x.raw as int,
        data[0].position.x.raw as int,
        data[1].position.x.raw as int,
    )
    &&& spec_outward(
        p.y.raw as int,
        q.y.raw as int,
        data[0].position.y.raw as int,
        data[1].position.y.raw as int,
    )
}

/// `position` lies, along each axis, between `p` and `q`.
pub open spec fn spec_between(p: Vec2, q: Vec2, position: Vec2) -> bool {
    &&& spec_amid(p.x.raw as int, q.x.raw as int, position.x.raw as int)
    &&& spec_amid(p.y.raw as int, q.y.raw as int, position.y.raw as int)
}

/// The slots `from`, ..., `end - 1` of `data` come after the pair and hold
/// particles that lie between `p` and `q`.
pub open spec fn spec_flanked(data: Seq<Particle>, from: int, end: int, p: Vec2, q: Vec2) -> bool {
    &&& from < end ==> 2 <= from && end <= data.len()
    &&& forall|slot: int|
        from <= slot < end ==> spec_between(p, q, (#[trigger] data[slot]).position)
}

/// A push along an axis goes the way of the gap, and is no longer than the
/// gap times the minimum distance.
pub proof fn lemma_push_goes_with_the_gap(a: Vec2, b: Vec2)
    requires
        spec_close(a, b),
    ensures
        b.x.raw >= a.x.raw ==> spec_push_vector(a, b).x.raw >= 0,
        b.x.raw <= a.x.raw ==> spec_push_vector(a, b).x.raw <= 0,
        b.y.raw >= a.y.raw ==> spec_push_vector(a, b).y.raw >= 0,
        b.y.raw <= a.y.raw ==> spec_push_vector(a, b).y.raw <= 0,
{
    let dx = b.x.raw - a.x.raw;
    let dy = b.y.raw - a.y.raw;
    let squared = spec_distance_squared(a, b);
    lemma_close_along_axes(a, b);
    assert(dx * dx >= 0 && dy * dy >= 0) by (nonlinear_arith);
    lemma_root_exists(squared);
    let root = spec_root(squared);
    if root > MIN_DISTANCE_RAW {
        assert(root * root > MIN_DISTANCE_RAW * MIN_DISTANCE_RAW) by (nonlinear_arith)
            requires
                root > MIN_DISTANCE_RAW,
                MIN_DISTANCE_RAW > 0,
        ;
    }
    let d = spec_pair_distance(a, b) as int;
    assert(1 <= d <= MIN_DISTANCE_RAW);
    let missing = MIN_DISTANCE_RAW - d;
    assert(-MIN_DISTANCE_RAW * MIN_DISTANCE_RAW <= dx * missing <= MIN_DISTANCE_RAW
        * MIN_DISTANCE_RAW && (dx >= 0 ==> dx * missing >= 0) && (dx <= 0 ==> dx * missing <= 0))
        by (nonlinear_arith)
        requires
            -MIN_DISTANCE_RAW <= dx <= MIN_DISTANCE_RAW,
            0 <= missing <= MIN_DISTANCE_RAW,
    ;
    assert(-MIN_DISTANCE_RAW * MIN_DISTANCE_RAW <= dy * missing <= MIN_DISTANCE_RAW
        * MIN_DISTANCE_RAW && (dy >= 0 ==> dy * missing >= 0) && (dy <= 0 ==> dy * missing <= 0))
        by (nonlinear_arith)
        requires
            -MIN_DISTANCE_RAW <= dy <= MIN_DISTANCE_RAW,
            0 <= missing <= MIN_DISTANCE_RAW,
    ;
    lemma_floor_div_bounds(dx * missing, 2 * d);
    lemma_floor_div_bounds(dy * missing, 2 * d);
    assert(spec_axis_push(dx, d) == (dx * missing) / (2 * d));
    assert(spec_axis_push(dy, d) == (dy * missing) / (2 * d));
}

/// Particles that are, along each axis, no nearer than `p` and `q` are no
/// nearer than `p` and `q`.
pub proof fn lemma_outward_is_no_nearer(p: Vec2, q: Vec2, now_p: Vec2, now_q: Vec2)
    requires
        spec_outward(p.x.raw as int, q.x.raw as int, now_p.x.raw as int, now_q.x.raw as int),
        spec_outward(p.y.raw as int, q.y.raw as int, now_p.y.raw as int, now_q.y.raw as int),
    ensures
        spec_distance_squared(now_p, now_q) >= spec_distance_squared(p, q),
{
    let gx = q.x.raw - p.x.raw;
    let gy = q.y.raw - p.y.raw;
    let nx = now_q.x.raw - now_p.x.raw;
    let ny = now_q.y.raw - now_p.y.raw;
    assert(nx * nx >= gx * gx) by (nonlinear_arith)
        requires
            (gx >= 0 && nx >= gx) || (gx <= 0 && nx <= gx),
    ;
    assert(ny * ny >= gy * gy) by (nonlinear_arith)
        requires
            (gy >= 0 && ny >= gy) || (gy <= 0 && ny <= gy),
    ;
}

/// A push away from a particle that lies between `p` and `q` leaves the pair
/// no nearer to each other, and changes no other particle.
pub proof fn lemma_push_from_holds(data: Seq<Particle>, left: int, right: int, p: Vec2, q: Vec2)
    requires
        spec_held_apart(data, p, q),
        left == 0 || left == 1,
        2 <= right < data.len(),
        spec_between(p, q, data[right].position),
    ensures
        spec_held_apart(spec_push_from(data, left, right), p, q),
        spec_push_from(data, left, right).len() == data.len(),
        forall|slot: int|
            2 <= slot < data.len() ==> #[trigger] spec_push_from(data, left, right)[slot]
                == data[slot],
{
    if spec_close(data[left].position, data[right].position) {
        lemma_push_goes_with_the_gap(data[left].position, data[right].position);
    }
}

/// Pushes away from particles that lie between `p` and `q` leave the pair no
/// nearer to each other, and change no other particle.
pub proof fn lemma_pushes_from_hold(
    data: Seq<Particle>,
    left: int,
    from: int,
    end: int,
    p: Vec2,
    q: Vec2,
)
    requires
        spec_held_apart(data, p, q),
        left == 0 || left == 1,
        spec_flanked(data, from, end, p, q),
    ensures
        spec_held_apart(spec_pushes_from(data, left, from, end), p, q),
        spec_pushes_from(data, left, from, end).len() == data.len(),
        forall|slot: int|
            2 <= slot < data.len() ==> #[trigger] spec_pushes_from(data, left, from, end)[slot]
                == data[slot],
    decreases end - from,
{
    if end > from {
        lemma_pushes_from_hold(data, left, from, end - 1, p, q);
        let earlier = spec_pushes_from(data, left, from, end - 1);
        assert(2 <= end - 1 < data.len() && spec_between(p, q, data[end - 1].position));
        assert(earlier[end - 1] == data[end - 1]);
        lemma_push_from_holds(earlier, left, end - 1, p, q);
    }
}

/// Going through a corner cell whose particles lie between `p` and `q`
/// leaves the pair no nearer to each other, and changes no other particle.
pub proof fn lemma_auxiliary_cell_holds(
    data: Seq<Particle>,
    left_end: int,
    from: int,
    end: int,
    p: Vec2,
    q: Vec2,
)
    requires
        spec_held_apart(data, p, q),
        0 <= left_end <= 2,
        spec_flanked(data, from, end, p, q),
    ensures
        spec_held_apart(spec_auxiliary_cell(data, left_end, from, end), p, q),
        spec_auxiliary_cell(data, left_end, from, end).len() == data.len(),
        forall|slot: int|
            2 <= slot < data.len() ==> #[trigger] spec_auxiliary_cell(
                data,
                left_end,
                from,
                end,
            )[slot] == data[slot],
    decreases left_end,
{
    if left_end > 0 {
        lemma_auxiliary_cell_holds(data, left_end - 1, from, end, p, q);
        let earlier = spec_auxiliary_cell(data, left_end - 1, from, end);
        assert(spec_flanked(earlier, from, end, p, q)) by {
            assert forall|slot: int| from <= slot < end implies spec_between(
                p,
                q,
                (#[trigger] earlier[slot]).position,
            ) by {
                assert(spec_between(p, q, data[slot].position));
                assert(earlier[slot] == data[slot]);
            }
        }
        lemma_pushes_from_hold(earlier, left_end - 1, from, end, p, q);
    }
}

/// The four local ranges of the corner cells of `indices` hold particles
/// that lie between `p` and `q`.
pub open spec fn spec_corners_between(data: Seq<Particle>, indices: Indices, p: Vec2, q: Vec2) ->
    bool {
    &&& spec_flanked(
        data,
        spec_capped_local(indices.bottom_left).from as int,
        spec_capped_local(indices.bottom_left).end_by as int,
        p,
        q,
    )
    &&& spec_flanked(
        data,
        spec_capped_local(indices.bottom_right).from as int,
        spec_capped_local(indices.bottom_right).end_by as int,
        p,
        q,
    )
    &&& spec_flanked(
        data,
        spec_capped_local(indices.top_left).from as int,
        spec_capped_local(indices.top_left).end_by as int,
        p,
        q,
    )
    &&& spec_flanked(
        data,
        spec_capped_local(indices.top_right).from as int,
        spec_capped_local(indices.top_right).end_by as int,
        p,
        q,
    )
}

/// Two particles that have a cell to themselves, that are close but not on
/// the same spot, and between which all the particles of the corner cells
/// lie, are no closer than the minimum distance less [`PUSH_TOLERANCE_RAW`]
/// when all the pushing of the cell is done.
pub proof fn lemma_lone_pair_is_apart(data: Seq<Particle>, indices: Indices)
    requires
        data.len() >= 2,
        spec_close(data[0].position, data[1].position),
        data[0].position != data[1].position,
        spec_pushable(data[0].position),
        spec_pushable(data[1].position),
        spec_corners_between(data, indices, data[0].position, data[1].position),
    ensures
        spec_distance_squared(
            spec_auxiliares(spec_pairs_in_cell(data, 2, 2), 2, indices)[0].position,
            spec_auxiliares(spec_pairs_in_cell(data, 2, 2), 2, indices)[1].position,
        ) >= (MIN_DISTANCE_RAW - PUSH_TOLERANCE_RAW) * (MIN_DISTANCE_RAW - PUSH_TOLERANCE_RAW),
{
    let a = data[0].position;
    let b = data[1].position;
    let paired = spec_pairs_in_cell(data, 2, 2);
    assert(paired == spec_push_pair(data, 0, 1)) by {
        assert(spec_pairs_in_cell(data, 0, 2) == data);
        assert(spec_pairs_of(data, 0, 1) == data);
        assert(spec_pairs_of(data, 0, 2) == spec_push_pair(spec_pairs_of(data, 0, 1), 0, 1));
        assert(spec_pairs_in_cell(data, 1, 2) == spec_pairs_of(
            spec_pairs_in_cell(data, 0, 2),
            0,
            2,
        ));
        let once = spec_pairs_in_cell(data, 1, 2);
        assert(spec_pairs_of(once, 1, 2) == once);
        assert(spec_pairs_in_cell(data, 2, 2) == spec_pairs_of(once, 1, 2));
    }
    lemma_pushed_pair_is_apart(a, b);
    lemma_push_goes_with_the_gap(a, b);
    let p = paired[0].position;
    let q = paired[1].position;
    assert(p == a.spec_saturating_sub(spec_push_vector(a, b)));
    assert(q == b.spec_saturating_add(spec_push_vector(a, b)));
    assert(spec_held_apart(paired, p, q));
    assert forall|slot: int| 2 <= slot < data.len() implies #[trigger] paired[slot]
        == data[slot] by {}
    assert forall|position: Vec2| spec_between(a, b, position) implies spec_between(
        p,
        q,
        position,
    ) by {}
    let bl = spec_capped_local(indices.bottom_left);
    let br = spec_capped_local(indices.bottom_right);
    let tl = spec_capped_local(indices.top_left);
    let tr = spec_capped_local(indices.top_right);
    let first = spec_single_auxiliary_cell(paired, 2, bl);
    let second = spec_single_auxiliary_cell(first, 2, br);
    let third = spec_single_auxiliary_cell(second, 2, tl);
    let fourth = spec_single_auxiliary_cell(third, 2, tr);
    assert(spec_flanked(paired, bl.from as int, bl.end_by as int, p, q));
    lemma_auxiliary_cell_holds(paired, 2, bl.from as int, bl.end_by as int, p, q);
    assert(spec_flanked(first, br.from as int, br.end_by as int, p, q));
    lemma_auxiliary_cell_holds(first, 2, br.from as int, br.end_by as int, p, q);
    assert(spec_flanked(second, tl.from as int, tl.end_by as int, p, q));
    lemma_auxiliary_cell_holds(second, 2, tl.from as int, tl.end_by as int, p, q);
    assert(spec_flanked(third, tr.from as int, tr.end_by as int, p, q));
    lemma_auxiliary_cell_holds(third, 2, tr.from as int, tr.end_by as int, p, q);
    assert(fourth == spec_auxiliares(paired, 2, indices));
    lemma_outward_is_no_nearer(p, q, fourth[0].position, fourth[1].position);
}

/// Local memory of the workgroup of `cell` once its five cells are loaded.
pub open spec fn spec_cell_loaded(cell: &CellView) -> Seq<Particle> {
    spec_loaded(
        cell.indices(),
        cell.positions_in,
        cell.velocities_in,
        cell.positions_workgroup,
        cell.velocities_workgroup,
    )
}

/// The cell holds two particles, which are close but not on the same spot
/// and have the same velocity within the speed limit, and every particle of
/// its corner cells lies between the two.
pub open spec fn spec_lone_pair(cell: &CellView) -> bool {
    let range = cell.indices().centre.global;
    let loaded = spec_cell_loaded(cell);
    &&& cell.first_particle_index == 0
    &&& range.end_by == range.from + 2
    &&& spec_close(cell.positions_in[range.from as int], cell.positions_in[range.from + 1])
    &&& cell.positions_in[range.from as int] != cell.positions_in[range.from + 1]
    &&& spec_pushable(cell.positions_in[range.from as int])
    &&& spec_pushable(cell.positions_in[range.from + 1])
    &&& cell.velocities_in[range.from as int] == cell.velocities_in[range.from + 1]
    &&& loaded[0].within_speed_limit()
    &&& spec_corners_between(
        loaded,
        cell.indices(),
        cell.positions_in[range.from as int],
        cell.positions_in[range.from + 1],
    )
}

/// The walls of the viewport are not at the ends of the range of scalars,
/// and neither particle of the pair of `cell` meets one when it makes its
/// move.
pub open spec fn spec_clear_of_walls(cell: &CellView) -> bool {
    &&& i64::MIN < cell.settings.lower().x.raw
    &&& i64::MIN < cell.settings.lower().y.raw
    &&& cell.settings.upper().x.raw < i64::MAX
    &&& cell.settings.upper().y.raw < i64::MAX
    &&& in_viewport(&cell.settings, cell.pushed()[0].spec_integrate().position)
    &&& in_viewport(&cell.settings, cell.pushed()[1].spec_integrate().position)
}

/// Two particles that have a cell to themselves, as [`spec_lone_pair`] says,
/// and that meet no wall, are written by the physics of the cell no closer
/// to each other than the minimum distance less [`PUSH_TOLERANCE_RAW`].
pub proof fn lemma_lone_pair_is_apart_after_physics(cell: &CellView)
    requires
        cell.wf(),
        cell.in_grid(),
        spec_lone_pair(cell),
        spec_clear_of_walls(cell),
    ensures
        cell.output(cell.indices().centre.global.from as int).is_some(),
        cell.output(cell.indices().centre.global.from + 1).is_some(),
        spec_distance_squared(
            cell.output(cell.indices().centre.global.from as int).unwrap().position,
            cell.output(cell.indices().centre.global.from + 1).unwrap().position,
        ) >= (MIN_DISTANCE_RAW - PUSH_TOLERANCE_RAW) * (MIN_DISTANCE_RAW - PUSH_TOLERANCE_RAW),
{
    cell.lemma_cell_is_loadable();
    let indices = cell.indices();
    let range = indices.centre.global;
    let loaded = spec_cell_loaded(cell);
    assert(cell.centre_count() == 2);
    assert(loaded.len() == 20);
    assert(loaded[0].position == cell.positions_in[range.from as int]);
    assert(loaded[1].position == cell.positions_in[range.from + 1]);
    assert(loaded[0].velocity == cell.velocities_in[range.from as int]);
    assert(loaded[1].velocity == cell.velocities_in[range.from + 1]);
    lemma_lone_pair_is_apart(loaded, indices);
    lemma_pushing_keeps_indices(loaded, 2, indices);
    let pushed = cell.pushed();
    assert(pushed == spec_auxiliares(spec_pairs_in_cell(loaded, 2, 2), 2, indices));
    assert(pushed[0].velocity == loaded[0].velocity);
    assert(pushed[1].velocity == loaded[1].velocity);
    lemma_free_flight_keeps_velocity(pushed[0], &cell.settings);
    lemma_free_flight_keeps_velocity(pushed[1], &cell.settings);
    let left = pushed[0].spec_step(&cell.settings).position;
    let right = pushed[1].spec_step(&cell.settings).position;
    assert(cell.output(range.from as int) == Some(pushed[0].spec_step(&cell.settings)));
    assert(cell.output(range.from + 1) == Some(pushed[1].spec_step(&cell.settings)));
    assert(left.x.raw == pushed[0].position.x.raw + loaded[0].velocity.x.raw);
    assert(left.y.raw == pushed[0].position.y.raw + loaded[0].velocity.y.raw);
    assert(right.x.raw == pushed[1].position.x.raw + loaded[0].velocity.x.raw);
    assert(right.y.raw == pushed[1].position.y.raw + loaded[0].velocity.y.raw);
    assert(right.x.raw - left.x.raw == pushed[1].position.x.raw - pushed[0].position.x.raw);
    assert(right.y.raw - left.y.raw == pushed[1].position.y.raw - pushed[0].position.y.raw);
}

} // verus!
