use wrach::config_shader::ShaderWorldSettings;
use wrach::math::{UVec2, Vec2};
use wrach::physics::cell::Cell;
use wrach::physics::indices::{Indices, MAX_PARTICLES_IN_CELL};
use wrach::physics::particle::Particle;
use wrach::physics::particles::Particles;
use wrach::scalar::{floor_div_i64, isqrt, saturate_to_i32, Scalar};

fn fx(value: f64) -> Scalar {
    Scalar::from_single_bits((value as f32).to_bits())
}

fn vec2(x: f64, y: f64) -> Vec2 {
    Vec2::new(fx(x), fx(y))
}

fn settings() -> ShaderWorldSettings {
    ShaderWorldSettings {
        view_dimensions: vec2(10.0, 10.0),
        view_anchor: vec2(0.0, 0.0),
        grid_dimensions: UVec2::new(2, 2),
        cell_size: 5,
        particles_in_frame_count: 3,
    }
}

fn particle(position: Vec2, velocity: Vec2) -> Particle {
    Particle {
        index: 0,
        position,
        velocity,
    }
}

#[test]
fn scalars_are_fixed_point() {
    assert_eq!(Scalar::from_int(3), fx(3.0));
    assert_eq!(Scalar::from_int(-3).raw, -3 * 16_777_216);
    assert_eq!(Scalar::one().raw, 16_777_216);
    assert_eq!(Scalar::zero(), Scalar::default());
    assert_eq!(fx(2.5).floor(), 2);
    assert_eq!(fx(-2.5).floor(), -3);
    assert_eq!(fx(1.5).saturating_add(fx(2.25)), fx(3.75));
    assert_eq!(fx(1.5).saturating_sub(fx(2.25)), fx(-0.75));
    assert_eq!(
        Scalar::from_raw(i64::MAX).saturating_add(fx(1.0)).raw,
        i64::MAX
    );
    assert_eq!(
        Scalar::from_raw(i64::MIN).saturating_sub(fx(1.0)).raw,
        i64::MIN
    );
    assert_eq!(Scalar::from_raw(i64::MIN).saturating_neg().raw, i64::MAX);
    assert_eq!(fx(0.5).saturating_neg(), fx(-0.5));
    assert_eq!(fx(7.0).clamp(fx(-1.0), fx(1.0)), fx(1.0));
    assert_eq!(fx(-7.0).clamp(fx(-1.0), fx(1.0)), fx(-1.0));
    assert_eq!(fx(0.25).clamp(fx(-1.0), fx(1.0)), fx(0.25));
}

#[test]
fn cells_are_floored_quotients() {
    assert_eq!(fx(0.0).cell_index(3), 0);
    assert_eq!(fx(2.999).cell_index(3), 0);
    assert_eq!(fx(3.0).cell_index(3), 1);
    assert_eq!(fx(-0.001).cell_index(3), -1);
    assert_eq!(fx(-3.0).cell_index(3), -1);
    assert_eq!(fx(-3.001).cell_index(3), -2);
    assert_eq!(Scalar::from_raw(i64::MAX).cell_index(1), i32::MAX);
    assert_eq!(Scalar::from_raw(i64::MIN).cell_index(1), i32::MIN);
    assert_eq!(floor_div_i64(-7, 2), -4);
    assert_eq!(floor_div_i64(7, 2), 3);
    assert_eq!(saturate_to_i32(1 << 40), i32::MAX);
    assert_eq!(saturate_to_i32(-(1 << 40)), i32::MIN);
    assert_eq!(saturate_to_i32(-5), -5);
}

#[test]
fn integer_square_roots() {
    assert_eq!(isqrt(0), 0);
    assert_eq!(isqrt(1), 1);
    assert_eq!(isqrt(3), 1);
    assert_eq!(isqrt(4), 2);
    assert_eq!(isqrt(65536 * 65536), 65536);
    assert_eq!(isqrt(65536 * 65536 - 1), 65535);
    assert_eq!(isqrt(u64::MAX), 0xffff_ffff);
}

#[test]
fn a_particle_moves_by_its_velocity() {
    let mut particle = particle(vec2(4.0, 5.0), vec2(0.5, -0.25));
    particle.integrate();
    assert_eq!(particle.position, vec2(4.5, 4.75));
    assert_eq!(particle.velocity, vec2(0.5, -0.25));
}

#[test]
fn a_particle_is_held_to_the_walls() {
    let settings = settings();
    let mut beyond = particle(vec2(11.0, -2.0), vec2(1.0, -0.5));
    beyond.enforce_boundaries(&settings);
    assert_eq!(beyond.position, vec2(10.0, 0.0));
    assert_eq!(beyond.velocity, vec2(-1.0, 0.5));

    let mut on_the_edge = particle(vec2(10.0, 0.0), vec2(1.0, -0.5));
    on_the_edge.enforce_boundaries(&settings);
    assert_eq!(on_the_edge.position, vec2(10.0, 0.0));
    assert_eq!(on_the_edge.velocity, vec2(1.0, -0.5));
}

#[test]
fn a_particle_is_held_to_the_speed_limit() {
    let mut fast = particle(vec2(1.0, 1.0), vec2(2.0, -3.0));
    fast.enforce_velocity();
    assert_eq!(fast.velocity, vec2(1.0, -1.0));
    let mut slow = particle(vec2(1.0, 1.0), vec2(1.0, -0.999));
    slow.enforce_velocity();
    assert_eq!(slow.velocity, vec2(1.0, -0.999));
    let mut both = particle(vec2(12.0, 5.0), vec2(4.0, 0.0));
    both.enforce_limits(&settings());
    assert_eq!(both.position, vec2(10.0, 5.0));
    assert_eq!(both.velocity, vec2(-1.0, 0.0));
}

#[test]
fn a_particle_is_read_and_written_at_its_index() {
    let positions = [vec2(1.0, 1.0), vec2(2.0, 2.0)];
    let velocities = [vec2(0.1, 0.1), vec2(0.2, 0.2)];
    let particle = Particle::new(1, &positions, &velocities);
    assert_eq!(particle.index, 1);
    assert_eq!(particle.position, vec2(2.0, 2.0));
    assert_eq!(particle.velocity, vec2(0.2, 0.2));
    let mut positions_out = [Vec2::default(); 2];
    let mut velocities_out = [Vec2::default(); 2];
    particle.write(&mut positions_out, &mut velocities_out);
    assert_eq!(positions_out, [Vec2::default(), vec2(2.0, 2.0)]);
    assert_eq!(velocities_out, [Vec2::default(), vec2(0.2, 0.2)]);
}

#[test]
fn corner_cells_are_found_in_an_auxiliary_grid_one_cell_wider() {
    let indices_main = [0, 0, 1, 1, 1, 3];
    let indices_aux = [0, 0, 1, 2, 2, 3, 6, 7, 9, 11, 12];
    // Cell 3 is the top-right cell of a grid of 2 by 2; its bottom-left
    // corner is auxiliary cell 4.
    let indices = Indices::locate(&indices_main, &indices_aux, 4, 5, 3, 0);
    assert_eq!(indices.centre.global.from, 1);
    assert_eq!(indices.centre.global.end_by, 3);
    assert_eq!(indices.bottom_left.global.from, 3);
    assert_eq!(indices.bottom_left.global.end_by, 6);
    assert_eq!(indices.bottom_left.local.from, MAX_PARTICLES_IN_CELL);
    assert_eq!(indices.bottom_left.local.end_by, MAX_PARTICLES_IN_CELL + 3);
    assert_eq!(indices.bottom_right.global.from, 6);
    assert_eq!(indices.bottom_right.global.end_by, 7);
    assert_eq!(indices.bottom_right.local.from, 8);
    assert_eq!(indices.top_left.global.from, 9);
    assert_eq!(indices.top_left.global.end_by, 11);
    assert_eq!(indices.top_right.global.from, 11);
    assert_eq!(indices.top_right.global.end_by, 12);
    assert_eq!(indices.top_right.local.from, 16);
    assert_eq!(indices.top_right.local.end_by, 17);
}

fn close_pair() -> ([u32; 6], [u32; 11], [Vec2; 3], [Vec2; 3], [Vec2; 12], [Vec2; 12]) {
    // Two close particles in cell 0 and one particle in cell 3.
    let indices_main = [0, 0, 2, 2, 2, 3];
    let indices_aux = [0, 0, 2, 4, 4, 6, 9, 10, 10, 11, 12];
    let positions = [vec2(2.0, 2.0), vec2(2.0, 2.5), vec2(8.0, 8.0)];
    let velocities = [vec2(0.0, 0.0), vec2(0.0, 0.0), vec2(0.5, 0.5)];
    let far = vec2(100.0, 100.0);
    let positions_aux = [far; 12];
    let velocities_aux = [Vec2::default(); 12];
    (
        indices_main,
        indices_aux,
        positions,
        velocities,
        positions_aux,
        velocities_aux,
    )
}

#[test]
fn close_particles_of_a_cell_are_pushed_apart() {
    let (indices_main, indices_aux, positions, velocities, positions_aux, velocities_aux) =
        close_pair();
    let mut particles = Particles::new(
        &indices_main,
        &indices_aux,
        1,
        2,
        0,
        &positions,
        &velocities,
        &positions_aux,
        &velocities_aux,
    );
    assert_eq!(particles.centre_count, 2);
    assert_eq!(particles.data[0].position, vec2(2.0, 2.0));
    assert_eq!(particles.data[1].index, 1);
    particles.pairs_in_cell();
    assert_eq!(particles.data[0].position, vec2(2.0, 1.75));
    assert_eq!(particles.data[1].position, vec2(2.0, 2.75));
    particles.auxiliares_around_cell();
    assert_eq!(particles.data[0].position, vec2(2.0, 1.75));

    let mut positions_out = [Vec2::default(); 3];
    let mut velocities_out = [Vec2::default(); 3];
    particles.finish(&settings(), &mut positions_out, &mut velocities_out);
    assert_eq!(
        positions_out,
        [vec2(2.0, 1.75), vec2(2.0, 2.75), Vec2::default()]
    );
}

fn as_float(scalar: Scalar) -> f64 {
    f64::from(f32::from_bits(scalar.to_single_bits()))
}

#[test]
fn pushes_particles_apart_in_main_cell() {
    let indices_main = [0, 0, 2, 2, 2, 2];
    let indices_aux = [0; 11];
    let positions = [vec2(1.0, 1.0), vec2(1.1, 1.1)];
    let velocities = [vec2(0.25, 0.0), vec2(0.0, -0.5)];
    let positions_aux = [Vec2::default(); 8];
    let velocities_aux = [Vec2::default(); 8];
    let mut particles = Particles::new(
        &indices_main,
        &indices_aux,
        1,
        2,
        0,
        &positions,
        &velocities,
        &positions_aux,
        &velocities_aux,
    );
    assert_eq!(particles.centre_count, 2);
    particles.pairs_in_cell();
    assert_eq!(particles.centre_count, 2);

    let left = particles.data[0].position;
    let right = particles.data[1].position;
    let tolerance = 1.0e-5;
    assert!((as_float(left.x) - 0.696_446_66).abs() < tolerance);
    assert!((as_float(left.y) - 0.696_446_66).abs() < tolerance);
    assert!((as_float(right.x) - 1.403_553_4).abs() < tolerance);
    assert!((as_float(right.y) - 1.403_553_4).abs() < tolerance);
    // The two are the minimum distance apart, about the point between them.
    let dx = as_float(right.x) - as_float(left.x);
    let dy = as_float(right.y) - as_float(left.y);
    assert!(((dx * dx + dy * dy).sqrt() - 1.0).abs() < 0.001);
    assert!(((as_float(left.x) + as_float(right.x)) / 2.0 - 1.05).abs() < tolerance);
    assert!(((as_float(left.y) + as_float(right.y)) / 2.0 - 1.05).abs() < tolerance);
    // A push moves a particle and leaves its velocity alone.
    assert_eq!(particles.data[0].velocity, vec2(0.25, 0.0));
    assert_eq!(particles.data[1].velocity, vec2(0.0, -0.5));
    // The pushed positions, to the last bit.
    assert_eq!(left.x.raw, 16_777_216 - 5_092_781);
    assert_eq!(right.x.raw, 18_454_938 + 5_092_781);
}

#[test]
fn a_later_push_can_bring_two_particles_closer_again() {
    // Three particles in a row, half a unit apart.
    let indices_main = [0, 0, 3, 3, 3, 3];
    let indices_aux = [0; 11];
    let positions = [vec2(4.0, 4.0), vec2(4.5, 4.0), vec2(5.0, 4.0)];
    let velocities = [Vec2::default(); 3];
    let positions_aux = [Vec2::default(); 8];
    let velocities_aux = [Vec2::default(); 8];
    let mut particles = Particles::new(
        &indices_main,
        &indices_aux,
        1,
        2,
        0,
        &positions,
        &velocities,
        &positions_aux,
        &velocities_aux,
    );
    assert_eq!(particles.centre_count, 3);
    particles.pairs_in_cell();
    // The first and the second are pushed a quarter each; the first and the
    // third are then far enough apart; the second and the third, a quarter
    // apart by now, are pushed three eighths each.
    assert_eq!(particles.data[0].position, vec2(3.75, 4.0));
    assert_eq!(particles.data[1].position, vec2(4.375, 4.0));
    assert_eq!(particles.data[2].position, vec2(5.375, 4.0));
}

#[test]
fn a_pushed_pair_is_still_apart_after_its_move() {
    let indices_main = [0, 0, 2, 2, 2, 2];
    let indices_aux = [0; 11];
    let positions = [vec2(2.0, 2.0), vec2(2.3, 2.4)];
    let velocities = [vec2(0.5, -0.25), vec2(0.5, -0.25)];
    let positions_aux = [Vec2::default(); 8];
    let velocities_aux = [Vec2::default(); 8];
    let mut particles = Particles::new(
        &indices_main,
        &indices_aux,
        1,
        2,
        0,
        &positions,
        &velocities,
        &positions_aux,
        &velocities_aux,
    );
    particles.pairs_in_cell();
    particles.auxiliares_around_cell();
    let mut positions_out = [Vec2::default(); 2];
    let mut velocities_out = [Vec2::default(); 2];
    particles.finish(&settings(), &mut positions_out, &mut velocities_out);

    let dx = positions_out[1].x.raw - positions_out[0].x.raw;
    let dy = positions_out[1].y.raw - positions_out[0].y.raw;
    let least = 16_777_216 - 7;
    let most = 16_777_216 + 7;
    assert!(dx * dx + dy * dy >= least * least);
    assert!(dx * dx + dy * dy <= most * most);
    assert_eq!(velocities_out, velocities);
    // Both have moved by their velocity from the point between them.
    let middle = as_float(positions_out[0].x) + as_float(positions_out[1].x);
    assert!((middle / 2.0 - 2.65).abs() < 1.0e-6);
}

#[test]
fn a_lone_pair_is_apart_after_the_physics_of_its_cell() {
    // Two particles in the first cell of a grid of two by two; each corner
    // cell of that cell holds a copy of both, as the packing leaves them.
    let mut indices_main = [0, 0, 2, 2, 2, 2];
    let mut indices_aux = [0, 0, 2, 4, 4, 6, 8, 8, 8, 8, 8];
    let pair = [vec2(2.0, 2.0), vec2(2.3, 2.4)];
    let velocities = [vec2(0.5, -0.25), vec2(0.5, -0.25)];
    let positions_aux = [
        pair[0], pair[1], pair[0], pair[1], pair[0], pair[1], pair[0], pair[1],
    ];
    let velocities_aux = [velocities[0]; 8];
    let settings = ShaderWorldSettings {
        particles_in_frame_count: 2,
        ..settings()
    };
    let mut positions_out = [Vec2::default(); 2];
    let mut velocities_out = [Vec2::default(); 2];
    {
        let mut cell = Cell {
            current: 1,
            is_last: false,
            first_particle_index: 0,
            settings: &settings,
            indices_main: &mut indices_main,
            positions_in: &pair,
            positions_out: &mut positions_out,
            velocities_in: &velocities,
            velocities_out: &mut velocities_out,
            indices_aux: &mut indices_aux,
            positions_workgroup: &positions_aux,
            velocities_workgroup: &velocities_aux,
        };
        cell.physics_for_cell();
    }
    let dx = positions_out[1].x.raw - positions_out[0].x.raw;
    let dy = positions_out[1].y.raw - positions_out[0].y.raw;
    let least = 16_777_216 - 7;
    assert!(dx * dx + dy * dy >= least * least);
    // The copies in the corner cells have pushed each further from the other.
    assert!(as_float(positions_out[0].x) < 2.0 + 0.5 - 0.1);
    assert!(as_float(positions_out[1].x) > 2.3 + 0.5 + 0.1);
    assert!(as_float(positions_out[0].y) < 2.0 - 0.25 - 0.1);
    assert!(as_float(positions_out[1].y) > 2.4 - 0.25 + 0.1);
    assert_eq!(velocities_out, velocities);
}

#[test]
fn a_particle_is_pushed_away_from_a_particle_of_a_corner_cell() {
    let indices_main = [0, 0, 1, 1, 1, 1];
    // Only the corner at the bottom right holds a particle: a neighbour from
    // the cell to the right.
    let indices_aux = [0, 0, 0, 1, 1, 1, 1, 1, 1, 1, 1];
    let positions = [vec2(4.75, 2.0)];
    let velocities = [vec2(0.0, 0.0)];
    let positions_aux = [vec2(5.25, 2.0)];
    let velocities_aux = [Vec2::default(); 1];
    let mut particles = Particles::new(
        &indices_main,
        &indices_aux,
        1,
        2,
        0,
        &positions,
        &velocities,
        &positions_aux,
        &velocities_aux,
    );
    particles.pairs_in_cell();
    particles.auxiliares_around_cell();
    // Half of what is missing to the minimum distance.
    assert_eq!(particles.data[0].position, vec2(4.5, 2.0));
    // The neighbour is a copy, and stays.
    assert_eq!(particles.data[8].position, vec2(5.25, 2.0));
}

#[test]
fn the_physics_of_a_cell_writes_its_particles_and_clears_its_counters() {
    let (mut indices_main, mut indices_aux, positions, velocities, positions_aux, velocities_aux) =
        close_pair();
    let settings = settings();
    let mut positions_out = [Vec2::default(); 3];
    let mut velocities_out = [Vec2::default(); 3];
    {
        let mut cell = Cell {
            current: 1,
            is_last: false,
            first_particle_index: 0,
            settings: &settings,
            indices_main: &mut indices_main,
            positions_in: &positions,
            positions_out: &mut positions_out,
            velocities_in: &velocities,
            velocities_out: &mut velocities_out,
            indices_aux: &mut indices_aux,
            positions_workgroup: &positions_aux,
            velocities_workgroup: &velocities_aux,
        };
        cell.physics_for_cell();
        assert!(!cell.is_last);
    }
    assert_eq!(
        positions_out,
        [vec2(2.0, 1.75), vec2(2.0, 2.75), Vec2::default()]
    );
    assert_eq!(indices_main, [0, 0, 2, 2, 2, 3]);
    assert_eq!(indices_aux, [0, 0, 2, 4, 4, 6, 9, 10, 10, 11, 12]);

    {
        let mut cell = Cell {
            current: 4,
            is_last: false,
            first_particle_index: 0,
            settings: &settings,
            indices_main: &mut indices_main,
            positions_in: &positions,
            positions_out: &mut positions_out,
            velocities_in: &velocities,
            velocities_out: &mut velocities_out,
            indices_aux: &mut indices_aux,
            positions_workgroup: &positions_aux,
            velocities_workgroup: &velocities_aux,
        };
        cell.physics_for_cell();
        assert!(cell.is_last);
    }
    assert_eq!(positions_out[2], vec2(8.5, 8.5));
    assert_eq!(velocities_out[2], vec2(0.5, 0.5));
    // The last cell clears its own slot and the guard item of the main
    // grid; its corner, the corners beyond the right and top edges, the
    // top-right corner, and the guard item of the auxiliary grid.
    assert_eq!(indices_main, [0, 0, 2, 2, 0, 0]);
    assert_eq!(indices_aux, [0, 0, 2, 4, 4, 0, 0, 10, 0, 0, 0]);
}

#[test]
fn there_is_no_physics_for_a_slot_without_a_cell() {
    let (mut indices_main, mut indices_aux, positions, velocities, positions_aux, velocities_aux) =
        close_pair();
    let settings = settings();
    let mut positions_out = [Vec2::default(); 3];
    let mut velocities_out = [Vec2::default(); 3];
    for current in [0, 5, 6] {
        let mut cell = Cell {
            current,
            is_last: false,
            first_particle_index: 0,
            settings: &settings,
            indices_main: &mut indices_main,
            positions_in: &positions,
            positions_out: &mut positions_out,
            velocities_in: &velocities,
            velocities_out: &mut velocities_out,
            indices_aux: &mut indices_aux,
            positions_workgroup: &positions_aux,
            velocities_workgroup: &velocities_aux,
        };
        cell.physics_for_cell();
    }
    assert_eq!(positions_out, [Vec2::default(); 3]);
    assert_eq!(indices_main, [0, 0, 2, 2, 2, 3]);
}
