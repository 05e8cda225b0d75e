use wrach::compute::builder::PhysicsComputeWorker;
use wrach::compute::worker::AppComputeWorker;
use wrach::config_app::WrachConfig;
use wrach::error::WrachError;
use wrach::math::{Vec2, Vec4};
use wrach::particle_store::ParticleStore;
use wrach::plugin::{maybe_upload_to_gpu, tick, update};
use wrach::scalar::Scalar;
use wrach::state::{Particle, WrachState};

fn fx(value: f64) -> Scalar {
    Scalar::from_single_bits((value as f32).to_bits())
}

fn vec2(x: f64, y: f64) -> Vec2 {
    Vec2::new(fx(x), fx(y))
}

fn vec4(x: f64, y: f64, z: f64, w: f64) -> Vec4 {
    Vec4::new(fx(x), fx(y), fx(z), fx(w))
}

fn at_rest(x: f64, y: f64) -> Particle {
    Particle {
        position: vec2(x, y),
        velocity: vec2(0.0, 0.0),
    }
}

fn distance(a: Vec2, b: Vec2) -> f64 {
    let dx = (a.x.raw - b.x.raw) as f64 / 16_777_216.0;
    let dy = (a.y.raw - b.y.raw) as f64 / 16_777_216.0;
    (dx * dx + dy * dy).sqrt()
}

fn simulation(
    dimensions: (u16, u16),
    cell_size: u16,
    exclude_integration_pass: bool,
) -> (AppComputeWorker, WrachState) {
    let mut state = WrachState::new(WrachConfig {
        dimensions,
        cell_size,
        exclude_integration_pass,
        ..Default::default()
    })
    .unwrap();
    let worker = PhysicsComputeWorker::build(&mut state).unwrap();
    (worker, state)
}

#[test]
fn prefix_sum_for_small_arrays() {
    let dimensions = (10, 10);
    let cell_size = 5;

    let (mut worker, mut state) = simulation(dimensions, cell_size, true);
    let mut store = ParticleStore::new(
        cell_size,
        vec4(0.0, 0.0, dimensions.0.into(), dimensions.1.into()),
    )
    .unwrap();

    let particles = vec![
        at_rest(0.1, 0.1),
        at_rest(2.0, 2.0),
        at_rest(f64::from(dimensions.0) / 2.0, f64::from(dimensions.1) / 2.0),
        at_rest(dimensions.0.into(), dimensions.1.into()),
    ];

    state.add_particles(particles.clone()).unwrap();
    for particle in particles {
        store.add_particle(particle);
    }

    for _ in 0..4 {
        update(&mut worker, &mut state).unwrap();
    }

    let gpu_packed_data = &state.packed_data;
    let cpu_packed_data = store.create_packed_data().unwrap();

    assert_eq!(
        cpu_packed_data.indices,
        vec![0, 0, 2, 2, 2, 2, 3, 3, 3, 3, 4]
    );

    assert_eq!(
        gpu_packed_data.indices, cpu_packed_data.indices,
        "GPU packed indices do not match CPU packed indices"
    );
}

#[test]
fn prefix_sum_for_large_arrays() {
    let dimensions = (500, 300);
    let cell_size = 6;

    let (mut worker, mut state) = simulation(dimensions, cell_size, true);
    let mut store = ParticleStore::new(
        cell_size,
        vec4(0.0, 0.0, dimensions.0.into(), dimensions.1.into()),
    )
    .unwrap();

    let particles = vec![
        at_rest(1.1, 1.1),
        at_rest(2.2, 2.2),
        at_rest(f64::from(dimensions.0) / 2.0, f64::from(dimensions.1) / 2.0),
        at_rest(dimensions.0.into(), dimensions.1.into()),
    ];

    state.add_particles(particles.clone()).unwrap();
    for particle in particles {
        store.add_particle(particle);
    }

    for _ in 0..4 {
        update(&mut worker, &mut state).unwrap();
    }

    let gpu_packed_data = &state.packed_data;
    let cpu_packed_data = store.create_packed_data().unwrap();

    assert_eq!(gpu_packed_data.indices.len(), cpu_packed_data.indices.len());
    assert_eq!(
        gpu_packed_data.indices, cpu_packed_data.indices,
        "GPU packed indices do not match CPU packed indices"
    );
}

#[test]
fn packed_data() {
    let dimensions = (10, 10);
    let cell_size = 3;

    let (mut worker, mut state) = simulation(dimensions, cell_size, false);
    let mut store = ParticleStore::new(
        cell_size,
        vec4(0.0, 0.0, dimensions.0.into(), dimensions.1.into()),
    )
    .unwrap();

    let particles = vec![
        at_rest(0.1, 0.1),
        at_rest(2.5, 2.5),
        at_rest(f64::from(dimensions.0) / 2.0, f64::from(dimensions.1) / 2.0),
        at_rest(dimensions.0.into(), dimensions.1.into()),
    ];

    state.add_particles(particles.clone()).unwrap();
    for particle in particles {
        store.add_particle(particle);
    }

    for _ in 0..5_u32 {
        update(&mut worker, &mut state).unwrap();
        if state.packed_data.positions.first().is_some() {
            break;
        }
    }

    let gpu_packed_data = &state.packed_data;
    let cpu_packed_data = store.create_packed_data().unwrap();

    assert_eq!(
        cpu_packed_data.positions,
        vec![
            vec2(0.1, 0.1),
            vec2(2.5, 2.5),
            vec2(5.0, 5.0),
            vec2(10.0, 10.0)
        ]
    );

    let mut allow_random_order_in_cell = gpu_packed_data.positions.clone();
    allow_random_order_in_cell[0..2].sort_by(|a, b| a.x.raw.partial_cmp(&b.x.raw).unwrap());
    assert_eq!(
        allow_random_order_in_cell[0..2],
        vec![vec2(0.1, 0.1), vec2(2.5, 2.5)]
    );

    assert_eq!(
        gpu_packed_data.positions[2..4],
        vec![vec2(5.0, 5.0), vec2(10.0, 10.0)]
    );
}

#[test]
fn ticks_keep_four_particles_and_their_indices() {
    let (mut worker, mut state) = simulation((10, 10), 5, false);
    let particles = vec![
        at_rest(0.1, 0.1),
        at_rest(2.0, 2.0),
        at_rest(5.0, 5.0),
        at_rest(10.0, 10.0),
    ];
    state.add_particles(particles).unwrap();
    update(&mut worker, &mut state).unwrap();
    update(&mut worker, &mut state).unwrap();

    assert_eq!(
        state.packed_data.indices,
        vec![0, 0, 2, 2, 2, 2, 3, 3, 3, 3, 4]
    );
    let packed = &state.packed_data.positions[0..4];
    assert!(packed[0..2].contains(&vec2(0.1, 0.1)));
    assert!(packed[0..2].contains(&vec2(2.0, 2.0)));
    assert!(packed.contains(&vec2(5.0, 5.0)));
    assert!(packed.contains(&vec2(10.0, 10.0)));
    // The physics pass has cleared the counters for the next frame.
    assert!(worker.indices_main.iter().all(|counter| *counter == 0));
    assert!(worker.indices_aux.iter().all(|counter| *counter == 0));
}

#[test]
fn three_particles_on_one_spot_stay_three() {
    let (mut worker, mut state) = simulation((10, 10), 3, false);
    state
        .add_particles(vec![at_rest(3.0, 3.0), at_rest(3.0, 3.0), at_rest(3.0, 3.0)])
        .unwrap();
    update(&mut worker, &mut state).unwrap();

    assert_eq!(worker.settings.particles_in_frame_count, 3);
    let positions = &state.packed_data.positions;
    let cell = 1 * 4 + 1;
    assert_eq!(state.packed_data.indices[cell + 1], 0);
    assert_eq!(state.packed_data.indices[cell + 2], 3);
    // The push vector is the gap between two particles times the force, and
    // the gap between particles on one spot is zero.
    assert_eq!(positions[0], vec2(3.0, 3.0));
    assert_eq!(positions[1], vec2(3.0, 3.0));
    assert_eq!(positions[2], vec2(3.0, 3.0));
}

#[test]
fn two_close_particles_are_pushed_apart() {
    let (mut worker, mut state) = simulation((10, 10), 3, false);
    state
        .add_particles(vec![at_rest(4.0, 4.0), at_rest(4.5, 4.0)])
        .unwrap();
    update(&mut worker, &mut state).unwrap();

    let positions = &state.packed_data.positions;
    let separation = distance(positions[0], positions[1]);
    assert!(separation >= 1.0 - 0.001, "separation {separation}");
    // They are pushed in opposite directions, along the line between them.
    assert!(positions[0].x.raw < fx(4.0).raw);
    assert!(positions[1].x.raw > fx(4.5).raw);
    assert_eq!(positions[0].y, fx(4.0));
    assert_eq!(positions[1].y, fx(4.0));
}

#[test]
fn a_fast_particle_moves_by_its_velocity_and_is_then_slowed_down() {
    let (mut worker, mut state) = simulation((10, 10), 3, false);
    state
        .add_particles(vec![Particle {
            position: vec2(4.0, 5.0),
            velocity: vec2(2.0, 0.0),
        }])
        .unwrap();
    update(&mut worker, &mut state).unwrap();

    assert_eq!(state.packed_data.positions[0], vec2(6.0, 5.0));
    assert_eq!(state.packed_data.velocities[0], vec2(1.0, 0.0));
}

#[test]
fn a_particle_at_the_corner_is_held_there_and_turned_round() {
    let (mut worker, mut state) = simulation((10, 10), 3, false);
    state
        .add_particles(vec![Particle {
            position: vec2(10.0, 10.0),
            velocity: vec2(1.0, 1.0),
        }])
        .unwrap();
    update(&mut worker, &mut state).unwrap();

    assert_eq!(state.packed_data.positions[0], vec2(10.0, 10.0));
    assert_eq!(state.packed_data.velocities[0], vec2(-1.0, -1.0));

    // The tick after, it has moved one unit inward.
    update(&mut worker, &mut state).unwrap();
    assert_eq!(state.packed_data.positions[0], vec2(9.0, 9.0));
    assert_eq!(state.packed_data.velocities[0], vec2(-1.0, -1.0));
}

#[test]
fn a_single_particle_keeps_its_velocity() {
    let (mut worker, mut state) = simulation((10, 10), 3, false);
    let velocity = vec2(0.25, -0.125);
    state
        .add_particles(vec![Particle {
            position: vec2(5.0, 5.0),
            velocity,
        }])
        .unwrap();
    for _ in 0..8 {
        update(&mut worker, &mut state).unwrap();
        assert_eq!(state.packed_data.velocities[0], velocity);
    }
    assert_eq!(state.packed_data.positions[0], vec2(7.0, 4.0));
}

#[test]
fn three_particles_in_one_cell_are_packed_as_the_store_packs_them() {
    let (mut worker, mut state) = simulation((10, 10), 3, true);
    let mut store = ParticleStore::new(3, vec4(0.0, 0.0, 10.0, 10.0)).unwrap();
    let particles = vec![at_rest(3.1, 3.2), at_rest(4.5, 5.5), at_rest(5.9, 3.0)];
    state.add_particles(particles.clone()).unwrap();
    for particle in particles {
        store.add_particle(particle);
    }
    update(&mut worker, &mut state).unwrap();

    let cpu = store.create_packed_data().unwrap();
    let mut gpu: Vec<Vec2> = state.packed_data.positions[0..3].to_vec();
    let mut expected = cpu.positions.clone();
    gpu.sort_by_key(|position| position.x.raw);
    expected.sort_by_key(|position| position.x.raw);
    assert_eq!(gpu, expected);
    assert_eq!(state.packed_data.indices, cpu.indices);
}

#[test]
fn an_empty_tick_leaves_the_buffers_at_zero_and_makes_ready() {
    let (mut worker, mut state) = simulation((10, 10), 3, false);
    assert!(!worker.ready());
    assert_eq!(tick(&worker, &mut state), Err(WrachError::NotReady));
    update(&mut worker, &mut state).unwrap();
    assert!(worker.ready());
    assert!(state.packed_data.indices.iter().all(|index| *index == 0));
    assert!(state
        .packed_data
        .positions
        .iter()
        .all(|position| *position == Vec2::default()));
    assert!(state
        .packed_data
        .velocities
        .iter()
        .all(|velocity| *velocity == Vec2::default()));
}

#[test]
fn packing_twice_gives_the_same_data() {
    let mut store = ParticleStore::new(3, vec4(0.0, 0.0, 6.0, 6.0)).unwrap();
    store.add_particle(at_rest(0.5, 0.5));
    store.add_particle(at_rest(4.5, 1.5));
    store.add_particle(at_rest(4.6, 1.6));
    let first = store.create_packed_data().unwrap();
    let second = store.create_packed_data().unwrap();
    assert_eq!(first.indices, second.indices);
    assert_eq!(first.positions, second.positions);
    assert_eq!(first.velocities, second.velocities);
}

#[test]
fn particles_beyond_the_capacity_of_a_cell_only_make_their_move() {
    let (mut worker, mut state) = simulation((10, 10), 3, false);
    let mut particles = Vec::new();
    for i in 0..6 {
        particles.push(Particle {
            position: vec2(4.0 + 0.25 * f64::from(i), 4.0),
            velocity: vec2(0.0, 0.5),
        });
    }
    state.add_particles(particles).unwrap();
    update(&mut worker, &mut state).unwrap();

    assert_eq!(worker.settings.particles_in_frame_count, 6);
    // The fifth and sixth particles are beyond the capacity of four.
    assert_eq!(state.packed_data.positions[4], vec2(5.0, 4.5));
    assert_eq!(state.packed_data.positions[5], vec2(5.25, 4.5));
    assert_eq!(state.packed_data.velocities[4], vec2(0.0, 0.5));
}

#[test]
fn a_particle_outside_the_grid_is_dropped_from_the_frame() {
    let (mut worker, mut state) = simulation((10, 10), 5, false);
    state
        .add_particles(vec![at_rest(1.0, 1.0), at_rest(40.0, 40.0)])
        .unwrap();
    assert_eq!(state.particle_store.particles_in_frame_count, 1);
    update(&mut worker, &mut state).unwrap();
    assert_eq!(worker.settings.particles_in_frame_count, 1);
    assert_eq!(state.packed_data.positions[0], vec2(1.0, 1.0));
}

#[test]
fn a_configuration_without_cells_is_invalid() {
    let zero_cell = WrachState::new(WrachConfig {
        dimensions: (10, 10),
        cell_size: 0,
        ..Default::default()
    });
    assert!(matches!(zero_cell, Err(WrachError::InvalidConfig)));
    let small_view = WrachState::new(WrachConfig {
        dimensions: (2, 10),
        cell_size: 3,
        ..Default::default()
    });
    assert!(matches!(small_view, Err(WrachError::InvalidConfig)));
    let no_view = WrachState::new(WrachConfig {
        dimensions: (0, 0),
        cell_size: 1,
        ..Default::default()
    });
    assert!(matches!(no_view, Err(WrachError::InvalidConfig)));
}

#[test]
fn a_grid_of_too_many_cells_is_too_large() {
    let state = WrachState::new(WrachConfig {
        dimensions: (4000, 4000),
        cell_size: 1,
        ..Default::default()
    });
    assert!(matches!(state, Err(WrachError::ConfigurationTooLarge)));
}

#[test]
fn more_particles_than_the_frame_has_room_for_exceed_the_capacity() {
    let (mut worker, mut state) = simulation((2, 2), 2, false);
    assert_eq!(state.particle_store.max_particles_per_frame(), 18);
    let mut particles = Vec::new();
    for _ in 0..19 {
        particles.push(at_rest(1.0, 1.0));
    }
    assert_eq!(
        state.add_particles(particles),
        Err(WrachError::CapacityExceeded)
    );
    // Nothing was added and nothing is queued.
    assert!(state.gpu_uploads.is_empty());
    assert!(state.particle_store.hashmap.is_empty());
    assert_eq!(state.particle_store.particles_in_frame_count, 0);
    assert_eq!(maybe_upload_to_gpu(&mut worker, &mut state), Ok(()));

    // Particles outside the viewport take no room in the frame.
    let mut particles = Vec::new();
    for _ in 0..18 {
        particles.push(at_rest(1.0, 1.0));
    }
    for _ in 0..10 {
        particles.push(at_rest(100.0, 100.0));
    }
    assert_eq!(state.add_particles(particles), Ok(()));
    assert_eq!(state.particle_store.particles_in_frame_count, 18);
    assert_eq!(state.gpu_uploads.len(), 2);
    assert_eq!(
        state.add_particles(vec![at_rest(0.5, 0.5)]),
        Err(WrachError::CapacityExceeded)
    );
    assert_eq!(state.gpu_uploads.len(), 2);
}

#[test]
fn an_upload_that_does_not_fit_is_refused() {
    let (mut worker, mut state) = simulation((2, 2), 2, false);
    let mut positions = Vec::new();
    for _ in 0..27 {
        positions.push(vec2(1.0, 1.0));
    }
    let too_long = wrach::spatial_bin::PackedData {
        indices: Vec::new(),
        velocities: positions.clone(),
        positions,
    };
    state.gpu_upload(wrach::state::GPUUpload::PackedData(too_long));
    let mut other_grid = state.shader_settings;
    other_grid.grid_dimensions.x += 1;
    state.gpu_upload(wrach::state::GPUUpload::Settings(other_grid));
    let mut counted = state.shader_settings;
    counted.particles_in_frame_count = 5;
    state.gpu_upload(wrach::state::GPUUpload::Settings(counted));
    assert_eq!(
        maybe_upload_to_gpu(&mut worker, &mut state),
        Err(WrachError::CapacityExceeded)
    );
    // The upload that fits took effect all the same.
    assert_eq!(worker.settings.particles_in_frame_count, 5);
    assert!(!worker.has_upload);
    assert!(state.gpu_uploads.is_empty());

    state.gpu_upload(wrach::state::GPUUpload::Settings(other_grid));
    assert_eq!(
        maybe_upload_to_gpu(&mut worker, &mut state),
        Err(WrachError::InvalidConfig)
    );
    let mut too_many = state.shader_settings;
    too_many.particles_in_frame_count = 27;
    assert_eq!(
        worker.write_settings(too_many),
        Err(WrachError::CapacityExceeded)
    );
}

#[test]
fn a_lost_device_stays_lost() {
    let (mut worker, mut state) = simulation((10, 10), 3, false);
    state.add_particles(vec![at_rest(1.0, 1.0)]).unwrap();
    update(&mut worker, &mut state).unwrap();
    let frame = state.packed_data.positions.clone();

    worker.lose_device();
    state.add_particles(vec![at_rest(2.0, 2.0)]).unwrap();
    assert_eq!(update(&mut worker, &mut state), Err(WrachError::DeviceLost));
    assert_eq!(tick(&worker, &mut state), Err(WrachError::DeviceLost));
    assert_eq!(
        maybe_upload_to_gpu(&mut worker, &mut state),
        Err(WrachError::DeviceLost)
    );
    worker.execute();
    assert_eq!(update(&mut worker, &mut state), Err(WrachError::DeviceLost));
    assert_eq!(state.packed_data.positions, frame);
    assert_eq!(state.gpu_uploads.len(), 2);
}

#[test]
fn the_indices_of_a_frame_are_running_totals() {
    let (mut worker, mut state) = simulation((12, 9), 3, true);
    let mut particles = Vec::new();
    for i in 0..40 {
        let x = f64::from(i * 7 % 13);
        let y = f64::from(i * 5 % 10);
        particles.push(at_rest(x, y));
    }
    state.add_particles(particles).unwrap();
    update(&mut worker, &mut state).unwrap();

    let data = &state.packed_data;
    let cells = 5 * 4;
    assert_eq!(data.indices.len(), cells + 2);
    assert_eq!(data.indices[0], 0);
    assert_eq!(data.indices[1], 0);
    assert!(data.indices.windows(2).all(|pair| pair[0] <= pair[1]));
    let in_viewport = worker.settings.particles_in_frame_count;
    assert_eq!(*data.indices.last().unwrap(), in_viewport);
    assert_eq!(in_viewport, state.particle_store.particles_in_frame_count);

    let mut sum_of_ranges = 0;
    for cell in 0..cells {
        let from = data.indices[cell + 1] as usize;
        let end_by = data.indices[cell + 2] as usize;
        sum_of_ranges += end_by - from;
        for position in &data.positions[from..end_by] {
            let coord = state.particle_store.spatial_bin.get_cell_coord(*position);
            assert_eq!(coord.y as usize * 5 + coord.x as usize, cell);
        }
    }
    assert_eq!(sum_of_ranges, in_viewport as usize);
}

#[test]
fn after_a_tick_every_particle_is_within_the_limits() {
    let (mut worker, mut state) = simulation((10, 10), 3, false);
    let mut particles = Vec::new();
    for i in 0..30 {
        particles.push(Particle {
            position: vec2(f64::from(i % 11), f64::from(i * 3 % 11)),
            velocity: vec2(f64::from(i % 7) - 3.0, 2.5 - f64::from(i % 5)),
        });
    }
    state.add_particles(particles).unwrap();
    for _ in 0..6 {
        update(&mut worker, &mut state).unwrap();
        let count = worker.settings.particles_in_frame_count as usize;
        assert_eq!(count, 30);
        for slot in 0..count {
            let position = state.packed_data.positions[slot];
            let velocity = state.packed_data.velocities[slot];
            assert!(0 <= position.x.raw && position.x.raw <= fx(10.0).raw);
            assert!(0 <= position.y.raw && position.y.raw <= fx(10.0).raw);
            assert!(velocity.x.raw.abs() <= fx(1.0).raw);
            assert!(velocity.y.raw.abs() <= fx(1.0).raw);
        }
    }
}

#[test]
fn the_default_configuration_is_four_by_three() {
    let config = WrachConfig::default();
    assert_eq!(config.dimensions, (480, 352));
    assert_eq!(config.cell_size, 2);
    assert!(!config.boundaries_as_dimensions);
    assert!(!config.exclude_integration_pass);
    let state = WrachState::new(config).unwrap();
    assert_eq!(state.particle_store.spatial_bin.grid_dimensions.x, 241);
    assert_eq!(state.particle_store.spatial_bin.grid_dimensions.y, 177);
}
