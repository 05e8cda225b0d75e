use wrach::api::WrachAPI;
use wrach::config_app::WrachConfig;
use wrach::error::WrachError;
use wrach::math::Vec2;
use wrach::state::Particle;

fn vec2(x: f32, y: f32) -> Vec2 {
    Vec2::from_single_bits(x.to_bits(), y.to_bits())
}

fn floats(bits: (u32, u32)) -> (f32, f32) {
    (f32::from_bits(bits.0), f32::from_bits(bits.1))
}

#[test]
fn test_api_returns_data() {
    let mut wrach = WrachAPI::new(WrachConfig {
        dimensions: (10, 10),
        cell_size: 3,
        ..Default::default()
    })
    .unwrap();

    let mut particles: Vec<Particle> = Vec::new();
    for _ in 0..3 {
        particles.push(Particle {
            position: vec2(5.0, 5.0),
            velocity: vec2(0.5, 0.5),
        });
    }
    wrach.add_particles(particles).unwrap();

    for _ in 0..5 {
        wrach.tick().unwrap();
    }

    assert_eq!(wrach.positions.len(), 159);
    assert_ne!(floats(wrach.positions[0]), (0.0, 0.0));
    assert_eq!(wrach.velocities.len(), 159);
    assert_ne!(floats(wrach.velocities[0]), (0.0, 0.0));
}

#[test]
fn a_new_simulation_has_no_frame() {
    let wrach = WrachAPI::new(WrachConfig::default()).unwrap();
    assert!(wrach.positions.is_empty());
    assert!(wrach.velocities.is_empty());
    let state = wrach.get_simulation_state();
    assert_eq!(state.particle_store.particles_in_frame_count, 0);
    assert!(state.gpu_uploads.is_empty());
}

#[test]
fn a_simulation_needs_a_valid_configuration() {
    let no_cells = WrachAPI::new(WrachConfig {
        cell_size: 0,
        ..Default::default()
    });
    assert_eq!(no_cells.err(), Some(WrachError::InvalidConfig));
    let no_width = WrachAPI::new(WrachConfig {
        dimensions: (0, 10),
        ..Default::default()
    });
    assert_eq!(no_width.err(), Some(WrachError::InvalidConfig));
    let too_large = WrachAPI::new(WrachConfig {
        dimensions: (u16::MAX, u16::MAX),
        cell_size: 1,
        ..Default::default()
    });
    assert_eq!(too_large.err(), Some(WrachError::ConfigurationTooLarge));
}

#[test]
fn the_frame_of_floats_is_the_frame_of_the_state() {
    let mut wrach = WrachAPI::new(WrachConfig {
        dimensions: (10, 10),
        cell_size: 5,
        ..Default::default()
    })
    .unwrap();
    wrach
        .add_particles(vec![Particle {
            position: vec2(2.5, 7.25),
            velocity: vec2(0.25, -0.5),
        }])
        .unwrap();
    wrach.tick().unwrap();

    let state = wrach.get_simulation_state();
    assert_eq!(wrach.positions.len(), state.packed_data.positions.len());
    assert_eq!(wrach.velocities.len(), state.packed_data.velocities.len());
    for (bits, fixed) in wrach.positions.iter().zip(state.packed_data.positions.iter()) {
        assert_eq!(*bits, fixed.to_single_bits());
    }
    // The one particle has flown for one tick.
    assert_eq!(floats(wrach.positions[0]), (2.75, 6.75));
    assert_eq!(floats(wrach.velocities[0]), (0.25, -0.5));
    // What is behind it is at the origin, at rest.
    assert_eq!(floats(wrach.positions[1]), (0.0, 0.0));
    assert_eq!(floats(wrach.velocities[1]), (0.0, 0.0));
}

#[test]
fn reading_the_frame_again_changes_nothing() {
    let mut wrach = WrachAPI::new(WrachConfig::default()).unwrap();
    wrach
        .add_particles(vec![Particle {
            position: vec2(1.0, 1.0),
            velocity: vec2(0.0, 0.0),
        }])
        .unwrap();
    wrach.tick().unwrap();
    let positions = wrach.positions.clone();
    let velocities = wrach.velocities.clone();
    assert_eq!(wrach.read_data(), Ok(()));
    assert_eq!(wrach.positions, positions);
    assert_eq!(wrach.velocities, velocities);
}

#[test]
fn particles_that_do_not_fit_are_refused_whole() {
    let mut wrach = WrachAPI::new(WrachConfig {
        dimensions: (4, 4),
        cell_size: 2,
        ..Default::default()
    })
    .unwrap();
    let room = wrach.get_simulation_state().particle_store.max_particles_per_frame();
    let mut particles: Vec<Particle> = Vec::new();
    for _ in 0..=room {
        particles.push(Particle {
            position: vec2(1.0, 1.0),
            velocity: vec2(0.0, 0.0),
        });
    }
    assert_eq!(wrach.add_particles(particles), Err(WrachError::CapacityExceeded));
    let state = wrach.get_simulation_state();
    assert_eq!(state.particle_store.particles_in_frame_count, 0);
    assert!(state.gpu_uploads.is_empty());
}

#[test]
fn a_read_before_the_first_tick_is_not_ready() {
    let mut wrach = WrachAPI::new(WrachConfig::default()).unwrap();
    assert!(!wrach.worker.ready());
    assert_eq!(wrach.read_data(), Err(WrachError::NotReady));
    assert!(wrach.positions.is_empty());
    assert!(wrach.velocities.is_empty());

    // Particles that wait for their upload do not make the frame ready.
    wrach
        .add_particles(vec![Particle {
            position: vec2(1.0, 1.0),
            velocity: vec2(0.0, 0.0),
        }])
        .unwrap();
    assert_eq!(wrach.read_data(), Err(WrachError::NotReady));
    assert!(wrach.positions.is_empty());

    // It is a signal to try again: after a tick the read succeeds.
    wrach.tick().unwrap();
    assert!(wrach.worker.ready());
    assert_eq!(wrach.read_data(), Ok(()));
    assert_eq!(wrach.positions.len(), wrach.velocities.len());
    assert_eq!(floats(wrach.positions[0]), (1.0, 1.0));
}

#[test]
fn a_new_simulation_is_at_zero_and_an_empty_tick_leaves_it_so() {
    let mut wrach = WrachAPI::new(WrachConfig {
        dimensions: (10, 10),
        cell_size: 3,
        ..Default::default()
    })
    .unwrap();
    let origin = Vec2::default();
    assert!(wrach.worker.indices_main.iter().all(|counter| *counter == 0));
    assert!(wrach.worker.indices_aux.iter().all(|counter| *counter == 0));
    assert!(wrach.worker.positions_in.iter().all(|position| *position == origin));
    assert!(wrach.worker.velocities_in.iter().all(|velocity| *velocity == origin));
    assert!(wrach.worker.positions_out.iter().all(|position| *position == origin));
    assert!(wrach.worker.velocities_out.iter().all(|velocity| *velocity == origin));

    wrach.tick().unwrap();

    assert!(wrach.worker.ready());
    assert!(wrach.worker.indices_main.iter().all(|counter| *counter == 0));
    assert!(wrach.worker.indices_aux.iter().all(|counter| *counter == 0));
    let state = wrach.get_simulation_state();
    assert!(state.packed_data.indices.iter().all(|index| *index == 0));
    assert!(state.particle_store.hashmap.is_empty());
    assert_eq!(state.particle_store.particles_in_frame_count, 0);
    assert_eq!(wrach.positions.len(), 159);
    assert_eq!(wrach.velocities.len(), 159);
    assert!(wrach.positions.iter().all(|bits| floats(*bits) == (0.0, 0.0)));
    assert!(wrach.velocities.iter().all(|bits| floats(*bits) == (0.0, 0.0)));
}
