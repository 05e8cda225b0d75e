use wrach::math::{Vec2, Vec4};
use wrach::particle_store::ParticleStore;
use wrach::scalar::Scalar;
use wrach::state::Particle;

fn fx(value: f64) -> Scalar {
    Scalar::from_single_bits((value as f32).to_bits())
}

fn vec2(x: f64, y: f64) -> Vec2 {
    Vec2::new(fx(x), fx(y))
}

fn vec4(x: f64, y: f64, z: f64, w: f64) -> Vec4 {
    Vec4::new(fx(x), fx(y), fx(z), fx(w))
}

#[test]
fn creating_packed_data_for_one_particle_in_middle() {
    let mut store = ParticleStore::new(3, vec4(0.0, 0.0, 6.0, 6.0)).unwrap();
    let particle = Particle {
        position: vec2(4.5, 4.5),
        velocity: vec2(1.1, 2.3),
    };
    store.add_particle(particle);
    let data = store.create_packed_data().unwrap();

    assert_eq!(
        data.indices,
        vec![
        0,  0, 0, 0,
            0, 0, 1,
            1, 1, 1,  1
        ]
    );

    assert_eq!(data.positions, vec![particle.position]);
    assert_eq!(data.velocities, vec![particle.velocity]);
}

#[test]
fn creating_packed_data_for_three_particles_in_middle() {
    let mut store = ParticleStore::new(3, vec4(0.0, 0.0, 6.0, 6.0)).unwrap();
    let particle = Particle {
        position: vec2(3.0, 3.0),
        velocity: vec2(1.1, 2.3),
    };
    store.add_particle(particle);
    store.add_particle(particle);
    store.add_particle(particle);
    let data = store.create_packed_data().unwrap();
    assert_eq!(data.indices, vec![0, 0, 0, 0, 0, 0, 3, 3, 3, 3, 3]);
    assert_eq!(data.positions.len(), 3);
    assert_eq!(data.positions[1], particle.position);
    assert_eq!(data.velocities[1], particle.velocity);
}

#[test]
fn creating_packed_data_for_many_particles() {
    let mut store = ParticleStore::new(3, vec4(0.0, 0.0, 6.0, 6.0)).unwrap();

    let particle1 = Particle {
        position: vec2(0.0, 1.0),
        velocity: Vec2::default(),
    };
    store.add_particle(particle1);

    let particle2 = Particle {
        position: vec2(3.0, 3.0),
        velocity: vec2(1.2, 3.4),
    };
    store.add_particle(particle2);

    let particle3 = Particle {
        position: vec2(5.1, 4.3),
        velocity: Vec2::default(),
    };
    store.add_particle(particle3);

    let data = store.create_packed_data().unwrap();
    assert_eq!(data.indices, vec![0, 0, 1, 1, 1, 1, 3, 3, 3, 3, 3]);
    assert_eq!(data.positions.len(), 3);
    assert_eq!(data.positions[2], particle3.position);
    assert_eq!(data.velocities[1], particle2.velocity);
}

#[test]
fn creating_packed_data_for_a_particle_offscreen() {
    let mut store = ParticleStore::new(3, vec4(0.0, 0.0, 6.0, 6.0)).unwrap();
    store.add_particle(Particle {
        position: vec2(6.1, 6.1),
        velocity: Vec2::default(),
    });
    store.add_particle(Particle {
        position: vec2(9.1, 9.1),
        velocity: Vec2::default(),
    });
    let data = store.create_packed_data().unwrap();
    assert_eq!(data.indices, vec![0, 0, 0, 0, 0, 0, 0, 0, 0, 0, 1]);
    assert_eq!(data.positions, vec![vec2(6.1, 6.1)]);
    assert_eq!(data.velocities, vec![Vec2::default()]);
}

#[test]
fn max_particles_per_frame() {
    let store = ParticleStore::new(2, vec4(0.0, 0.0, 6.0, 6.0)).unwrap();
    assert_eq!(store.max_particles_per_frame(), 71);
}

#[test]
fn a_frame_has_room_for_eleven_tenths_of_its_unit_squares() {
    // One cell of 65536 unit squares: 72089.6, rounded up.
    let store = ParticleStore::new(256, vec4(0.0, 0.0, 100.0, 100.0)).unwrap();
    assert_eq!(store.spatial_bin.get_active_cells().0.len(), 1);
    assert_eq!(store.max_particles_per_frame(), 72_090);
    // Where the tenth is a whole number nothing is rounded.
    let store = ParticleStore::new(10, vec4(0.0, 0.0, 5.0, 5.0)).unwrap();
    assert_eq!(store.max_particles_per_frame(), 110);
    // Four cells of one unit square: 4.4, rounded up.
    let store = ParticleStore::new(1, vec4(0.0, 0.0, 1.0, 1.0)).unwrap();
    assert_eq!(store.max_particles_per_frame(), 5);
    // Asking does not change the store.
    assert!(store.hashmap.is_empty());
    assert_eq!(store.particles_in_frame_count, 0);
}
