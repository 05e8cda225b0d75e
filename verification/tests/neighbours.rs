use wrach::math::Vec2;
use wrach::physics::neighbours::{
    pixel_position, NeighbourhoodIDs, NeighbouringParticles, ParticleID, ParticlePropogation,
    MAX_NEIGHBOURS,
};
use wrach::physics::world::World;
use wrach::scalar::Scalar;

const O: ParticleID = 1;

fn fx(value: f64) -> Scalar {
    Scalar::from_single_bits((value as f32).to_bits())
}

fn vec2(x: f64, y: f64) -> Vec2 {
    Vec2::new(fx(x), fx(y))
}

fn world() -> World {
    World {
        num_particles: 4,
        map_width: 3,
        map_height: 3,
        grid_resolution: 1,
        influence_factor: 1,
        local_columns: 2,
    }
}

fn make_position(x: f64, y: f64) -> Vec2 {
    vec2(x, y)
}

fn setup() -> (Vec<ParticleID>, Vec<NeighbourhoodIDs>, Vec<Vec2>) {
    let map: Vec<ParticleID> = vec![0; 9];
    let neighbourhood_ids_buffer: Vec<NeighbourhoodIDs> = vec![[0; 10]; 4];
    let mut positions: Vec<Vec2> = vec![Vec2::default(); 4];
    positions[0] = make_position(0.2, -0.2);
    positions[1] = make_position(0.001, 0.001);
    positions[2] = make_position(-0.2, 0.2);
    positions[3] = make_position(1.0, 1.0);
    (map, neighbourhood_ids_buffer, positions)
}

fn pixelize(
    map: &mut [ParticleID],
    positions: &[Vec2],
    neighbourhood_ids_buffer: &mut [NeighbourhoodIDs],
) {
    for i in 0..4 {
        NeighbouringParticles::place_particle_in_pixel(
            i as ParticleID,
            positions[i],
            map,
            &world(),
        );
    }
    for i in 0..4 {
        NeighbouringParticles::find(
            i as ParticleID,
            map,
            positions,
            neighbourhood_ids_buffer,
            &world(),
        );
    }
}

#[test]
fn it_converts_coords() {
    let bp = make_position(0.0, 0.0);
    assert_eq!(pixel_position(bp, &world()), vec2(1.0, 1.0));
    let bp = make_position(-1.0, -1.0);
    assert_eq!(pixel_position(bp, &world()), vec2(0.0, 0.0));
    let bp = make_position(1.0, 1.0);
    assert_eq!(pixel_position(bp, &world()), vec2(2.0, 2.0));
}

#[test]
fn it_places_particles_in_map() {
    let (mut map, mut neighbourhood_ids_buffer, particles) = setup();
    pixelize(&mut map, &particles, &mut neighbourhood_ids_buffer);
    assert_eq!(map, [
        0,   O, 0,
        2+O, 1+O, 0,
        0,   0,   3+O
    ]);
}

#[test]
fn it_finds_particles_around_the_centre() {
    let (mut map, mut neighbourhood_ids_buffer, positions) = setup();
    pixelize(&mut map, &positions, &mut neighbourhood_ids_buffer);
    let velocities = [vec2(0.0, 0.0); 4];
    let propogations = [ParticlePropogation::default(); 4];
    let mut neighbours = NeighbouringParticles::recruit_from_global(
        1,
        &positions,
        &velocities,
        &propogations,
        &neighbourhood_ids_buffer,
        0,
    );
    assert_eq!(neighbours.length(), 3);
    for i in 0..MAX_NEIGHBOURS {
        println!("{}", neighbours.get_neighbour(i as u32).id);
    }
    assert_eq!(neighbours.get_neighbour(0).id, 0);
    assert_eq!(neighbours.get_neighbour(1).id, 2);
    assert_eq!(neighbours.get_neighbour(2).id, 1);
    assert_eq!(neighbours.get_neighbour(3).id, 0);
}

#[test]
fn it_finds_particles_around_the_bottom_left() {
    let (mut map, mut neighbourhood_ids_buffer, positions) = setup();
    pixelize(&mut map, &positions, &mut neighbourhood_ids_buffer);
    let velocities = [vec2(0.0, 0.0); 4];
    let propogations = [ParticlePropogation::default(); 4];
    let mut neighbours = NeighbouringParticles::recruit_from_global(
        3,
        &positions,
        &velocities,
        &propogations,
        &neighbourhood_ids_buffer,
        0,
    );
    assert_eq!(neighbours.length(), 1);
    assert_eq!(neighbours.get_neighbour(0).id, 3);
    assert_eq!(neighbours.get_neighbour(1).id, 0);
}

#[test]
fn neighbours_are_recruited_with_what_a_stage_needs() {
    let positions = [vec2(0.1, 0.1), vec2(0.2, 0.2)];
    let velocities = [vec2(0.5, 0.5), vec2(0.6, 0.6)];
    let propogations = [
        ParticlePropogation {
            previous: vec2(0.0, 0.1),
            lambda: fx(0.25),
        },
        ParticlePropogation {
            previous: vec2(0.0, 0.2),
            lambda: fx(0.5),
        },
    ];
    let ids: NeighbourhoodIDs = [1, 1, 0, 0, 0, 0, 0, 0, 0, 0];
    let mut first =
        NeighbouringParticles::recruit_from_ids(0, &positions, &velocities, &propogations, ids, 0);
    assert_eq!(first.get_neighbour(0).velocity, vec2(0.6, 0.6));
    assert_eq!(first.get_neighbour(0).lambda, fx(0.0));
    let mut second =
        NeighbouringParticles::recruit_from_ids(0, &positions, &velocities, &propogations, ids, 1);
    assert_eq!(second.get_neighbour(0).previous, vec2(0.0, 0.2));
    assert_eq!(second.get_neighbour(0).lambda, fx(0.5));
    let mut third =
        NeighbouringParticles::recruit_from_ids(0, &positions, &velocities, &propogations, ids, 2);
    assert_eq!(third.length(), 1);
    assert_eq!(third.get_neighbour(0).id, 0);
    assert_eq!(third.get_neighbour(0).position, Vec2::default());
}

#[test]
fn the_standard_world_has_a_grid_twice_as_fine_as_its_map() {
    let world = World::default();
    assert_eq!(world.get_grid_width(), 600);
    assert_eq!(world.get_grid_height(), 600);
    // The influence factor of 3 times the radius of a particle, which is a
    // three-hundredth.
    assert_eq!(world.influence().raw, 3 * 16_777_216 / 300);
}
