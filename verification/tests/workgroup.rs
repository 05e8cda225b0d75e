use wrach::math::Vec2;
use wrach::physics::world::World;
use wrach::scalar::Scalar;
use wrach::shaders::compute::{entry, GPUIdentifiers, Params};
use wrach::shaders::neighbours::NeighbouringParticles;
use wrach::shaders::particle::{
    ParticleGlobal, ParticleIDGlobal, ParticleIDLocal, ParticleLocal,
};
use wrach::shaders::workgroup::{WorkGroupData, WorkGroupDimensions};
use wrach::shaders::world::standard;

fn fx(value: f64) -> Scalar {
    Scalar::from_single_bits((value as f32).to_bits())
}

fn vec2(x: f64, y: f64) -> Vec2 {
    Vec2::new(fx(x), fx(y))
}

fn world() -> World {
    World {
        num_particles: 4,
        map_width: 3,
        map_height: 3,
        grid_resolution: 1,
        influence_factor: 1,
        local_columns: 2,
    }
}

fn global(x: f64, y: f64) -> ParticleGlobal {
    ParticleGlobal {
        position: vec2(x, y),
        ..Default::default()
    }
}

#[test]
fn null_ids_are_the_largest() {
    assert_eq!(ParticleIDGlobal::null(), u32::MAX);
    assert_eq!(ParticleIDLocal::null(), u32::MAX);
}

#[test]
fn a_thread_knows_its_particle() {
    let ids = GPUIdentifiers {
        global: 130,
        workgroup: 1,
        local: 2,
    };
    assert_eq!(ids.global_id_to_particle_id(), ParticleIDGlobal { id: 130 });
}

#[test]
fn local_particles_keep_what_the_device_keeps() {
    let particle = ParticleGlobal {
        position: vec2(0.5, -0.5),
        velocity: vec2(0.1, 0.2),
        ..Default::default()
    };
    let local = ParticleLocal::new(ParticleIDGlobal { id: 7 }, particle);
    assert_eq!(local.id_global.id, 7);
    assert_eq!(local.position, particle.position);
    assert_eq!(local.velocity, particle.velocity);
    assert_eq!(local.lambda, fx(0.0));
    assert_eq!(local.to_global(), particle);
    assert_eq!(local.pixel_position(&world()), vec2(1.5, 0.5));
    assert_eq!(particle.pixel_position(&world()), vec2(1.5, 0.5));
}

#[test]
fn particles_are_placed_in_the_pixel_grid() {
    let particles = [
        global(0.2, -0.2),
        global(0.001, 0.001),
        global(-0.2, 0.2),
        global(1.0, 1.0),
    ];
    let mut pixel_grid = [ParticleIDGlobal {
        id: ParticleIDGlobal::null(),
    }; 9];
    for id in 0..4 {
        NeighbouringParticles::place_particle_in_pixel_grid(
            ParticleIDGlobal { id },
            &particles,
            &mut pixel_grid,
            &world(),
        );
    }
    let ids: Vec<u32> = pixel_grid.iter().map(|id| id.id).collect();
    let none = u32::MAX;
    assert_eq!(ids, vec![none, 0, none, 2, 1, none, none, none, 3]);
}

#[test]
fn the_memory_of_a_workgroup_is_made_ready() {
    let mut data = WorkGroupData::new(world());
    assert_eq!(data.pixel_grid.len(), 4);
    assert_eq!(data.neighbours.len(), 128 * 9);
    data.workgroup_id = 3;
    data.particles_count = 2;
    data.populate(0, &[], &[]);
    assert_eq!(data.particles_count, 0);
    // Two workgroups to a row of three grid points.
    assert_eq!(
        data.dimensions,
        WorkGroupDimensions {
            x: 0,
            y: 0,
            width: 4
        }
    );

    let standard = WorkGroupData::new(standard());
    assert_eq!(standard.pixel_grid.len(), 625);
    assert_eq!(standard.neighbours.len(), 128 * 49);
}

#[test]
fn particles_are_shared_out_among_the_threads() {
    let mut data = WorkGroupData::new(world());
    data.particles[0].id_global.id = 10;
    data.particles[1].id_global.id = 11;
    data.particles_count = 2;
    assert_eq!(data.particle_for_work_item(0, 0).id_global.id, 10);
    assert_eq!(data.particle_for_work_item(1, 0).id_global.id, 11);
    assert_eq!(data.particle_for_work_item(2, 0).id_global.id, u32::MAX);
    assert_eq!(data.particle_for_work_item(0, 1).id_global.id, u32::MAX);
    assert_eq!(
        data.particle_for_work_item(u32::MAX, u32::MAX).id_global.id,
        u32::MAX
    );
}

#[test]
fn neighbours_are_stored_behind_their_number() {
    let mut data = WorkGroupData::new(world());
    data.store_neighbour(2, 0, ParticleIDLocal { id: 5 });
    data.store_neighbour(2, 1, ParticleIDLocal { id: 6 });
    assert_eq!(data.neighbours[2 * 9 + 1].id, 5);
    assert_eq!(data.neighbours[2 * 9 + 2].id, 6);
    assert_eq!(data.neighbours[2 * 9].id, 0);
}

#[test]
fn neighbours_are_found_in_the_memory_of_the_workgroup() {
    let mut data = WorkGroupData::new(world());
    data.dimensions = WorkGroupDimensions {
        x: 0,
        y: 0,
        width: 2,
    };
    data.particles[0].position = vec2(-1.0, -1.0);
    data.particles[1].position = vec2(-0.8, -1.0);
    data.particles[2].position = vec2(-1.0, 0.9);
    data.particles_count = 3;
    data.pixel_grid[0] = ParticleIDLocal { id: 0 };
    data.pixel_grid[1] = ParticleIDLocal { id: 1 };
    data.pixel_grid[2] = ParticleIDLocal { id: 2 };
    let particle = data.particles[0];
    NeighbouringParticles::find(5, particle, &mut data);
    assert_eq!(data.neighbours_count[5], 2);
    assert_eq!(data.neighbours[5 * 9 + 1].id, 0);
    assert_eq!(data.neighbours[5 * 9 + 2].id, 1);
    assert_eq!(data.neighbours[5 * 9 + 3].id, 0);

    let search = NeighbouringParticles::new(5, particle);
    assert_eq!(search.count, 0);
    assert_eq!(search.thread_id, 5);
}

#[test]
fn a_thread_enters_and_finds_no_particles_yet() {
    let mut data = WorkGroupData::new(world());
    data.particles_count = 3;
    let ids = GPUIdentifiers {
        global: 130,
        workgroup: 1,
        local: 2,
    };
    entry(ids, &Params { stage: 0 }, &[], &[], &mut data, &[]);
    assert_eq!(data.workgroup_id, 1);
    assert_eq!(data.particles_count, 0);
    assert_eq!(
        data.dimensions,
        WorkGroupDimensions {
            x: 0,
            y: -1,
            width: 4
        }
    );
}
