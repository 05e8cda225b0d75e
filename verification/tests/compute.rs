use wrach::compute::buffers::{BufferId, BufferKind, Buffers};
use wrach::compute::builder::{div_ceil, PhysicsComputeWorker, ShaderId};
use wrach::compute::integration::IntegrationShader;
use wrach::compute::pack_particle_data::{pack_particles, PackNewParticleDataShader};
use wrach::compute::particles_cell_count::{count_particles, ParticlesPerCellCounterShader};
use wrach::compute::prefix_sum::{
    add_block_sums, exclusive_scan, reduce_downsweep, sweep_block_sums,
    PrefixSumShaderBoxSumsAux, PrefixSumShaderBoxSumsCommon, PrefixSumShaderBoxSumsMain,
    PrefixSumShaderDownSweepAux, PrefixSumShaderDownSweepCommon, PrefixSumShaderDownSweepMain,
};
use wrach::config_app::WrachConfig;
use wrach::config_shader::ShaderWorldSettings;
use wrach::math::{UVec2, Vec2};
use wrach::scalar::Scalar;
use wrach::state::WrachState;

fn fx(value: f64) -> Scalar {
    Scalar::from_single_bits((value as f32).to_bits())
}

fn vec2(x: f64, y: f64) -> Vec2 {
    Vec2::new(fx(x), fx(y))
}

fn settings(width: u32, height: u32, cell_size: u32, count: u32) -> ShaderWorldSettings {
    ShaderWorldSettings {
        view_dimensions: vec2(f64::from(width * cell_size), f64::from(height * cell_size)),
        view_anchor: vec2(0.0, 0.0),
        grid_dimensions: UVec2::new(width, height),
        cell_size,
        particles_in_frame_count: count,
    }
}

#[test]
fn workgroups_round_up() {
    assert_eq!(div_ceil(0, 64), 0);
    assert_eq!(div_ceil(1, 64), 1);
    assert_eq!(div_ceil(64, 64), 1);
    assert_eq!(div_ceil(65, 64), 2);
    assert_eq!(div_ceil(u32::MAX, 1), u32::MAX);
    assert_eq!(IntegrationShader::workgroups(130), [3, 1, 1]);
    assert_eq!(ParticlesPerCellCounterShader::workgroups(164), [3, 1, 1]);
    assert_eq!(PackNewParticleDataShader::workgroups(64), [1, 1, 1]);
    assert_eq!(PrefixSumShaderDownSweepCommon::workgroups(2048), [1, 1, 1]);
    assert_eq!(PrefixSumShaderDownSweepCommon::workgroups(2049), [2, 1, 1]);
    assert_eq!(PrefixSumShaderBoxSumsCommon::workgroups(4_194_304), [2048, 1, 1]);
}

#[test]
fn shaders_have_their_entry_points() {
    assert_eq!(IntegrationShader::entry_point(), "main");
    assert_eq!(ParticlesPerCellCounterShader::entry_point(), "main");
    assert_eq!(PackNewParticleDataShader::entry_point(), "main");
    assert_eq!(PrefixSumShaderDownSweepMain::entry_point(), "reduce_downsweep_main");
    assert_eq!(PrefixSumShaderDownSweepAux::entry_point(), "reduce_downsweep_aux");
    assert_eq!(PrefixSumShaderBoxSumsMain::entry_point(), "add_block_sums_main");
    assert_eq!(PrefixSumShaderBoxSumsAux::entry_point(), "add_block_sums_aux");
    assert!(PrefixSumShaderBoxSumsAux::shader().ends_with("prefix_sum.wgsl"));
    assert!(PrefixSumShaderBoxSumsMain::shader().ends_with("prefix_sum.wgsl"));
    assert!(PrefixSumShaderDownSweepAux::shader().ends_with("prefix_sum.wgsl"));
    assert!(PrefixSumShaderDownSweepMain::shader().ends_with("prefix_sum.wgsl"));
    assert!(IntegrationShader::shader().ends_with("wrach_physics.spv"));
    assert!(ParticlesPerCellCounterShader::shader().ends_with("particles_per_cell.wgsl"));
    assert!(PackNewParticleDataShader::shader().ends_with("pack_new_particle_data.wgsl"));
}

#[test]
fn buffers_have_their_names_and_kinds() {
    assert_eq!(BufferId::WorldSettings.name(), Buffers::WORLD_SETTINGS_UNIFORM);
    assert_eq!(BufferId::IndicesMain.name(), "indices_main");
    assert_eq!(BufferId::IndicesAux.name(), "indices_aux");
    assert_eq!(BufferId::IndicesBlockSums.name(), "indices_block_sums");
    assert_eq!(BufferId::PositionsIn.name(), "positions_in");
    assert_eq!(BufferId::PositionsOut.name(), "positions_out");
    assert_eq!(BufferId::VelocitiesIn.name(), "velocities_in");
    assert_eq!(BufferId::VelocitiesOut.name(), "velocities_out");
    assert_eq!(BufferId::PositionsAux.name(), "positions_aux");
    assert_eq!(BufferId::VelocitiesAux.name(), "velocities_aux");
    assert_eq!(BufferId::WorldSettings.kind(), BufferKind::Uniform);
    assert_eq!(BufferId::IndicesMain.kind(), BufferKind::Staging);
    assert_eq!(BufferId::IndicesBlockSums.kind(), BufferKind::Storage);
    assert_eq!(BufferId::PositionsIn.kind(), BufferKind::Storage);
    assert_eq!(BufferId::PositionsOut.kind(), BufferKind::Staging);
}

#[test]
fn a_small_grid_has_five_passes() {
    let mut state = WrachState::new(WrachConfig {
        dimensions: (10, 10),
        cell_size: 3,
        ..Default::default()
    })
    .unwrap();
    let worker = PhysicsComputeWorker::build(&mut state).unwrap();
    let shaders: Vec<ShaderId> = worker.passes.iter().map(|pass| pass.shader).collect();
    assert_eq!(
        shaders,
        vec![
            ShaderId::ParticlesPerCellCounter,
            ShaderId::PrefixSumDownSweepMain,
            ShaderId::PrefixSumDownSweepAux,
            ShaderId::PackNewParticleData,
            ShaderId::Integration,
        ]
    );
    assert_eq!(worker.passes[0].workgroups, [3, 1, 1]);
    assert_eq!(worker.passes[4].workgroups, [1, 1, 1]);
    assert_eq!(worker.indices_main.len(), 18);
    assert_eq!(worker.indices_aux.len(), 27);
    assert_eq!(worker.positions_in.len(), 159);
    assert_eq!(worker.positions_aux.len(), 4 * 159);
    assert_eq!(
        worker.passes[1].buffers,
        vec![
            BufferId::WorldSettings,
            BufferId::IndicesMain,
            BufferId::IndicesBlockSums
        ]
    );
    assert_eq!(state.shader_settings.grid_dimensions, UVec2::new(4, 4));
    assert_eq!(state.shader_settings.cell_size, 3);
}

#[test]
fn a_large_grid_sums_its_blocks_too() {
    let mut state = WrachState::new(WrachConfig {
        dimensions: (500, 300),
        cell_size: 6,
        exclude_integration_pass: true,
        ..Default::default()
    })
    .unwrap();
    let worker = PhysicsComputeWorker::build(&mut state).unwrap();
    let shaders: Vec<ShaderId> = worker.passes.iter().map(|pass| pass.shader).collect();
    assert_eq!(
        shaders,
        vec![
            ShaderId::ParticlesPerCellCounter,
            ShaderId::PrefixSumDownSweepMain,
            ShaderId::PrefixSumDownSweepMain,
            ShaderId::PrefixSumBoxSumsMain,
            ShaderId::PrefixSumDownSweepAux,
            ShaderId::PrefixSumDownSweepAux,
            ShaderId::PrefixSumBoxSumsAux,
            ShaderId::PackNewParticleData,
        ]
    );
    // 84 by 51 cells, and two more items.
    assert_eq!(worker.indices_main.len(), 84 * 51 + 2);
    assert_eq!(worker.passes[1].workgroups, [3, 1, 1]);
    assert_eq!(worker.passes[2].workgroups, [1, 1, 1]);
    assert_eq!(
        worker.passes[2].buffers,
        vec![
            BufferId::WorldSettings,
            BufferId::IndicesBlockSums,
            BufferId::IndicesBlockSums
        ]
    );
}

#[test]
fn counting_fills_the_slots_after_the_cells() {
    let settings = settings(2, 2, 5, 5);
    let positions = [
        vec2(0.1, 0.1),
        vec2(2.0, 2.0),
        vec2(7.0, 1.0),
        vec2(9.9, 9.9),
        vec2(10.0, 3.0),
    ];
    let mut main = [0u32; 6];
    let mut aux = [0u32; 11];
    count_particles(&settings, &positions, &mut main, &mut aux);
    // The last particle is outside the grid.
    assert_eq!(main, [0, 2, 1, 0, 1, 0]);
    // Corners: cell 0 touches 0, 1, 3, 4; cell 1 touches 1, 2, 4, 5; cell 3
    // touches 4, 5, 7, 8.
    assert_eq!(aux, [0, 2, 3, 1, 2, 4, 2, 0, 1, 1, 0]);
}

#[test]
fn the_prefix_sum_is_exclusive() {
    let mut items = [0u32, 1, 0, 3, 2];
    let mut sums = [0u32; 1];
    exclusive_scan(&mut items, &mut sums, 5);
    assert_eq!(items, [0, 0, 1, 1, 4]);
}

#[test]
fn the_prefix_sum_of_many_blocks_adds_the_blocks_before() {
    let total: u32 = 5000;
    let mut items: Vec<u32> = (0..total).map(|i| i % 3).collect();
    let before = items.clone();
    let mut sums = vec![0u32; 3];
    exclusive_scan(&mut items, &mut sums, total);
    let mut expected = Vec::new();
    let mut sum = 0;
    for value in &before {
        expected.push(sum);
        sum += value;
    }
    assert_eq!(items, expected);
}

#[test]
fn the_stages_of_the_prefix_sum() {
    let total: u32 = 4100;
    let mut items: Vec<u32> = vec![1; 4100];
    items.push(77);
    let mut sums = vec![9u32; 4];
    reduce_downsweep(&mut items, &mut sums, total);
    assert_eq!(items[0], 0);
    assert_eq!(items[2047], 2047);
    assert_eq!(items[2048], 0);
    assert_eq!(items[4099], 3);
    assert_eq!(items[4100], 77);
    assert_eq!(sums, vec![2048, 2048, 4, 9]);
    sweep_block_sums(&mut sums, 3);
    assert_eq!(sums, vec![0, 2048, 4096, 9]);
    add_block_sums(&mut items, &sums, total);
    assert_eq!(items[2047], 2047);
    assert_eq!(items[2048], 2048);
    assert_eq!(items[4099], 4099);
    assert_eq!(items[4100], 77);
}

#[test]
fn packing_puts_particles_into_the_ranges_of_their_cells() {
    let settings = settings(2, 2, 5, 5);
    let mut positions = [
        vec2(9.9, 9.9),
        vec2(0.1, 0.1),
        vec2(10.0, 3.0),
        vec2(7.0, 1.0),
        vec2(2.0, 2.0),
    ];
    let mut velocities = [
        vec2(0.4, 0.0),
        vec2(0.1, 0.0),
        vec2(0.5, 0.0),
        vec2(0.3, 0.0),
        vec2(0.2, 0.0),
    ];
    let mut main = [0u32; 6];
    let mut aux = [0u32; 11];
    let mut sums = [0u32; 1];
    count_particles(&settings, &positions, &mut main, &mut aux);
    exclusive_scan(&mut main, &mut sums, 6);
    exclusive_scan(&mut aux, &mut sums, 11);
    assert_eq!(main, [0, 0, 2, 3, 3, 4]);
    let mut positions_aux = [Vec2::default(); 20];
    let mut velocities_aux = [Vec2::default(); 20];
    pack_particles(
        &settings,
        &main,
        &mut positions,
        &mut velocities,
        &aux,
        &mut positions_aux,
        &mut velocities_aux,
    );
    assert_eq!(
        positions,
        [
            vec2(0.1, 0.1),
            vec2(2.0, 2.0),
            vec2(7.0, 1.0),
            vec2(9.9, 9.9),
            vec2(2.0, 2.0),
        ]
    );
    assert_eq!(velocities[0], vec2(0.1, 0.0));
    assert_eq!(velocities[1], vec2(0.2, 0.0));
    assert_eq!(velocities[2], vec2(0.3, 0.0));
    assert_eq!(velocities[3], vec2(0.4, 0.0));
    // The centre of the auxiliary grid gathers all four particles.
    let centre = 4;
    let range = aux[centre + 1] as usize..aux[centre + 2] as usize;
    assert_eq!(
        positions_aux[range],
        [
            vec2(9.9, 9.9),
            vec2(0.1, 0.1),
            vec2(7.0, 1.0),
            vec2(2.0, 2.0)
        ]
    );
    assert_eq!(aux[10], 16);
}
