use wrach::math::{UVec2, Vec2, Vec4};
use wrach::scalar::Scalar;
use wrach::spatial_bin::{SpatialBin, SpatialBinCoord};

fn fx(value: f64) -> Scalar {
    Scalar::from_single_bits((value as f32).to_bits())
}

fn vec2(x: f64, y: f64) -> Vec2 {
    Vec2::new(fx(x), fx(y))
}

fn vec4(x: f64, y: f64, z: f64, w: f64) -> Vec4 {
    Vec4::new(fx(x), fx(y), fx(z), fx(w))
}

#[test]
fn calculating_a_cell_coord_in_the_middle() {
    let spatial_bin = SpatialBin::new(3, vec4(0.0, 0.0, 6.0, 6.0)).unwrap();
    let coord = spatial_bin.get_cell_coord(vec2(3.0, 3.0));
    assert_eq!(coord, SpatialBinCoord::new(1, 1));
}

#[test]
fn calculating_a_cell_coord_in_the_origin_cell() {
    let spatial_bin = SpatialBin::new(3, vec4(0.0, 0.0, 6.0, 6.0)).unwrap();
    let coord = spatial_bin.get_cell_coord(vec2(0.1, 0.1));
    assert_eq!(coord, SpatialBinCoord::new(0, 0));
}

#[test]
fn calculating_a_cell_coord_in_the_top_right() {
    let spatial_bin = SpatialBin::new(3, vec4(0.0, 0.0, 6.0, 6.0)).unwrap();
    let coord = spatial_bin.get_cell_coord(vec2(6.5, 6.5));
    assert_eq!(coord, SpatialBinCoord::new(2, 2));
}

#[test]
fn calculating_a_negative_cell_coord() {
    let spatial_bin = SpatialBin::new(3, vec4(0.0, 0.0, -6.0, -6.0)).unwrap();
    let coord = spatial_bin.get_cell_coord(vec2(-3.0, -3.0));
    assert_eq!(coord, SpatialBinCoord::new(-1, -1));
}

#[test]
fn calculating_active_cells_at_origin() {
    let spatial_bin = SpatialBin::new(6, vec4(0.0, 0.0, 10.0, 10.0)).unwrap();
    let (cells, grid) = spatial_bin.get_active_cells();
    assert_eq!(
        cells,
        vec![
            SpatialBinCoord::new(0, 0),
            SpatialBinCoord::new(1, 0),
            SpatialBinCoord::new(0, 1),
            SpatialBinCoord::new(1, 1)
        ]
    );

    assert_eq!(grid, UVec2::new(2, 2));
}

#[test]
fn calculating_grid_for_rectangle_viewport() {
    let spatial_bin = SpatialBin::new(6, vec4(0.0, 0.0, 15.0, 10.0)).unwrap();
    let (cells, grid) = spatial_bin.get_active_cells();
    assert_eq!(
        cells,
        vec![
            SpatialBinCoord::new(0, 0),
            SpatialBinCoord::new(1, 0),
            SpatialBinCoord::new(2, 0),
            SpatialBinCoord::new(0, 1),
            SpatialBinCoord::new(1, 1),
            SpatialBinCoord::new(2, 1),
        ]
    );

    assert_eq!(grid, UVec2::new(3, 2));
}

#[test]
fn calculating_active_cells_where_viewport_offsets_cells() {
    let spatial_bin = SpatialBin::new(6, vec4(3.3, 3.3, 9.0, 9.0)).unwrap();
    let (cells, _grid) = spatial_bin.get_active_cells();
    assert_eq!(
        cells,
        vec![
            SpatialBinCoord::new(0, 0),
            SpatialBinCoord::new(1, 0),
            SpatialBinCoord::new(0, 1),
            SpatialBinCoord::new(1, 1)
        ]
    );
}

#[test]
fn calculating_active_cells_with_negative_viewport() {
    let spatial_bin = SpatialBin::new(6, vec4(-5.0, -5.0, 0.0, 0.0)).unwrap();
    let (cells, _grid) = spatial_bin.get_active_cells();
    assert_eq!(
        cells,
        vec![
            SpatialBinCoord::new(-1, -1),
            SpatialBinCoord::new(0, -1),
            SpatialBinCoord::new(-1, 0),
            SpatialBinCoord::new(0, 0),
        ]
    );
}

#[test]
fn calculating_total_aux_cells() {
    let spatial_bin = SpatialBin::new(2, vec4(0.0, 0.0, 4.0, 4.0)).unwrap();
    let (cells, _grid) = spatial_bin.get_active_cells();
    assert_eq!(cells.len(), 9);

    let aux_cells = spatial_bin.calculate_total_aux_cells();
    assert_eq!(aux_cells, 16);
}
