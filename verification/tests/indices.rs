use wrach::physics::indices::Indices;

fn setup(cell_index: usize) -> Indices {
    let indices_main = [
        0,  1, 1,
            1, 1
    ];
    let indices_aux = [
        0,  0, 0, 0,
            0, 0, 0,
            0, 0, 1
    ];
    Indices::new(&indices_main, &indices_aux, cell_index, 2, 0)
}

#[test]
fn calculates_indices_at_first_cell() {
    let indices = setup(0);

    assert_eq!(indices.centre.global.from, 0);
    assert_eq!(indices.centre.global.end_by, 1);
    assert_eq!(indices.centre.local.from, 0);
    assert_eq!(indices.centre.local.end_by, 1);

    assert_eq!(indices.top_left.global.from, 0);
    assert_eq!(indices.top_left.global.end_by, 0);
    assert_eq!(indices.top_left.local.from, 12);
    assert_eq!(indices.top_left.local.end_by, 12);

    assert_eq!(indices.top_right.global.from, 0);
    assert_eq!(indices.top_right.global.end_by, 0);
    assert_eq!(indices.top_right.local.from, 16);
    assert_eq!(indices.top_right.local.end_by, 16);
}

#[test]
fn calculates_indices_at_last_cell() {
    let indices = setup(3);

    assert_eq!(indices.centre.global.from, 1);
    assert_eq!(indices.centre.global.end_by, 1);
    assert_eq!(indices.centre.local.from, 0);
    assert_eq!(indices.centre.local.end_by, 0);

    assert_eq!(indices.top_left.global.from, 0);
    assert_eq!(indices.top_left.global.end_by, 0);
    assert_eq!(indices.top_left.local.from, 12);
    assert_eq!(indices.top_left.local.end_by, 12);

    assert_eq!(indices.top_right.global.from, 0);
    assert_eq!(indices.top_right.global.end_by, 1);
    assert_eq!(indices.top_right.local.from, 16);
    assert_eq!(indices.top_right.local.end_by, 17);
}
