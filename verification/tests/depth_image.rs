use arm_backend::depth_image::{depth_grid, fill_rect, simulation_depth, SimulationKind};

#[test]
fn rectangles_fill_inclusive_bounds_only() {
    let mut values = vec![0u16; 5 * 4];
    fill_rect(&mut values, 5, 1, 1, 3, 2, 9);
    let expected = [
        0, 0, 0, 0, 0, //
        0, 9, 9, 9, 0, //
        0, 9, 9, 9, 0, //
        0, 0, 0, 0, 0,
    ];
    assert_eq!(values, expected);
    let mut untouched = vec![1u16; 4];
    fill_rect(&mut untouched, 2, 1, 1, 0, 0, 9);
    assert_eq!(untouched, [1, 1, 1, 1]);
}

#[test]
fn simulated_scenes_place_their_boxes() {
    let pick = simulation_depth(SimulationKind::PickPlace, 640, 480);
    assert_eq!(pick.len(), 640 * 480);
    assert_eq!(pick[217 * 640 + 80], 630);
    assert_eq!(pick[359 * 640 + 580], 630);
    assert_eq!(pick[0], 0);
    let grid = simulation_depth(SimulationKind::DepthGrid, 640, 480);
    assert_eq!(grid[210 * 640 + 310], 400);
    assert_eq!(grid[210 * 640 + 350], 380);
    assert_eq!(grid[231 * 640 + 310], 0);
}

#[test]
fn depth_grid_keeps_its_boxes_at_the_reference_size() {
    let values = depth_grid(640, 480);
    assert_eq!(values.len(), 640 * 480);
    assert_eq!(values[210 * 640 + 310], 400);
    assert_eq!(values[230 * 640 + 330], 400);
    assert_eq!(values[231 * 640 + 330], 0);
    assert_eq!(values[215 * 640 + 352], 380);
    assert_eq!(values[218 * 640 + 352], 0);
    assert_eq!(values[215 * 640 + 357], 0);
}

#[test]
fn depth_grid_scales_its_boxes_to_the_frame() {
    let values = depth_grid(320, 240);
    assert_eq!(values.len(), 320 * 240);
    assert_eq!(values[104 * 320 + 154], 400);
    assert_eq!(values[114 * 320 + 164], 400);
    assert_eq!(values[115 * 320 + 164], 0);
    assert_eq!(values[103 * 320 + 154], 0);
    assert_eq!(values[104 * 320 + 165], 0);
    assert_eq!(values[108 * 320 + 177], 380);
    assert_eq!(values[109 * 320 + 177], 0);
    assert_eq!(values.iter().filter(|v| **v == 380).count(), 4 * 5);
}

#[test]
fn a_single_pixel_grid_is_covered_by_both_boxes() {
    assert_eq!(depth_grid(1, 1), vec![380]);
}
