use vircam::{finish_mask, prepare_model_input, strip_alpha, to_channel_first, Frame};

#[test]
fn strip_alpha_keeps_colour_channels_in_order() {
    let frame = Frame {
        width: 2,
        height: 1,
        pixels: vec![1, 2, 3, 4, 5, 6, 7, 8],
    };
    let rgb = strip_alpha(&frame);
    assert_eq!(rgb, vec![1, 2, 3, 5, 6, 7]);
}

#[test]
fn channel_first_groups_planes() {
    let interleaved = vec![10, 20, 30, 11, 21, 31, 12, 22, 32];
    let planar = to_channel_first(&interleaved, 3);
    assert_eq!(planar, vec![10, 11, 12, 20, 21, 22, 30, 31, 32]);
}

#[test]
fn prepare_model_input_has_planar_model_shape() {
    let frame = Frame::new_filled(8, 6, 100);
    let input = prepare_model_input(&frame, 4);
    // three planes of a 4x4 grid; handing the 8x6 input through unresized
    // would give 144 bytes instead.
    assert_eq!(input.len(), 3 * 4 * 4);
}

#[test]
fn constant_mask_upscales_to_constant_mask() {
    let grid = vec![77u8; 4 * 4];
    let mask = finish_mask(&grid, 4, 9, 7);
    assert_eq!(mask.width, 9);
    assert_eq!(mask.height, 7);
    assert_eq!(mask.values.len(), 9 * 7);
    assert!(mask.values.iter().all(|&v| v == 77));
}

#[test]
fn constant_mask_upscales_to_frame_resolution() {
    let grid = vec![128u8; 16 * 16];
    let mask = finish_mask(&grid, 16, 640, 480);
    assert_eq!(mask.values.len(), 640 * 480);
    assert!(mask.values.iter().all(|&v| v == 128));
}

#[test]
fn upscale_aligns_endpoints() {
    // a 2x2 grid with black left column and white right column
    let grid = vec![0u8, 255, 0, 255];
    let mask = finish_mask(&grid, 2, 5, 3);
    // corners map to corners
    assert_eq!(mask.values[0], 0);
    assert_eq!(mask.values[4], 255);
    assert_eq!(mask.values[2 * 5], 0);
    assert_eq!(mask.values[2 * 5 + 4], 255);
    // the middle column is the exact midpoint mix, rounded to nearest
    assert_eq!(mask.values[2], 128);
}

#[test]
fn upscale_interpolates_not_nearest_neighbor() {
    let grid = vec![0u8, 255, 0, 255];
    let mask = finish_mask(&grid, 2, 9, 2);
    // strictly intermediate values exist between the endpoints
    assert!(mask.values[1..8].iter().any(|&v| v != 0 && v != 255));
}

#[test]
fn upscale_identity_when_dimensions_match() {
    let grid = vec![0u8, 100, 200, 255];
    let mask = finish_mask(&grid, 2, 2, 2);
    assert_eq!(mask.values, grid);
}
