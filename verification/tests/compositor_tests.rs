use vircam::{
    blend, blur_background, replace_background, show_mask_overlay, Frame, Mask, MaskOffset,
};

fn zero_offset() -> MaskOffset {
    MaskOffset { dx: 0, dy: 0 }
}

fn frame_from(width: usize, height: usize, pixels: Vec<u8>) -> Frame {
    assert_eq!(pixels.len(), width * height * 4);
    Frame { width, height, pixels }
}

fn mask_from(width: usize, height: usize, values: Vec<u8>) -> Mask {
    assert_eq!(values.len(), width * height);
    Mask { width, height, values }
}

fn checkerboard(width: usize, height: usize) -> Frame {
    let mut pixels: Vec<u8> = Vec::new();
    for y in 0..height {
        for x in 0..width {
            let v = if (x + y) % 2 == 0 { 0u8 } else { 255u8 };
            pixels.extend_from_slice(&[v, v, v, 255]);
        }
    }
    Frame { width, height, pixels }
}

#[test]
fn blend_all_zero_mask_yields_secondary_rgb_original_alpha() {
    let original = frame_from(2, 2, vec![10, 20, 30, 40].repeat(4));
    let secondary = frame_from(2, 2, vec![100, 110, 120, 130].repeat(4));
    let mask = Mask::new_filled(2, 2, 0);
    let out = blend(&original, &secondary, &mask, zero_offset());
    for p in 0..4 {
        assert_eq!(out.pixels[p * 4], 100);
        assert_eq!(out.pixels[p * 4 + 1], 110);
        assert_eq!(out.pixels[p * 4 + 2], 120);
        assert_eq!(out.pixels[p * 4 + 3], 40);
    }
}

#[test]
fn blend_all_one_mask_yields_original() {
    let original = frame_from(2, 2, vec![10, 20, 30, 40].repeat(4));
    let secondary = frame_from(2, 2, vec![100, 110, 120, 130].repeat(4));
    let mask = Mask::new_filled(2, 2, 255);
    let out = blend(&original, &secondary, &mask, zero_offset());
    assert_eq!(out.pixels, original.pixels);
}

#[test]
fn blend_mid_mask_exact_fixed_point_mix() {
    let original = frame_from(1, 1, vec![200, 0, 50, 77]);
    let secondary = frame_from(1, 1, vec![100, 255, 50, 5]);
    let mask = Mask::new_filled(1, 1, 128);
    let out = blend(&original, &secondary, &mask, zero_offset());
    // channel = (original * m + secondary * (255 - m)) / 255, truncated
    assert_eq!(out.pixels[0], ((200u32 * 128 + 100 * 127) / 255) as u8);
    assert_eq!(out.pixels[1], ((0u32 * 128 + 255 * 127) / 255) as u8);
    assert_eq!(out.pixels[2], 50);
    assert_eq!(out.pixels[3], 77);
}

#[test]
fn blend_offset_shifts_and_clamps_mask_sampling() {
    // 2x1 frames; mask is [0, 255]; with dx = 1 pixel 0 samples mask[1]
    // and pixel 1 clamps to mask[1] as well.
    let original = frame_from(2, 1, vec![200, 200, 200, 9, 200, 200, 200, 9]);
    let secondary = frame_from(2, 1, vec![0, 0, 0, 1, 0, 0, 0, 1]);
    let mask = mask_from(2, 1, vec![0, 255]);
    let out = blend(&original, &secondary, &mask, MaskOffset { dx: 1, dy: 0 });
    assert_eq!(&out.pixels[0..4], &[200, 200, 200, 9]);
    assert_eq!(&out.pixels[4..8], &[200, 200, 200, 9]);
    // with dx = -1, pixel 0 clamps to mask[0] and pixel 1 samples mask[0].
    let out2 = blend(&original, &secondary, &mask, MaskOffset { dx: -1, dy: 0 });
    assert_eq!(&out2.pixels[0..4], &[0, 0, 0, 9]);
    assert_eq!(&out2.pixels[4..8], &[0, 0, 0, 9]);
}

#[test]
fn overlay_washes_foreground_green_only() {
    let frame = frame_from(2, 1, vec![100, 100, 100, 42, 200, 40, 250, 7]);
    let mask = mask_from(2, 1, vec![128, 127]);
    let out = show_mask_overlay(&frame, &mask, zero_offset());
    // mask 128 > threshold: red and blue halved, green pushed to mid-range.
    assert_eq!(&out.pixels[0..4], &[50, 50 + 127, 50, 42]);
    // mask 127 is at the threshold: untouched.
    assert_eq!(&out.pixels[4..8], &[200, 40, 250, 7]);
}

#[test]
fn replace_background_blends_cached_image() {
    let original = frame_from(1, 1, vec![255, 255, 255, 200]);
    let background = frame_from(1, 1, vec![1, 3, 5, 7]);
    let mask = Mask::new_filled(1, 1, 0);
    let out = replace_background(&original, &background, &mask, zero_offset());
    assert_eq!(out.pixels, vec![1, 3, 5, 200]);
}

#[test]
fn blur_background_changes_high_frequency_content() {
    let frame = checkerboard(16, 16);
    let mask = Mask::new_filled(16, 16, 0);
    let out = blur_background(&frame, &mask, 10, zero_offset());
    assert_eq!(out.pixels.len(), 16 * 16 * 4);
    // with an all-zero mask the output is exactly the blurred copy, which
    // differs from a 1-pixel checkerboard on every colour byte.
    let mut all_rgb_differ = true;
    for i in 0..(16 * 16) {
        for c in 0..3 {
            if out.pixels[i * 4 + c] == frame.pixels[i * 4 + c] {
                all_rgb_differ = false;
            }
        }
        assert_eq!(out.pixels[i * 4 + 3], frame.pixels[i * 4 + 3]);
    }
    assert!(all_rgb_differ);
}

#[test]
fn blend_keeps_alpha_for_any_mask() {
    let original = frame_from(2, 2, vec![9, 8, 7, 6].repeat(4));
    let secondary = frame_from(2, 2, vec![1, 2, 3, 250].repeat(4));
    for mv in [0u8, 1, 127, 128, 254, 255] {
        let mask = Mask::new_filled(2, 2, mv);
        let out = blend(&original, &secondary, &mask, MaskOffset { dx: 3, dy: -2 });
        for p in 0..4 {
            assert_eq!(out.pixels[p * 4 + 3], 6);
        }
    }
}
