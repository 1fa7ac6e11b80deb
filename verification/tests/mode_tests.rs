use vircam::{ActiveMode, DecodeError, ModeState};

fn png_bytes(width: u32, height: u32) -> Vec<u8> {
    let mut pixels: Vec<u8> = Vec::new();
    for i in 0..(width * height) {
        pixels.push((i % 251) as u8);
        pixels.push((i % 13) as u8 * 17);
        pixels.push(200);
        pixels.push(255);
    }
    let img = image::RgbaImage::from_raw(width, height, pixels).unwrap();
    let mut buf: Vec<u8> = Vec::new();
    img.write_to(&mut std::io::Cursor::new(&mut buf), image::ImageFormat::Png)
        .unwrap();
    buf
}

#[test]
fn set_mask_twice_equals_once() {
    let mut once = ModeState::new(640, 480);
    once.set_mask(true);
    let mut twice = ModeState::new(640, 480);
    twice.set_mask(true);
    twice.set_mask(true);
    assert_eq!(once.mask_enabled, twice.mask_enabled);
    assert_eq!(once.debug, twice.debug);
    assert!(once.background.is_none() && twice.background.is_none());
}

#[test]
fn set_mask_clears_cached_background() {
    let mut mode = ModeState::new(32, 16);
    mode.set_background(&png_bytes(8, 8)).unwrap();
    assert!(mode.background.is_some());
    mode.set_mask(true);
    assert!(mode.background.is_none());
    assert!(mode.mask_enabled);
}

#[test]
fn set_background_resizes_to_session_resolution() {
    let mut mode = ModeState::new(640, 480);
    mode.set_background(&png_bytes(64, 64)).unwrap();
    let bg = mode.background.as_ref().expect("background cached");
    assert_eq!(bg.width, 640);
    assert_eq!(bg.height, 480);
    assert_eq!(bg.pixels.len(), 640 * 480 * 4);
    assert!(!mode.mask_enabled);
}

#[test]
fn set_background_with_larger_image_still_matches_session() {
    let mut mode = ModeState::new(48, 36);
    mode.set_background(&png_bytes(200, 100)).unwrap();
    let bg = mode.background.as_ref().expect("background cached");
    assert_eq!((bg.width, bg.height), (48, 36));
    assert_eq!(bg.pixels.len(), 48 * 36 * 4);
}

#[test]
fn set_background_malformed_bytes_rejected() {
    let mut mode = ModeState::new(64, 48);
    mode.set_mask(true);
    let r = mode.set_background(&vec![1u8, 2, 3, 4, 5]);
    assert_eq!(r, Err(DecodeError::Malformed));
    assert!(mode.background.is_none());
    assert!(mode.mask_enabled);
}

#[test]
fn set_debug_is_independent() {
    let mut mode = ModeState::new(64, 48);
    mode.set_mask(true);
    mode.set_debug(true);
    assert!(mode.debug);
    assert!(mode.mask_enabled);
    mode.set_debug(false);
    assert!(!mode.debug);
    assert!(mode.mask_enabled);
}

#[test]
fn debug_overrides_blur_and_replace() {
    let mut mode = ModeState::new(32, 16);
    mode.set_mask(true);
    mode.set_debug(true);
    assert_eq!(mode.selected_mode(), ActiveMode::DebugOverlay);
    mode.set_debug(false);
    assert_eq!(mode.selected_mode(), ActiveMode::Blur);
}

#[test]
fn background_selects_replace_and_clears_blur() {
    let mut mode = ModeState::new(32, 16);
    mode.set_mask(true);
    mode.set_background(&png_bytes(8, 8)).unwrap();
    assert_eq!(mode.selected_mode(), ActiveMode::Replace);
    assert!(!mode.mask_enabled);
}

#[test]
fn fresh_state_is_passthrough_and_skips_inference() {
    let mode = ModeState::new(32, 16);
    assert_eq!(mode.selected_mode(), ActiveMode::Passthrough);
    assert!(!mode.needs_mask());
    let mut blur = ModeState::new(32, 16);
    blur.set_mask(true);
    assert!(blur.needs_mask());
}
