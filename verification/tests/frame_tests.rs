use vircam::{Cameras, Frame, Mask};

#[test]
fn filled_frame_has_rgba_layout() {
    let f = Frame::new_filled(3, 2, 9);
    assert_eq!(f.width, 3);
    assert_eq!(f.height, 2);
    assert_eq!(f.pixels, vec![9u8; 3 * 2 * 4]);
}

#[test]
fn filled_mask_has_one_value_per_pixel() {
    let m = Mask::new_filled(5, 4, 200);
    assert_eq!(m.width, 5);
    assert_eq!(m.height, 4);
    assert_eq!(m.values, vec![200u8; 20]);
}

#[test]
fn camera_entry_keeps_id_and_name() {
    let c = Cameras::new(String::from("0"), String::from("front door"));
    assert_eq!(c.id, "0");
    assert_eq!(c.name, "front door");
}
