use vircam::{CancellationFlag, Frame, SharedFrameSlot};

fn frame_filled(width: usize, height: usize, value: u8) -> Frame {
    Frame::new_filled(width, height, value)
}

#[test]
fn publish_then_take_returns_latest() {
    let mut slot = SharedFrameSlot::new();
    let a = frame_filled(4, 2, 10);
    let b = frame_filled(4, 2, 20);
    slot.publish(a);
    slot.publish(b);
    let taken = slot.take_latest().expect("slot should hold a frame");
    assert_eq!(taken.pixels, vec![20u8; 4 * 2 * 4]);
    assert_eq!(taken.width, 4);
    assert_eq!(taken.height, 2);
}

#[test]
fn take_empties_the_slot() {
    let mut slot = SharedFrameSlot::new();
    slot.publish(frame_filled(2, 2, 5));
    assert!(slot.take_latest().is_some());
    assert!(slot.take_latest().is_none());
}

#[test]
fn take_from_fresh_slot_is_none() {
    let mut slot = SharedFrameSlot::new();
    assert!(slot.take_latest().is_none());
}

#[test]
fn publish_never_queues() {
    let mut slot = SharedFrameSlot::new();
    for v in 0..5u8 {
        slot.publish(frame_filled(2, 1, v));
    }
    let taken = slot.take_latest().expect("slot should hold a frame");
    assert_eq!(taken.pixels[0], 4);
    assert!(slot.take_latest().is_none());
}

#[test]
fn cancellation_flag_sets_once() {
    let mut flag = CancellationFlag::new();
    assert!(!flag.is_cancelled());
    flag.set();
    assert!(flag.is_cancelled());
    flag.set();
    assert!(flag.is_cancelled());
}
