mod compositor;
mod devices;
mod frame;
mod mode;
mod pipeline;
mod segmentation;
mod slot;

pub use compositor::{
    blend, blend_channel, blend_compatible, blend_frames_spec, blur_background, gaussian_blur_of,
    lemma_blend_all_one, lemma_blend_all_zero, lemma_blend_preserves_alpha,
    lemma_overlay_preserves_alpha, mask_fits, overlay_frames_spec, replace_background,
    show_mask_overlay, MaskOffset, DEFAULT_BLUR_SIGMA, DEFAULT_MASK_OFFSET_X,
    DEFAULT_MASK_OFFSET_Y,
};
pub use devices::Cameras;
pub use frame::{Frame, Mask};
pub use pipeline::{
    capture_emits_release, capture_event_valid, capture_next_state, composed_spec, compose_frame,
    lemma_compose_preserves_alpha, lemma_release_at_most_once, CaptureAction, CaptureEvent,
    CaptureLoop, CaptureState, ProcAction, ProcState, ProcessingLoop,
};
pub use mode::{
    lemma_set_mask_idempotent, selected_mode_spec, spec_set_background, spec_set_debug,
    spec_set_mask, ActiveMode, DecodeError, ModeState, ModeView,
};
pub use segmentation::{
    channel_first_of, finish_mask, prepare_model_input, rgb_of_rgba, strip_alpha,
    to_channel_first, triangle_resize_rgb_of, upscaled_grid, upscaled_value, MODEL_SIZE,
};
pub use slot::{lemma_publish_overwrites, slot_after_publish, CancellationFlag, SharedFrameSlot};
