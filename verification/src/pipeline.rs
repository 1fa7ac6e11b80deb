use vstd::prelude::*;

use crate::compositor::{
    blend_frames_spec, blur_background, gaussian_blur_of, lemma_blend_preserves_alpha,
    lemma_overlay_preserves_alpha, overlay_frames_spec, replace_background, show_mask_overlay,
    MaskOffset,
};
use crate::frame::{Frame, Mask};
use crate::mode::{selected_mode_spec, ActiveMode, ModeState, ModeView};
use crate::slot::CancellationFlag;

verus! {

/// The composited output for `frame` under mode view `v`: the debug
/// overlay when debug is set; otherwise the blend over a Gaussian-blurred
/// copy when blur is toggled; otherwise the blend over the cached
/// background when one is present; otherwise the frame unchanged.
pub open spec fn composed_spec(
    frame: Frame,
    mask: Mask,
    v: ModeView,
    sigma: u16,
    off: MaskOffset,
) -> Seq<u8> {
    match selected_mode_spec(v) {
        ActiveMode::DebugOverlay => overlay_frames_spec(frame.pixels@, mask, off),
        ActiveMode::Blur => blend_frames_spec(
            frame.pixels@,
            gaussian_blur_of(frame.pixels@, frame.width as int, frame.height as int, sigma as int),
            mask,
            off,
        ),
        ActiveMode::Replace => blend_frames_spec(frame.pixels@, v.background->0, mask, off),
        ActiveMode::Passthrough => frame.pixels@,
    }
}

/// One processing tick's compositing step: apply the operation the mode
/// state selects.  A mask is passed exactly when the mode needs one
/// (everything but passthrough).
pub fn compose_frame(
    frame: &Frame,
    mask: Option<&Mask>,
    mode: &ModeState,
    sigma: u16,
    off: MaskOffset,
) -> (out: Frame)
    requires
        frame.wf(),
        mode.wf(),
        frame.width == mode.width,
        frame.height == mode.height,
        frame.width * frame.height * 4 <= usize::MAX,
        (mask matches Some(m) ==> m.wf() && m.width == frame.width && m.height == frame.height),
        (mask is Some) == (selected_mode_spec(mode@) != ActiveMode::Passthrough),
    ensures
        out.wf(),
        out.width == frame.width,
        out.height == frame.height,
        (match mask {
            Some(m) => out.pixels@ == composed_spec(*frame, *m, mode@, sigma, off),
            None => out.pixels@ == frame.pixels@,
        }),
{
    match mask {
        None => Frame {
            width: frame.width,
            height: frame.height,
            pixels: frame.pixels.clone(),
        },
        Some(m) => {
            if mode.debug {
                show_mask_overlay(frame, m, off)
            } else if mode.mask_enabled {
                blur_background(frame, m, sigma, off)
            } else {
                match &mode.background {
                    Some(bg) => replace_background(frame, bg, m, off),
                    None => {
                        proof {
                            assert(false);
                        }
                        Frame { width: frame.width, height: frame.height, pixels: Vec::new() }
                    },
                }
            }
        },
    }
}

/// Law: whatever the active mode, the composited output's alpha channel
/// equals the input frame's alpha channel, pixel for pixel.
pub proof fn lemma_compose_preserves_alpha(
    frame: Frame,
    mask: Mask,
    v: ModeView,
    sigma: u16,
    off: MaskOffset,
)
    requires
        frame.wf(),
        mask.wf(),
        mask.width == frame.width,
        mask.height == frame.height,
        1 <= frame.width,
        1 <= frame.height,
    ensures
        forall|x: int, y: int|
            0 <= x < frame.width && 0 <= y < frame.height ==> #[trigger] composed_spec(
                frame,
                mask,
                v,
                sigma,
                off,
            )[(y * frame.width + x) * 4 + 3] == frame.pixels@[(y * frame.width + x) * 4 + 3],
{
    match selected_mode_spec(v) {
        ActiveMode::DebugOverlay => {
            lemma_overlay_preserves_alpha(frame.pixels@, mask, off);
        },
        ActiveMode::Blur => {
            lemma_blend_preserves_alpha(
                frame.pixels@,
                gaussian_blur_of(
                    frame.pixels@,
                    frame.width as int,
                    frame.height as int,
                    sigma as int,
                ),
                mask,
                off,
            );
        },
        ActiveMode::Replace => {
            lemma_blend_preserves_alpha(frame.pixels@, v.background->0, mask, off);
        },
        ActiveMode::Passthrough => {
        },
    }
}

/// Lifecycle of the capture worker: it opens the device, then fetches and
/// publishes frames until cancellation, then releases the device.
#[derive(Debug, PartialEq, Eq, Structural, Clone, Copy)]
pub enum CaptureState {
    Starting,
    Running,
    Stopping,
    Stopped,
}

/// What the capture worker observed during one iteration.
pub enum CaptureEvent {
    /// The device opened and the stream format was negotiated.
    Opened,
    /// The device could not be opened: fatal to the session.
    OpenFailed,
    /// A frame was fetched from the device.
    FrameReady(Frame),
    /// A transient fetch failure: not fatal.
    FrameFailed,
    /// The shared cancellation flag was found set.
    Cancelled,
    /// The device was released.
    Released,
}

/// What the capture worker must do next.
pub enum CaptureAction {
    /// Fetch the next frame (the call may block).
    Fetch,
    /// Publish the fetched frame to the shared slot, then fetch again.
    Publish(Frame),
    /// Log the transient failure, back off briefly, then retry.
    Backoff,
    /// Release the device (idempotent and safe even after a failed open).
    Release,
    /// The loop is over.
    Finished,
}

/// Which events can occur in which state.
pub open spec fn capture_event_valid(s: CaptureState, e: CaptureEvent) -> bool {
    match s {
        CaptureState::Starting => e is Opened || e is OpenFailed,
        CaptureState::Running => e is FrameReady || e is FrameFailed || e is Cancelled,
        CaptureState::Stopping => e is Released,
        CaptureState::Stopped => false,
    }
}

/// The state after an event.
pub open spec fn capture_next_state(s: CaptureState, e: CaptureEvent) -> CaptureState {
    match e {
        CaptureEvent::Opened => CaptureState::Running,
        CaptureEvent::OpenFailed => CaptureState::Stopping,
        CaptureEvent::FrameReady(f) => CaptureState::Running,
        CaptureEvent::FrameFailed => CaptureState::Running,
        CaptureEvent::Cancelled => CaptureState::Stopping,
        CaptureEvent::Released => CaptureState::Stopped,
    }
}

/// Whether the step for this event orders the device released: exactly on
/// the transition into Stopping.
pub open spec fn capture_emits_release(s: CaptureState, e: CaptureEvent) -> bool {
    e is OpenFailed || e is Cancelled
}

/// The capture worker's state machine.  The worker thread performs the
/// returned actions and feeds back what it observed.
pub struct CaptureLoop {
    pub state: CaptureState,
    pub released: bool,
    pub fatal: bool,
}

impl CaptureLoop {
    /// The device is released exactly when the loop has fully stopped.
    pub open spec fn wf(&self) -> bool {
        self.released <==> self.state is Stopped
    }

    /// A capture loop about to open its device.
    pub fn new() -> (c: CaptureLoop)
        ensures
            c.wf(),
            c.state is Starting,
            !c.released,
            !c.fatal,
    {
        CaptureLoop { state: CaptureState::Starting, released: false, fatal: false }
    }

    /// Advance by one observed event and say what to do next.
    pub fn step(&mut self, event: CaptureEvent) -> (a: CaptureAction)
        requires
            old(self).wf(),
            capture_event_valid(old(self).state, event),
        ensures
            final(self).wf(),
            final(self).state == capture_next_state(old(self).state, event),
            (a is Release) == capture_emits_release(old(self).state, event),
            final(self).fatal == (old(self).fatal || event is OpenFailed),
            (match event {
                CaptureEvent::Opened => a is Fetch,
                CaptureEvent::OpenFailed => a is Release,
                CaptureEvent::FrameReady(f) => a matches CaptureAction::Publish(g) && g == f,
                CaptureEvent::FrameFailed => a is Backoff,
                CaptureEvent::Cancelled => a is Release,
                CaptureEvent::Released => a is Finished && final(self).released,
            }),
    {
        match event {
            CaptureEvent::Opened => {
                self.state = CaptureState::Running;
                CaptureAction::Fetch
            },
            CaptureEvent::OpenFailed => {
                self.state = CaptureState::Stopping;
                self.fatal = true;
                CaptureAction::Release
            },
            CaptureEvent::FrameReady(f) => {
                self.state = CaptureState::Running;
                CaptureAction::Publish(f)
            },
            CaptureEvent::FrameFailed => {
                self.state = CaptureState::Running;
                CaptureAction::Backoff
            },
            CaptureEvent::Cancelled => {
                self.state = CaptureState::Stopping;
                CaptureAction::Release
            },
            CaptureEvent::Released => {
                self.state = CaptureState::Stopped;
                self.released = true;
                CaptureAction::Finished
            },
        }
    }
}

/// Law: the release order is issued at most once in any run of the
/// capture loop: two consecutive valid steps can never both order a
/// release.
pub proof fn lemma_release_at_most_once(s: CaptureState, e1: CaptureEvent, e2: CaptureEvent)
    requires
        capture_event_valid(s, e1),
        capture_event_valid(capture_next_state(s, e1), e2),
        capture_emits_release(s, e1),
    ensures
        !capture_emits_release(capture_next_state(s, e1), e2),
{
}

/// Lifecycle of the processing worker.
#[derive(Debug, PartialEq, Eq, Structural, Clone, Copy)]
pub enum ProcState {
    Running,
    Stopped,
}

/// One poll decision of the processing worker.
pub enum ProcAction {
    /// Cancellation was observed: leave the loop.
    Finish,
    /// The slot was empty: sleep a short interval, then poll again.
    Sleep,
    /// A frame is pending: segment, composite and deliver it.
    Process,
}

/// The processing worker's state machine.
pub struct ProcessingLoop {
    pub state: ProcState,
}

impl ProcessingLoop {
    /// A processing loop ready to poll.
    pub fn new() -> (p: ProcessingLoop)
        ensures
            p.state is Running,
    {
        ProcessingLoop { state: ProcState::Running }
    }

    /// One poll of the shared slot: stop on cancellation, otherwise sleep
    /// briefly when no frame is pending, otherwise process the frame.
    pub fn poll(&mut self, cancelled: bool, got_frame: bool) -> (a: ProcAction)
        requires
            old(self).state is Running,
        ensures
            cancelled ==> final(self).state is Stopped && a is Finish,
            !cancelled && !got_frame ==> final(self).state is Running && a is Sleep,
            !cancelled && got_frame ==> final(self).state is Running && a is Process,
    {
        if cancelled {
            self.state = ProcState::Stopped;
            ProcAction::Finish
        } else if got_frame {
            ProcAction::Process
        } else {
            ProcAction::Sleep
        }
    }

    /// Record the sink's verdict on a delivery.  A rejected delivery is
    /// not an error: it is the normal termination signal, so it sets the
    /// shared cancellation flag (stopping the capture loop too) and stops
    /// this loop.
    pub fn on_delivery(&mut self, accepted: bool, flag: &mut CancellationFlag)
        requires
            old(self).state is Running,
        ensures
            accepted ==> final(self).state is Running && final(flag).cancelled == old(
                flag,
            ).cancelled,
            !accepted ==> final(self).state is Stopped && final(flag).cancelled,
    {
        if !accepted {
            flag.set();
            self.state = ProcState::Stopped;
        }
    }
}

} // verus!
