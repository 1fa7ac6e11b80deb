use vstd::prelude::*;

use crate::frame::Frame;

verus! {

/// The bytes handed to `set_background` were not a decodable image.
#[derive(Debug, PartialEq, Eq, Structural)]
pub enum DecodeError {
    Malformed,
}

/// Ghost view of the configurable compositing state: the blur toggle, the
/// debug toggle, and the cached replacement background's bytes, if any.
pub ghost struct ModeView {
    pub mask_enabled: bool,
    pub debug: bool,
    pub background: Option<Seq<u8>>,
}

/// The compositing operation a mode state selects: the debug overlay wins
/// over everything, then the blur toggle, then a cached background.
#[derive(Debug, PartialEq, Eq, Structural, Clone, Copy)]
pub enum ActiveMode {
    DebugOverlay,
    Blur,
    Replace,
    Passthrough,
}

/// The state after `set_mask`: the blur toggle takes the given value and
/// any cached background is dropped.
pub open spec fn spec_set_mask(v: ModeView, enabled: bool) -> ModeView {
    ModeView { mask_enabled: enabled, debug: v.debug, background: None }
}

/// The state after `set_debug`: only the debug toggle changes.
pub open spec fn spec_set_debug(v: ModeView, enabled: bool) -> ModeView {
    ModeView { mask_enabled: v.mask_enabled, debug: enabled, background: v.background }
}

/// The state after a successful `set_background`: the resized image is
/// cached and the blur toggle is cleared.
pub open spec fn spec_set_background(v: ModeView, bg: Seq<u8>) -> ModeView {
    ModeView { mask_enabled: false, debug: v.debug, background: Some(bg) }
}

/// Which compositing operation a state selects.
pub open spec fn selected_mode_spec(v: ModeView) -> ActiveMode {
    if v.debug {
        ActiveMode::DebugOverlay
    } else if v.mask_enabled {
        ActiveMode::Blur
    } else if v.background is Some {
        ActiveMode::Replace
    } else {
        ActiveMode::Passthrough
    }
}

/// The externally configurable compositing mode of one stream session,
/// owned by that session (not process-wide) and read at every processing
/// tick.
pub struct ModeState {
    pub width: usize,
    pub height: usize,
    pub mask_enabled: bool,
    pub debug: bool,
    pub background: Option<Frame>,
}

impl View for ModeState {
    type V = ModeView;

    open spec fn view(&self) -> ModeView {
        ModeView {
            mask_enabled: self.mask_enabled,
            debug: self.debug,
            background: match self.background {
                Some(b) => Some(b.pixels@),
                None => None,
            },
        }
    }
}

/// Named result of the external decode-and-resize of a background image:
/// `None` exactly when the bytes are not a decodable image, otherwise the
/// decoded picture resized to exactly the given dimensions, as RGBA
/// bytes.
pub uninterp spec fn fitted_background_of(bytes: Seq<u8>, width: int, height: int) -> Option<
    Seq<u8>,
>;

/// Relies on image::ImageReader with the format guessed from the bytes,
/// DynamicImage::resize_exact with the Lanczos3 filter, and to_rgba8:
/// decoding and resizing are pure functions of the bytes and the target
/// dimensions, and the resized image has exactly the target dimensions,
/// so its RGBA buffer holds `width * height * 4` bytes.
#[verifier::external_body]
fn decode_and_fit(bytes: &Vec<u8>, width: usize, height: usize) -> (r: Result<
    Vec<u8>,
    DecodeError,
>)
    requires
        1 <= width <= 0xFFFF_FFFFusize,
        1 <= height <= 0xFFFF_FFFFusize,
        width * height * 4 <= usize::MAX,
    ensures
        (match r {
            Ok(p) => fitted_background_of(bytes@, width as int, height as int) == Some(p@) && p@.len()
                == width * height * 4,
            Err(e) => fitted_background_of(bytes@, width as int, height as int) is None && e
                == DecodeError::Malformed,
        }),
{
    let reader = match image::ImageReader::new(std::io::Cursor::new(bytes.as_slice()))
        .with_guessed_format() {
        Ok(rd) => rd,
        Err(_) => return Err(DecodeError::Malformed),
    };
    let img = match reader.decode() {
        Ok(i) => i,
        Err(_) => return Err(DecodeError::Malformed),
    };
    let resized = img.resize_exact(width as u32, height as u32, image::imageops::FilterType::Lanczos3);
    Ok(resized.to_rgba8().into_raw())
}

impl ModeState {
    /// A well-formed state fixes the session resolution, whose frames fit
    /// in memory, and caches only backgrounds already resized to exactly
    /// that resolution.
    pub open spec fn wf(&self) -> bool {
        &&& 1 <= self.width <= 65536
        &&& 1 <= self.height <= 65536
        &&& self.width * self.height * 4 <= usize::MAX
        &&& (self.background matches Some(b) ==> b.wf() && b.width == self.width && b.height
            == self.height)
    }

    /// A fresh state for a session of the given resolution: passthrough,
    /// no debug, no background.
    pub fn new(width: usize, height: usize) -> (s: ModeState)
        requires
            1 <= width <= 65536,
            1 <= height <= 65536,
            width * height * 4 <= usize::MAX,
        ensures
            s.wf(),
            s.width == width,
            s.height == height,
            s@ == (ModeView { mask_enabled: false, debug: false, background: None }),
    {
        ModeState { width, height, mask_enabled: false, debug: false, background: None }
    }

    /// Toggle the blur (mask) mode; clears any cached replacement
    /// background.
    pub fn set_mask(&mut self, enabled: bool)
        requires
            old(self).wf(),
        ensures
            final(self).wf(),
            final(self).width == old(self).width,
            final(self).height == old(self).height,
            final(self)@ == spec_set_mask(old(self)@, enabled),
    {
        self.mask_enabled = enabled;
        self.background = None;
    }

    /// Toggle the debug overlay, independently of the other modes.
    pub fn set_debug(&mut self, enabled: bool)
        requires
            old(self).wf(),
        ensures
            final(self).wf(),
            final(self).width == old(self).width,
            final(self).height == old(self).height,
            final(self)@ == spec_set_debug(old(self)@, enabled),
    {
        self.debug = enabled;
    }

    /// Decode an arbitrary common image container, resize it to exactly
    /// the session resolution, cache it as the replacement background and
    /// clear the blur toggle.  Malformed bytes are reported and leave the
    /// state unchanged.
    pub fn set_background(&mut self, bytes: &Vec<u8>) -> (r: Result<(), DecodeError>)
        requires
            old(self).wf(),
        ensures
            final(self).wf(),
            final(self).width == old(self).width,
            final(self).height == old(self).height,
            (r is Ok) == (fitted_background_of(
                bytes@,
                old(self).width as int,
                old(self).height as int,
            ) is Some),
            (match r {
                Ok(u) => fitted_background_of(
                    bytes@,
                    old(self).width as int,
                    old(self).height as int,
                ) matches Some(p) && final(self)@ == spec_set_background(old(self)@, p),
                Err(e) => final(self)@ == old(self)@ && e == DecodeError::Malformed,
            }),
    {
        match decode_and_fit(bytes, self.width, self.height) {
            Ok(pixels) => {
                proof {
                    assert(self.width * self.height <= self.width * self.height * 4)
                        by (nonlinear_arith);
                }
                let bg = Frame { width: self.width, height: self.height, pixels };
                self.background = Some(bg);
                self.mask_enabled = false;
                Ok(())
            },
            Err(e) => Err(e),
        }
    }

    /// Which compositing operation the current state selects.
    pub fn selected_mode(&self) -> (m: ActiveMode)
        ensures
            m == selected_mode_spec(self@),
    {
        if self.debug {
            ActiveMode::DebugOverlay
        } else if self.mask_enabled {
            ActiveMode::Blur
        } else if self.background.is_some() {
            ActiveMode::Replace
        } else {
            ActiveMode::Passthrough
        }
    }

    /// Whether the current state needs a segmentation mask at all; pure
    /// passthrough skips inference entirely.
    pub fn needs_mask(&self) -> (b: bool)
        ensures
            b == (selected_mode_spec(self@) != ActiveMode::Passthrough),
    {
        self.debug || self.mask_enabled || self.background.is_some()
    }
}

/// Law: enabling the blur mode twice in a row leaves exactly the state
/// that enabling it once leaves.
pub proof fn lemma_set_mask_idempotent(v: ModeView, enabled: bool)
    ensures
        spec_set_mask(spec_set_mask(v, enabled), enabled) == spec_set_mask(v, enabled),
{
}

} // verus!
