use vstd::prelude::*;
use vstd::arithmetic::div_mod::lemma_fundamental_div_mod_converse;

use crate::frame::{clamp_index, lemma_cell_index, Frame, Mask};

verus! {

/// Spatial calibration offset, in pixels, between the inference grid and
/// the source grid.  The right value depends on the segmentation model in
/// use, so it is a parameter of every blending call, never a hardcoded
/// constant.
#[derive(Clone, Copy)]
pub struct MaskOffset {
    pub dx: i32,
    pub dy: i32,
}

/// Default horizontal calibration offset, tuned for the bundled model.
pub const DEFAULT_MASK_OFFSET_X: i32 = 28;

/// Default vertical calibration offset, tuned for the bundled model.
pub const DEFAULT_MASK_OFFSET_Y: i32 = 18;

/// Default Gaussian sigma for the background-blur mode.
pub const DEFAULT_BLUR_SIGMA: u16 = 12;

/// One colour channel mixed by the mask weight `m`: the original shows
/// through with weight `m / 255` and the secondary with the rest.
pub open spec fn blend_channel(o: u8, s: u8, m: u8) -> u8 {
    (((o as int) * (m as int) + (s as int) * (255 - (m as int))) / 255) as u8
}

/// Byte `k` of the blend of buffer `o` over buffer `s` under mask `m`:
/// colour channels are mixed by the offset-sampled mask weight, the alpha
/// channel is kept from the original.
pub open spec fn blend_byte_at(o: Seq<u8>, s: Seq<u8>, m: Mask, off: MaskOffset, k: int) -> u8 {
    let i = k / 4;
    let c = k % 4;
    let x = i % (m.width as int);
    let y = i / (m.width as int);
    if c == 3 {
        o[k]
    } else {
        blend_channel(o[k], s[k], m.sampled(x, y, off.dx as int, off.dy as int))
    }
}

/// The whole blended buffer.
pub open spec fn blend_frames_spec(o: Seq<u8>, s: Seq<u8>, m: Mask, off: MaskOffset) -> Seq<u8> {
    Seq::new(o.len(), |k: int| blend_byte_at(o, s, m, off, k))
}

/// Byte `k` of the debug visualization of mask `m` over buffer `o`:
/// wherever the sampled mask weight is above one half, red and blue are
/// halved and green is pushed toward mid-range; the alpha channel and
/// every pixel at or below one half are untouched.
pub open spec fn overlay_byte_at(o: Seq<u8>, m: Mask, off: MaskOffset, k: int) -> u8 {
    let i = k / 4;
    let c = k % 4;
    let x = i % (m.width as int);
    let y = i / (m.width as int);
    let mv = m.sampled(x, y, off.dx as int, off.dy as int);
    if c == 3 || mv <= 127 {
        o[k]
    } else if c == 1 {
        (((o[k] as int) / 2) + 127) as u8
    } else {
        ((o[k] as int) / 2) as u8
    }
}

/// The whole debug-overlay buffer.
pub open spec fn overlay_frames_spec(o: Seq<u8>, m: Mask, off: MaskOffset) -> Seq<u8> {
    Seq::new(o.len(), |k: int| overlay_byte_at(o, m, off, k))
}

/// Dimension and well-formedness conditions under which two frames and a
/// mask can be blended.
pub open spec fn blend_compatible(o: &Frame, s: &Frame, m: &Mask) -> bool {
    &&& o.wf()
    &&& s.wf()
    &&& m.wf()
    &&& s.width == o.width
    &&& s.height == o.height
    &&& m.width == o.width
    &&& m.height == o.height
    &&& 1 <= o.width <= 0xFFFF_FFFFusize
    &&& 1 <= o.height <= 0xFFFF_FFFFusize
    &&& o.width * o.height * 4 <= usize::MAX
}

/// Conditions under which a mask fits a frame.
pub open spec fn mask_fits(f: &Frame, m: &Mask) -> bool {
    &&& f.wf()
    &&& m.wf()
    &&& m.width == f.width
    &&& m.height == f.height
    &&& 1 <= f.width <= 0xFFFF_FFFFusize
    &&& 1 <= f.height <= 0xFFFF_FFFFusize
    &&& f.width * f.height * 4 <= usize::MAX
}

/// Where byte `k = (y * w + x) * 4 + c` sits relative to the pixel grid.
proof fn lemma_byte_coords(k: int, x: int, y: int, c: int, w: int, h: int)
    requires
        0 <= x < w,
        0 <= y < h,
        0 <= c < 4,
        k == (y * w + x) * 4 + c,
    ensures
        k / 4 == y * w + x,
        k % 4 == c,
        (k / 4) % w == x,
        (k / 4) / w == y,
        0 <= k < w * h * 4,
{
    lemma_cell_index(x, y, w, h);
    lemma_fundamental_div_mod_converse(k, 4, y * w + x, c);
    lemma_fundamental_div_mod_converse(y * w + x, w, y, x);
}

/// One channel of the blend, in 32-bit fixed-point arithmetic.
fn blend_byte(o: u8, s: u8, m: u8) -> (r: u8)
    ensures
        r == blend_channel(o, s, m),
{
    proof {
        assert((o as int) * (m as int) + (s as int) * (255 - (m as int)) <= 255 * 255)
            by (nonlinear_arith);
        assert((o as int) * (m as int) >= 0 && (s as int) * (255 - (m as int)) >= 0)
            by (nonlinear_arith);
    }
    let num: u32 = (o as u32) * (m as u32) + (s as u32) * (255 - (m as u32));
    (num / 255) as u8
}

/// The mask weight for the pixel at `(x, y)`, after applying the
/// calibration offset and clamping to the mask bounds.
fn sample_mask(mask: &Mask, x: usize, y: usize, off: MaskOffset) -> (m: u8)
    requires
        mask.wf(),
        1 <= mask.width <= 0xFFFF_FFFFusize,
        1 <= mask.height <= 0xFFFF_FFFFusize,
        mask.width * mask.height <= usize::MAX,
        x < mask.width,
        y < mask.height,
    ensures
        m == mask.sampled(x as int, y as int, off.dx as int, off.dy as int),
{
    let w: i64 = mask.width as i64;
    let h: i64 = mask.height as i64;
    let xs: i64 = x as i64 + off.dx as i64;
    let ys: i64 = y as i64 + off.dy as i64;
    let mx: i64 = if xs < 0 {
        0
    } else if xs >= w {
        w - 1
    } else {
        xs
    };
    let my: i64 = if ys < 0 {
        0
    } else if ys >= h {
        h - 1
    } else {
        ys
    };
    proof {
        assert(mx as int == clamp_index(x + off.dx as int, mask.width as int));
        assert(my as int == clamp_index(y + off.dy as int, mask.height as int));
        lemma_cell_index(mx as int, my as int, mask.width as int, mask.height as int);
    }
    let idx: usize = (my as usize) * mask.width + (mx as usize);
    mask.values[idx]
}

/// Blend `original` over `secondary` through `mask`.  Every colour byte
/// of the result is the fixed-point mix of the two inputs weighted by the
/// offset-sampled mask; every alpha byte is the original's.
#[verifier::loop_isolation(false)]
pub fn blend(original: &Frame, secondary: &Frame, mask: &Mask, off: MaskOffset) -> (out: Frame)
    requires
        blend_compatible(original, secondary, mask),
    ensures
        out.wf(),
        out.width == original.width,
        out.height == original.height,
        out.pixels@ == blend_frames_spec(original.pixels@, secondary.pixels@, *mask, off),
{
    let w = original.width;
    let h = original.height;
    let mut pixels: Vec<u8> = Vec::new();
    let mut y: usize = 0;
    while y < h
        invariant
            y <= h,
            pixels@.len() == y * w * 4,
            forall|k: int|
                0 <= k < pixels@.len() ==> pixels@[k] == blend_byte_at(
                    original.pixels@,
                    secondary.pixels@,
                    *mask,
                    off,
                    k,
                ),
        decreases h - y,
    {
        let mut x: usize = 0;
        while x < w
            invariant
                x <= w,
                pixels@.len() == (y * w + x) * 4,
                forall|k: int|
                    0 <= k < pixels@.len() ==> pixels@[k] == blend_byte_at(
                        original.pixels@,
                        secondary.pixels@,
                        *mask,
                        off,
                        k,
                    ),
            decreases w - x,
        {
            proof {
                lemma_cell_index(x as int, y as int, w as int, h as int);
                assert(w * h <= w * h * 4) by (nonlinear_arith);
                assert((y * w + x) * 4 + 3 < w * h * 4);
                lemma_byte_coords(((y * w + x) * 4) as int, x as int, y as int, 0, w as int, h as int);
                lemma_byte_coords(((y * w + x) * 4 + 1) as int, x as int, y as int, 1, w as int, h as int);
                lemma_byte_coords(((y * w + x) * 4 + 2) as int, x as int, y as int, 2, w as int, h as int);
                lemma_byte_coords(((y * w + x) * 4 + 3) as int, x as int, y as int, 3, w as int, h as int);
            }
            let m = sample_mask(mask, x, y, off);
            let base: usize = (y * w + x) * 4;
            pixels.push(blend_byte(original.pixels[base], secondary.pixels[base], m));
            pixels.push(blend_byte(original.pixels[base + 1], secondary.pixels[base + 1], m));
            pixels.push(blend_byte(original.pixels[base + 2], secondary.pixels[base + 2], m));
            pixels.push(original.pixels[base + 3]);
            x = x + 1;
        }
        proof {
            assert((y * w + w) * 4 == (y + 1) * w * 4) by (nonlinear_arith);
        }
        y = y + 1;
    }
    proof {
        assert(h * w * 4 == w * h * 4) by (nonlinear_arith);
        assert(pixels@ =~= blend_frames_spec(original.pixels@, secondary.pixels@, *mask, off));
    }
    Frame { width: w, height: h, pixels }
}

/// Named result of the external Gaussian blur.
pub uninterp spec fn gaussian_blur_of(pixels: Seq<u8>, width: int, height: int, sigma: int) -> Seq<u8>;

/// Relies on image::imageops::blur: a Gaussian blur of an RGBA buffer.
/// The result is a pure function of the pixels, the dimensions and sigma,
/// and its dimensions equal the input dimensions.
#[verifier::external_body]
fn gaussian_blur_rgba(pixels: &Vec<u8>, width: usize, height: usize, sigma: u16) -> (r: Vec<u8>)
    requires
        1 <= width <= 0xFFFF_FFFFusize,
        1 <= height <= 0xFFFF_FFFFusize,
        pixels@.len() == width * height * 4,
    ensures
        r@ == gaussian_blur_of(pixels@, width as int, height as int, sigma as int),
        r@.len() == pixels@.len(),
{
    let img = image::RgbaImage::from_raw(width as u32, height as u32, pixels.clone()).unwrap();
    image::imageops::blur(&img, sigma.into()).into_raw()
}

/// Blur mode: blend the frame over a Gaussian-blurred copy of itself, so
/// the background (where the mask is low) appears blurred while the
/// foreground shows through.
pub fn blur_background(frame: &Frame, mask: &Mask, sigma: u16, off: MaskOffset) -> (out: Frame)
    requires
        mask_fits(frame, mask),
    ensures
        out.wf(),
        out.width == frame.width,
        out.height == frame.height,
        out.pixels@ == blend_frames_spec(
            frame.pixels@,
            gaussian_blur_of(frame.pixels@, frame.width as int, frame.height as int, sigma as int),
            *mask,
            off,
        ),
{
    let blurred_pixels = gaussian_blur_rgba(&frame.pixels, frame.width, frame.height, sigma);
    let blurred = Frame { width: frame.width, height: frame.height, pixels: blurred_pixels };
    blend(frame, &blurred, mask, off)
}

/// Replace mode: blend the frame over a cached background image that was
/// already resized to the frame resolution.
pub fn replace_background(frame: &Frame, background: &Frame, mask: &Mask, off: MaskOffset) -> (out: Frame)
    requires
        blend_compatible(frame, background, mask),
    ensures
        out.wf(),
        out.width == frame.width,
        out.height == frame.height,
        out.pixels@ == blend_frames_spec(frame.pixels@, background.pixels@, *mask, off),
{
    blend(frame, background, mask, off)
}

/// Debug visualization: a green-tinted wash over the pixels the mask
/// classifies as foreground (sampled weight above one half); everything
/// else, and the alpha channel everywhere, stays as captured.
#[verifier::loop_isolation(false)]
pub fn show_mask_overlay(frame: &Frame, mask: &Mask, off: MaskOffset) -> (out: Frame)
    requires
        mask_fits(frame, mask),
    ensures
        out.wf(),
        out.width == frame.width,
        out.height == frame.height,
        out.pixels@ == overlay_frames_spec(frame.pixels@, *mask, off),
{
    let w = frame.width;
    let h = frame.height;
    let mut pixels: Vec<u8> = Vec::new();
    let mut y: usize = 0;
    while y < h
        invariant
            y <= h,
            pixels@.len() == y * w * 4,
            forall|k: int|
                0 <= k < pixels@.len() ==> pixels@[k] == overlay_byte_at(
                    frame.pixels@,
                    *mask,
                    off,
                    k,
                ),
        decreases h - y,
    {
        let mut x: usize = 0;
        while x < w
            invariant
                x <= w,
                pixels@.len() == (y * w + x) * 4,
                forall|k: int|
                    0 <= k < pixels@.len() ==> pixels@[k] == overlay_byte_at(
                        frame.pixels@,
                        *mask,
                        off,
                        k,
                    ),
            decreases w - x,
        {
            proof {
                lemma_cell_index(x as int, y as int, w as int, h as int);
                assert(w * h <= w * h * 4) by (nonlinear_arith);
                assert((y * w + x) * 4 + 3 < w * h * 4);
                lemma_byte_coords(((y * w + x) * 4) as int, x as int, y as int, 0, w as int, h as int);
                lemma_byte_coords(((y * w + x) * 4 + 1) as int, x as int, y as int, 1, w as int, h as int);
                lemma_byte_coords(((y * w + x) * 4 + 2) as int, x as int, y as int, 2, w as int, h as int);
                lemma_byte_coords(((y * w + x) * 4 + 3) as int, x as int, y as int, 3, w as int, h as int);
            }
            let m = sample_mask(mask, x, y, off);
            let base: usize = (y * w + x) * 4;
            if m > 127 {
                pixels.push(frame.pixels[base] / 2);
                pixels.push(frame.pixels[base + 1] / 2 + 127);
                pixels.push(frame.pixels[base + 2] / 2);
                pixels.push(frame.pixels[base + 3]);
            } else {
                pixels.push(frame.pixels[base]);
                pixels.push(frame.pixels[base + 1]);
                pixels.push(frame.pixels[base + 2]);
                pixels.push(frame.pixels[base + 3]);
            }
            x = x + 1;
        }
        proof {
            assert((y * w + w) * 4 == (y + 1) * w * 4) by (nonlinear_arith);
        }
        y = y + 1;
    }
    proof {
        assert(h * w * 4 == w * h * 4) by (nonlinear_arith);
        assert(pixels@ =~= overlay_frames_spec(frame.pixels@, *mask, off));
    }
    Frame { width: w, height: h, pixels }
}

/// Law: under an all-zero mask the blend hands every colour channel to
/// the secondary image, while the alpha channel still comes from the
/// original.
pub proof fn lemma_blend_all_zero(o: Frame, s: Frame, m: Mask, off: MaskOffset)
    requires
        blend_compatible(&o, &s, &m),
        forall|i: int| 0 <= i < m.values@.len() ==> m.values@[i] == 0,
    ensures
        forall|x: int, y: int, c: int|
            0 <= x < o.width && 0 <= y < o.height && 0 <= c < 3 ==> #[trigger] blend_frames_spec(
                o.pixels@,
                s.pixels@,
                m,
                off,
            )[(y * o.width + x) * 4 + c] == s.pixels@[(y * o.width + x) * 4 + c],
        forall|x: int, y: int|
            0 <= x < o.width && 0 <= y < o.height ==> #[trigger] blend_frames_spec(
                o.pixels@,
                s.pixels@,
                m,
                off,
            )[(y * o.width + x) * 4 + 3] == o.pixels@[(y * o.width + x) * 4 + 3],
{
    let w = o.width as int;
    let h = o.height as int;
    assert forall|x: int, y: int, c: int|
        0 <= x < w && 0 <= y < h && 0 <= c < 3 implies #[trigger] blend_frames_spec(
        o.pixels@,
        s.pixels@,
        m,
        off,
    )[(y * w + x) * 4 + c] == s.pixels@[(y * w + x) * 4 + c] by {
        let k = (y * w + x) * 4 + c;
        lemma_byte_coords(k, x, y, c, w, h);
        let cx = clamp_index(x + off.dx as int, w);
        let cy = clamp_index(y + off.dy as int, h);
        lemma_cell_index(cx, cy, w, h);
        let ov = o.pixels@[k] as int;
        let sv = s.pixels@[k] as int;
        assert((ov * 0 + sv * (255 - 0)) / 255 == sv) by (nonlinear_arith)
            requires
                0 <= sv <= 255,
        ;
    }
    assert forall|x: int, y: int| 0 <= x < w && 0 <= y < h implies #[trigger] blend_frames_spec(
        o.pixels@,
        s.pixels@,
        m,
        off,
    )[(y * w + x) * 4 + 3] == o.pixels@[(y * w + x) * 4 + 3] by {
        lemma_byte_coords((y * w + x) * 4 + 3, x, y, 3, w, h);
    }
}

/// Law: under an all-255 mask (full foreground) the blend returns the
/// original frame on every channel.
pub proof fn lemma_blend_all_one(o: Frame, s: Frame, m: Mask, off: MaskOffset)
    requires
        blend_compatible(&o, &s, &m),
        forall|i: int| 0 <= i < m.values@.len() ==> m.values@[i] == 255,
    ensures
        forall|x: int, y: int, c: int|
            0 <= x < o.width && 0 <= y < o.height && 0 <= c < 4 ==> #[trigger] blend_frames_spec(
                o.pixels@,
                s.pixels@,
                m,
                off,
            )[(y * o.width + x) * 4 + c] == o.pixels@[(y * o.width + x) * 4 + c],
{
    let w = o.width as int;
    let h = o.height as int;
    assert forall|x: int, y: int, c: int|
        0 <= x < w && 0 <= y < h && 0 <= c < 4 implies #[trigger] blend_frames_spec(
        o.pixels@,
        s.pixels@,
        m,
        off,
    )[(y * w + x) * 4 + c] == o.pixels@[(y * w + x) * 4 + c] by {
        let k = (y * w + x) * 4 + c;
        lemma_byte_coords(k, x, y, c, w, h);
        let cx = clamp_index(x + off.dx as int, w);
        let cy = clamp_index(y + off.dy as int, h);
        lemma_cell_index(cx, cy, w, h);
        if c != 3 {
            let ov = o.pixels@[k] as int;
            let sv = s.pixels@[k] as int;
            assert((ov * 255 + sv * (255 - 255)) / 255 == ov) by (nonlinear_arith)
                requires
                    0 <= ov <= 255,
            ;
        }
    }
}

/// Law: whatever the mask, blending preserves the alpha channel of the
/// original frame.
pub proof fn lemma_blend_preserves_alpha(o: Seq<u8>, s: Seq<u8>, m: Mask, off: MaskOffset)
    requires
        m.wf(),
        1 <= m.width,
        1 <= m.height,
        o.len() == m.width * m.height * 4,
    ensures
        forall|x: int, y: int|
            0 <= x < m.width && 0 <= y < m.height ==> #[trigger] blend_frames_spec(o, s, m, off)[(
            y * m.width + x) * 4 + 3] == o[(y * m.width + x) * 4 + 3],
{
    let w = m.width as int;
    let h = m.height as int;
    assert forall|x: int, y: int| 0 <= x < w && 0 <= y < h implies #[trigger] blend_frames_spec(
        o,
        s,
        m,
        off,
    )[(y * w + x) * 4 + 3] == o[(y * w + x) * 4 + 3] by {
        lemma_byte_coords((y * w + x) * 4 + 3, x, y, 3, w, h);
    }
}

/// Law: whatever the mask, the debug overlay preserves the alpha channel
/// of the original frame.
pub proof fn lemma_overlay_preserves_alpha(o: Seq<u8>, m: Mask, off: MaskOffset)
    requires
        m.wf(),
        1 <= m.width,
        1 <= m.height,
        o.len() == m.width * m.height * 4,
    ensures
        forall|x: int, y: int|
            0 <= x < m.width && 0 <= y < m.height ==> #[trigger] overlay_frames_spec(o, m, off)[(
            y * m.width + x) * 4 + 3] == o[(y * m.width + x) * 4 + 3],
{
    let w = m.width as int;
    let h = m.height as int;
    assert forall|x: int, y: int| 0 <= x < w && 0 <= y < h implies #[trigger] overlay_frames_spec(
        o,
        m,
        off,
    )[(y * w + x) * 4 + 3] == o[(y * w + x) * 4 + 3] by {
        lemma_byte_coords((y * w + x) * 4 + 3, x, y, 3, w, h);
    }
}

} // verus!
