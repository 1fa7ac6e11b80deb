use vstd::prelude::*;
use vstd::arithmetic::div_mod::{
    lemma_div_by_multiple, lemma_div_is_ordered, lemma_div_multiples_vanish_fancy,
    lemma_div_pos_is_pos, lemma_fundamental_div_mod_converse, lemma_multiply_divide_le,
    lemma_multiply_divide_lt,
};

use crate::frame::{lemma_cell_index, Frame, Mask};

verus! {

/// Square edge length of the segmentation model's input and output grids.
pub const MODEL_SIZE: usize = 256;

/// The RGB bytes of an RGBA buffer, alpha dropped: three bytes per pixel,
/// taken from the first three channels of each four-byte pixel.
pub open spec fn rgb_of_rgba(p: Seq<u8>) -> Seq<u8> {
    Seq::new((p.len() / 4 * 3) as nat, |k: int| p[(k / 3) * 4 + (k % 3)])
}

/// Channel-first view of an interleaved RGB grid of `n` pixels: plane `c`
/// holds channel `c` of every pixel, in pixel order.
pub open spec fn channel_first_of(rgb: Seq<u8>, n: int) -> Seq<u8> {
    Seq::new((3 * n) as nat, |k: int| rgb[(k % n) * 3 + k / n])
}

/// Drop the alpha channel of a frame, keeping the colour channels
/// interleaved.
#[verifier::loop_isolation(false)]
pub fn strip_alpha(frame: &Frame) -> (r: Vec<u8>)
    requires
        frame.wf(),
        frame.width * frame.height * 4 <= usize::MAX,
    ensures
        r@ == rgb_of_rgba(frame.pixels@),
        r@.len() == frame.width * frame.height * 3,
{
    proof {
        assert(frame.width * frame.height <= frame.width * frame.height * 4) by (nonlinear_arith);
    }
    let count: usize = frame.width * frame.height;
    let mut out: Vec<u8> = Vec::new();
    let mut i: usize = 0;
    while i < count
        invariant
            i <= count,
            out@.len() == 3 * i,
            forall|k: int| 0 <= k < out@.len() ==> out@[k] == rgb_of_rgba(frame.pixels@)[k],
        decreases count - i,
    {
        proof {
            lemma_fundamental_div_mod_converse((3 * i) as int, 3, i as int, 0);
            lemma_fundamental_div_mod_converse((3 * i + 1) as int, 3, i as int, 1);
            lemma_fundamental_div_mod_converse((3 * i + 2) as int, 3, i as int, 2);
        }
        out.push(frame.pixels[4 * i]);
        out.push(frame.pixels[4 * i + 1]);
        out.push(frame.pixels[4 * i + 2]);
        i = i + 1;
    }
    proof {
        assert(out@ =~= rgb_of_rgba(frame.pixels@));
    }
    out
}

/// Rearrange an interleaved RGB grid of `n` pixels into channel-first
/// order, as the inference tensor wants it.
#[verifier::loop_isolation(false)]
pub fn to_channel_first(rgb: &Vec<u8>, n: usize) -> (r: Vec<u8>)
    requires
        1 <= n,
        rgb@.len() == 3 * n,
        3 * n <= usize::MAX,
    ensures
        r@ == channel_first_of(rgb@, n as int),
        r@.len() == 3 * n,
{
    let mut out: Vec<u8> = Vec::new();
    let mut c: usize = 0;
    while c < 3
        invariant
            c <= 3,
            out@.len() == c * n,
            forall|k: int| 0 <= k < out@.len() ==> out@[k] == channel_first_of(rgb@, n as int)[k],
        decreases 3 - c,
    {
        let mut i: usize = 0;
        while i < n
            invariant
                i <= n,
                out@.len() == c * n + i,
                forall|k: int|
                    0 <= k < out@.len() ==> out@[k] == channel_first_of(rgb@, n as int)[k],
            decreases n - i,
        {
            proof {
                lemma_fundamental_div_mod_converse((c * n + i) as int, n as int, c as int, i as int);
                assert(c * n + i < 3 * n) by (nonlinear_arith)
                    requires
                        0 <= c < 3,
                        0 <= i < n,
                ;
            }
            out.push(rgb[3 * i + c]);
            i = i + 1;
        }
        proof {
            assert(c * n + n == (c + 1) * n) by (nonlinear_arith);
        }
        c = c + 1;
    }
    proof {
        assert(out@ =~= channel_first_of(rgb@, n as int));
    }
    out
}

/// Named result of the external interpolating downscale.
pub uninterp spec fn triangle_resize_rgb_of(
    pixels: Seq<u8>,
    width: int,
    height: int,
    new_width: int,
    new_height: int,
) -> Seq<u8>;

/// Relies on image::imageops::resize with the triangle (linear
/// interpolation) filter on an RGB image: a pure function of the pixels
/// and the dimensions, whose result has exactly the target dimensions.
/// The resampling passes build four-channel float rows of `width * nh`
/// and `nw * nh` cells, so those byte counts must fit in memory too.
#[verifier::external_body]
fn triangle_resize_rgb(pixels: &Vec<u8>, width: usize, height: usize, nw: usize, nh: usize) -> (r:
    Vec<u8>)
    requires
        1 <= width <= 0xFFFF_FFFFusize,
        1 <= height <= 0xFFFF_FFFFusize,
        1 <= nw <= 0xFFFF_FFFFusize,
        1 <= nh <= 0xFFFF_FFFFusize,
        pixels@.len() == width * height * 3,
        width * nh * 4 <= usize::MAX,
        nw * nh * 4 <= usize::MAX,
        nw * nh * 3 <= usize::MAX,
    ensures
        r@ == triangle_resize_rgb_of(pixels@, width as int, height as int, nw as int, nh as int),
        r@.len() == nw * nh * 3,
{
    let img = image::RgbImage::from_raw(width as u32, height as u32, pixels.clone()).unwrap();
    image::imageops::resize(&img, nw as u32, nh as u32, image::imageops::FilterType::Triangle)
        .into_raw()
}

/// Model pre-processing: drop the alpha channel, downscale to the model's
/// square input size with an interpolating filter, and arrange the result
/// channel-first.  The caller normalizes each byte to a fraction of 255
/// to obtain the inference tensor.
pub fn prepare_model_input(frame: &Frame, model_size: usize) -> (r: Vec<u8>)
    requires
        frame.wf(),
        1 <= frame.width <= 0xFFFF_FFFFusize,
        1 <= frame.height <= 0xFFFF_FFFFusize,
        frame.width * frame.height * 4 <= usize::MAX,
        frame.width * model_size * 4 <= usize::MAX,
        1 <= model_size <= 4096,
    ensures
        r@ == channel_first_of(
            triangle_resize_rgb_of(
                rgb_of_rgba(frame.pixels@),
                frame.width as int,
                frame.height as int,
                model_size as int,
                model_size as int,
            ),
            (model_size * model_size) as int,
        ),
        r@.len() == 3 * (model_size * model_size),
{
    proof {
        assert(frame.width * frame.height * 3 <= frame.width * frame.height * 4)
            by (nonlinear_arith);
        assert(model_size * model_size * 4 <= 0xFFFF_FFFF) by (nonlinear_arith)
            requires
                1 <= model_size <= 4096,
        ;
        assert(0xFFFF_FFFFusize <= usize::MAX);
        assert(model_size * model_size * 3 <= model_size * model_size * 4) by (nonlinear_arith);
        assert(model_size * model_size * 3 == 3 * (model_size * model_size)) by (nonlinear_arith);
        assert(1 <= model_size * model_size) by (nonlinear_arith)
            requires
                1 <= model_size,
        ;
    }
    let rgb = strip_alpha(frame);
    let small = triangle_resize_rgb(&rgb, frame.width, frame.height, model_size, model_size);
    to_channel_first(&small, model_size * model_size)
}

/// Fixed-point (scaled by 256) source coordinate of output cell `x` when
/// a line of `s` samples is stretched to `d` samples, endpoints aligned.
pub open spec fn src_pos(x: int, s: int, d: int) -> int {
    if d <= 1 {
        0
    } else {
        x * ((s - 1) * 256) / (d - 1)
    }
}

/// One cell of the bilinear upscale: the four source cells around the
/// fixed-point source position, mixed by the fractional weights, rounded
/// to nearest.
pub open spec fn upscaled_value(
    src: Seq<u8>,
    sw: int,
    sh: int,
    x: int,
    y: int,
    dw: int,
    dh: int,
) -> u8 {
    let px = src_pos(x, sw, dw);
    let py = src_pos(y, sh, dh);
    let x0 = px / 256;
    let y0 = py / 256;
    let fx = px % 256;
    let fy = py % 256;
    let x1 = if x0 + 1 < sw {
        x0 + 1
    } else {
        sw - 1
    };
    let y1 = if y0 + 1 < sh {
        y0 + 1
    } else {
        sh - 1
    };
    let v00 = src[y0 * sw + x0] as int;
    let v10 = src[y0 * sw + x1] as int;
    let v01 = src[y1 * sw + x0] as int;
    let v11 = src[y1 * sw + x1] as int;
    ((v00 * (256 - fx) * (256 - fy) + v10 * fx * (256 - fy) + v01 * (256 - fx) * fy + v11 * fx * fy
        + 32768) / 65536) as u8
}

/// The whole upscaled grid, row-major at the target dimensions.
pub open spec fn upscaled_grid(src: Seq<u8>, sw: int, sh: int, dw: int, dh: int) -> Seq<u8> {
    Seq::new((dw * dh) as nat, |k: int| upscaled_value(src, sw, sh, k % dw, k / dw, dw, dh))
}

/// The fixed-point source position stays within the source line.
proof fn lemma_src_pos_bounds(x: int, s: int, d: int)
    requires
        1 <= s,
        1 <= d,
        0 <= x < d,
    ensures
        0 <= src_pos(x, s, d) <= (s - 1) * 256,
{
    if d > 1 {
        let a = (s - 1) * 256;
        assert(0 <= x * a && x * a <= (d - 1) * a) by (nonlinear_arith)
            requires
                0 <= x <= d - 1,
                0 <= a,
        ;
        lemma_div_pos_is_pos(x * a, d - 1);
        lemma_multiply_divide_le(x * a, d - 1, a);
    }
}

/// Ranges of the cell coordinates and weights used by `upscaled_value`.
proof fn lemma_upscale_cell_ranges(sw: int, sh: int, x: int, y: int, dw: int, dh: int)
    requires
        1 <= sw,
        1 <= sh,
        1 <= dw,
        1 <= dh,
        0 <= x < dw,
        0 <= y < dh,
    ensures
        0 <= src_pos(x, sw, dw) / 256 <= sw - 1,
        0 <= src_pos(y, sh, dh) / 256 <= sh - 1,
        0 <= src_pos(x, sw, dw) % 256 < 256,
        0 <= src_pos(y, sh, dh) % 256 < 256,
{
    lemma_src_pos_bounds(x, sw, dw);
    lemma_src_pos_bounds(y, sh, dh);
    let px = src_pos(x, sw, dw);
    let py = src_pos(y, sh, dh);
    lemma_div_pos_is_pos(px, 256);
    lemma_div_pos_is_pos(py, 256);
    lemma_div_is_ordered(px, (sw - 1) * 256, 256);
    lemma_div_is_ordered(py, (sh - 1) * 256, 256);
    lemma_div_by_multiple(sw - 1, 256);
    lemma_div_by_multiple(sh - 1, 256);
}

/// One cell of the bilinear upscale, in 64-bit fixed-point arithmetic.
fn bilinear_cell(src: &Vec<u8>, sw: usize, sh: usize, x: usize, y: usize, dw: usize, dh: usize) -> (v: u8)
    requires
        1 <= sw <= 65536,
        1 <= sh <= 65536,
        1 <= dw <= 65536,
        1 <= dh <= 65536,
        src@.len() == sw * sh,
        x < dw,
        y < dh,
    ensures
        v == upscaled_value(src@, sw as int, sh as int, x as int, y as int, dw as int, dh as int),
{
    proof {
        lemma_upscale_cell_ranges(sw as int, sh as int, x as int, y as int, dw as int, dh as int);
        assert((x as int) * (((sw as int) - 1) * 256) <= 65535 * (65535 * 256)) by (nonlinear_arith)
            requires
                0 <= x <= 65535,
                sw <= 65536,
        ;
        assert(0 <= (x as int) * (((sw as int) - 1) * 256)) by (nonlinear_arith)
            requires
                0 <= x,
                1 <= sw,
        ;
        assert((y as int) * (((sh as int) - 1) * 256) <= 65535 * (65535 * 256)) by (nonlinear_arith)
            requires
                0 <= y <= 65535,
                sh <= 65536,
        ;
        assert(0 <= (y as int) * (((sh as int) - 1) * 256)) by (nonlinear_arith)
            requires
                0 <= y,
                1 <= sh,
        ;
    }
    let px: u64 = if dw <= 1 {
        0
    } else {
        (x as u64) * (((sw as u64) - 1) * 256) / ((dw as u64) - 1)
    };
    let py: u64 = if dh <= 1 {
        0
    } else {
        (y as u64) * (((sh as u64) - 1) * 256) / ((dh as u64) - 1)
    };
    let x0: usize = (px / 256) as usize;
    let y0: usize = (py / 256) as usize;
    let fx: u64 = px % 256;
    let fy: u64 = py % 256;
    let x1: usize = if x0 + 1 < sw {
        x0 + 1
    } else {
        sw - 1
    };
    let y1: usize = if y0 + 1 < sh {
        y0 + 1
    } else {
        sh - 1
    };
    proof {
        lemma_cell_index(x0 as int, y0 as int, sw as int, sh as int);
        lemma_cell_index(x1 as int, y0 as int, sw as int, sh as int);
        lemma_cell_index(x0 as int, y1 as int, sw as int, sh as int);
        lemma_cell_index(x1 as int, y1 as int, sw as int, sh as int);
        assert(sw * sh <= 65536 * 65536) by (nonlinear_arith)
            requires
                sw <= 65536,
                sh <= 65536,
        ;
    }
    let v00: u64 = src[y0 * sw + x0] as u64;
    let v10: u64 = src[y0 * sw + x1] as u64;
    let v01: u64 = src[y1 * sw + x0] as u64;
    let v11: u64 = src[y1 * sw + x1] as u64;
    let wx0: u64 = 256 - fx;
    let wy0: u64 = 256 - fy;
    proof {
        assert((v00 as int) * (wx0 as int) <= 255 * 256 && (v10 as int) * (fx as int) <= 255 * 256
            && (v01 as int) * (wx0 as int) <= 255 * 256 && (v11 as int) * (fx as int) <= 255 * 256
            && 0 <= (v00 as int) * (wx0 as int) && 0 <= (v10 as int) * (fx as int) && 0 <= (
        v01 as int) * (wx0 as int) && 0 <= (v11 as int) * (fx as int)) by (nonlinear_arith)
            requires
                v00 <= 255,
                v10 <= 255,
                v01 <= 255,
                v11 <= 255,
                0 <= fx <= 256,
                0 <= wx0 <= 256,
        ;
        assert((v00 as int) * (wx0 as int) * (wy0 as int) <= 255 * 256 * 256 && (v10 as int) * (
        fx as int) * (wy0 as int) <= 255 * 256 * 256 && (v01 as int) * (wx0 as int) * (fy as int)
            <= 255 * 256 * 256 && (v11 as int) * (fx as int) * (fy as int) <= 255 * 256 * 256 && 0
            <= (v00 as int) * (wx0 as int) * (wy0 as int) && 0 <= (v10 as int) * (fx as int) * (
        wy0 as int) && 0 <= (v01 as int) * (wx0 as int) * (fy as int) && 0 <= (v11 as int) * (
        fx as int) * (fy as int)) by (nonlinear_arith)
            requires
                v00 <= 255,
                v10 <= 255,
                v01 <= 255,
                v11 <= 255,
                0 <= fx <= 256,
                0 <= fy <= 256,
                0 <= wx0 <= 256,
                0 <= wy0 <= 256,
        ;
        assert((v00 as int) * (wx0 as int) * (wy0 as int) + (v10 as int) * (fx as int) * (wy0 as int)
            + (v01 as int) * (wx0 as int) * (fy as int) + (v11 as int) * (fx as int) * (fy as int)
            <= 255 * 65536) by (nonlinear_arith)
            requires
                0 <= v00 <= 255,
                0 <= v10 <= 255,
                0 <= v01 <= 255,
                0 <= v11 <= 255,
                0 <= fx < 256,
                0 <= fy < 256,
                wx0 == 256 - fx,
                wy0 == 256 - fy,
        ;
    }
    let sum: u64 = v00 * wx0 * wy0 + v10 * fx * wy0 + v01 * wx0 * fy + v11 * fx * fy + 32768;
    (sum / 65536) as u8
}

/// Model post-processing: upscale the model's square probability grid to
/// the frame resolution with the bilinear interpolating filter, yielding
/// the continuous (still unthresholded) mask.
#[verifier::loop_isolation(false)]
pub fn finish_mask(grid: &Vec<u8>, model_size: usize, width: usize, height: usize) -> (m: Mask)
    requires
        1 <= model_size <= 65536,
        1 <= width <= 65536,
        1 <= height <= 65536,
        grid@.len() == model_size * model_size,
    ensures
        m.wf(),
        m.width == width,
        m.height == height,
        m.values@ == upscaled_grid(
            grid@,
            model_size as int,
            model_size as int,
            width as int,
            height as int,
        ),
{
    proof {
        assert(width * height <= 65536 * 65536) by (nonlinear_arith)
            requires
                width <= 65536,
                height <= 65536,
        ;
    }
    let mut values: Vec<u8> = Vec::new();
    let mut y: usize = 0;
    while y < height
        invariant
            y <= height,
            values@.len() == y * width,
            forall|k: int|
                0 <= k < values@.len() ==> values@[k] == upscaled_grid(
                    grid@,
                    model_size as int,
                    model_size as int,
                    width as int,
                    height as int,
                )[k],
        decreases height - y,
    {
        let mut x: usize = 0;
        while x < width
            invariant
                x <= width,
                values@.len() == y * width + x,
                forall|k: int|
                    0 <= k < values@.len() ==> values@[k] == upscaled_grid(
                        grid@,
                        model_size as int,
                        model_size as int,
                        width as int,
                        height as int,
                    )[k],
            decreases width - x,
        {
            proof {
                lemma_cell_index(x as int, y as int, width as int, height as int);
                lemma_fundamental_div_mod_converse(
                    (y * width + x) as int,
                    width as int,
                    y as int,
                    x as int,
                );
            }
            let v = bilinear_cell(grid, model_size, model_size, x, y, width, height);
            values.push(v);
            x = x + 1;
        }
        proof {
            assert(y * width + width == (y + 1) * width) by (nonlinear_arith);
        }
        y = y + 1;
    }
    proof {
        assert(height * width == width * height) by (nonlinear_arith);
        assert(values@ =~= upscaled_grid(
            grid@,
            model_size as int,
            model_size as int,
            width as int,
            height as int,
        ));
    }
    Mask { width, height, values }
}

/// Law: upscaling a constant grid yields a constant grid of the same
/// value everywhere, whatever the source and target dimensions.
pub proof fn lemma_upscale_constant(src: Seq<u8>, sw: int, sh: int, dw: int, dh: int, v: u8)
    requires
        1 <= sw,
        1 <= sh,
        1 <= dw,
        1 <= dh,
        src.len() == sw * sh,
        forall|i: int| 0 <= i < src.len() ==> src[i] == v,
    ensures
        forall|k: int| 0 <= k < dw * dh ==> #[trigger] upscaled_grid(src, sw, sh, dw, dh)[k] == v,
{
    assert forall|k: int| 0 <= k < dw * dh implies #[trigger] upscaled_grid(src, sw, sh, dw, dh)[k]
        == v by {
        lemma_multiply_divide_lt(k, dw, dh);
        lemma_div_pos_is_pos(k, dw);
        let x = k % dw;
        let y = k / dw;
        lemma_upscale_cell_ranges(sw, sh, x, y, dw, dh);
        let px = src_pos(x, sw, dw);
        let py = src_pos(y, sh, dh);
        let x0 = px / 256;
        let y0 = py / 256;
        let fx = px % 256;
        let fy = py % 256;
        let x1 = if x0 + 1 < sw {
            x0 + 1
        } else {
            sw - 1
        };
        let y1 = if y0 + 1 < sh {
            y0 + 1
        } else {
            sh - 1
        };
        lemma_cell_index(x0, y0, sw, sh);
        lemma_cell_index(x1, y0, sw, sh);
        lemma_cell_index(x0, y1, sw, sh);
        lemma_cell_index(x1, y1, sw, sh);
        let vi = v as int;
        assert(vi * (256 - fx) * (256 - fy) + vi * fx * (256 - fy) + vi * (256 - fx) * fy + vi * fx
            * fy == 65536 * vi) by (nonlinear_arith);
        lemma_div_multiples_vanish_fancy(vi, 32768, 65536);
    }
}

} // verus!
