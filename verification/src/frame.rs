use vstd::prelude::*;

verus! {

/// One captured image: a fixed resolution and a row-major buffer of
/// four 8-bit channels (red, green, blue, alpha) per pixel.
pub struct Frame {
    pub width: usize,
    pub height: usize,
    pub pixels: Vec<u8>,
}

/// A per-pixel foreground-probability grid at the same resolution as a
/// frame.  Each value `v` stands for the probability `v / 255`, so `0`
/// is certain background and `255` certain foreground; the grid is not
/// thresholded.
pub struct Mask {
    pub width: usize,
    pub height: usize,
    pub values: Vec<u8>,
}

/// `v` pulled into the index range `0 .. n`.
pub open spec fn clamp_index(v: int, n: int) -> int {
    if v < 0 {
        0
    } else if v >= n {
        n - 1
    } else {
        v
    }
}

/// A pixel position within a `w`-by-`h` grid addresses a cell of the
/// grid's row-major buffer.
pub proof fn lemma_cell_index(x: int, y: int, w: int, h: int)
    by (nonlinear_arith)
    requires
        0 <= x < w,
        0 <= y < h,
    ensures
        0 <= y * w + x < w * h,
{
}

impl Frame {
    /// A frame is well formed when the buffer holds exactly four bytes
    /// for each of its `width * height` pixels.
    pub open spec fn wf(&self) -> bool {
        self.pixels@.len() == self.width * self.height * 4
    }

    /// A frame of the given resolution with every channel set to `value`.
    pub fn new_filled(width: usize, height: usize, value: u8) -> (f: Frame)
        requires
            width * height * 4 <= usize::MAX,
        ensures
            f.wf(),
            f.width == width,
            f.height == height,
            forall|i: int| 0 <= i < f.pixels@.len() ==> f.pixels@[i] == value,
    {
        proof {
            assert(width * height <= width * height * 4) by (nonlinear_arith);
        }
        let count: usize = width * height;
        let mut pixels: Vec<u8> = Vec::new();
        let mut i: usize = 0;
        while i < count * 4
            invariant
                i <= count * 4,
                count * 4 <= usize::MAX,
                pixels@.len() == i,
                forall|j: int| 0 <= j < i ==> pixels@[j] == value,
            decreases count * 4 - i,
        {
            pixels.push(value);
            i = i + 1;
        }
        Frame { width, height, pixels }
    }
}

impl Mask {
    /// A mask is well formed when it holds one value per pixel.
    pub open spec fn wf(&self) -> bool {
        self.values@.len() == self.width * self.height
    }

    /// The stored probability at column `x`, row `y`.
    pub open spec fn value_at(&self, x: int, y: int) -> u8 {
        self.values@[y * self.width + x]
    }

    /// The probability used for the pixel at `(x, y)` once the spatial
    /// calibration offset `(dx, dy)` is applied; the shifted position is
    /// clamped to the grid.
    pub open spec fn sampled(&self, x: int, y: int, dx: int, dy: int) -> u8 {
        self.value_at(
            clamp_index(x + dx, self.width as int),
            clamp_index(y + dy, self.height as int),
        )
    }

    /// A mask of the given resolution with every value set to `value`.
    pub fn new_filled(width: usize, height: usize, value: u8) -> (m: Mask)
        requires
            width * height <= usize::MAX,
        ensures
            m.wf(),
            m.width == width,
            m.height == height,
            forall|i: int| 0 <= i < m.values@.len() ==> m.values@[i] == value,
    {
        let count: usize = width * height;
        let mut values: Vec<u8> = Vec::new();
        let mut i: usize = 0;
        while i < count
            invariant
                i <= count,
                values@.len() == i,
                forall|j: int| 0 <= j < i ==> values@[j] == value,
            decreases count - i,
        {
            values.push(value);
            i = i + 1;
        }
        Mask { width, height, values }
    }
}

} // verus!
