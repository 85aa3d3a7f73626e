//! The render configuration and the order in which pixels are visited.

use itertools::Itertools;
use vstd::prelude::*;

verus! {

/// Image size, samples per pixel, discrete time samples across the shutter
/// interval, and the recursion limit of the light-transport kernel.
pub struct Config {
    image_width: usize,
    image_height: usize,
    samples_per_pixel: usize,
    time_samples: usize,
    max_depth: usize,
}

/// The pixel at row-major position `k` of an image `width` pixels wide, as
/// (row, column).
pub open spec fn pixel_at(k: int, width: int) -> (usize, usize) {
    ((k / width) as usize, (k % width) as usize)
}

/// Relies on itertools' `cartesian_product`, which yields the pairs of two
/// iterators in lexicographic order: every column of row 0, then of row 1,
/// and so on. The bound keeps the collected pairs, 16 bytes each, within what
/// one allocation may hold even if the vector doubles its capacity on the way.
#[verifier::external_body]
fn grid(rows: usize, cols: usize) -> (r: Vec<(usize, usize)>)
    requires
        rows * cols * 32 <= isize::MAX,
    ensures
        r@.len() == rows * cols,
        forall|k: int| 0 <= k < rows * cols ==> #[trigger] r@[k] == pixel_at(k, cols as int),
{
    (0..rows).cartesian_product(0..cols).collect()
}

impl Config {
    pub closed spec fn width(&self) -> nat {
        self.image_width as nat
    }

    pub closed spec fn height(&self) -> nat {
        self.image_height as nat
    }

    pub closed spec fn samples(&self) -> nat {
        self.samples_per_pixel as nat
    }

    pub closed spec fn times(&self) -> nat {
        self.time_samples as nat
    }

    pub closed spec fn depth(&self) -> nat {
        self.max_depth as nat
    }

    /// Every field is a positive integer.
    pub open spec fn wf(&self) -> bool {
        &&& self.width() > 0
        &&& self.height() > 0
        &&& self.samples() > 0
        &&& self.times() > 0
        &&& self.depth() > 0
    }

    pub fn new(
        image_width: usize,
        image_height: usize,
        samples_per_pixel: usize,
        time_samples: usize,
        max_depth: usize,
    ) -> (r: Self)
        ensures
            r.width() == image_width,
            r.height() == image_height,
            r.samples() == samples_per_pixel,
            r.times() == time_samples,
            r.depth() == max_depth,
    {
        Config { image_width, image_height, samples_per_pixel, time_samples, max_depth }
    }

    pub fn image_width(&self) -> (r: usize)
        ensures
            r == self.width(),
    {
        self.image_width
    }

    pub fn image_height(&self) -> (r: usize)
        ensures
            r == self.height(),
    {
        self.image_height
    }

    pub fn samples_per_pixel(&self) -> (r: usize)
        ensures
            r == self.samples(),
    {
        self.samples_per_pixel
    }

    pub fn time_samples(&self) -> (r: usize)
        ensures
            r == self.times(),
    {
        self.time_samples
    }

    pub fn max_depth(&self) -> (r: usize)
        ensures
            r == self.depth(),
    {
        self.max_depth
    }

    /// The length of the pixel buffer: one entry per pixel.
    pub fn pixel_count(&self) -> (r: usize)
        requires
            self.width() * self.height() <= usize::MAX,
        ensures
            r == self.width() * self.height(),
    {
        self.image_width * self.image_height
    }

    /// The number of kernel evaluations averaged into each pixel: samples per
    /// pixel times time samples.
    pub fn sample_count(&self) -> (r: usize)
        requires
            self.samples() * self.times() <= usize::MAX,
        ensures
            r == self.samples() * self.times(),
    {
        self.samples_per_pixel * self.time_samples
    }

    /// The denominators that map a column and a row, plus a sub-pixel offset,
    /// to normalized image-plane coordinates: width - 1 and height - 1.
    pub fn plane_spans(&self) -> (r: (usize, usize))
        requires
            self.wf(),
        ensures
            r.0 == self.width() - 1,
            r.1 == self.height() - 1,
    {
        (self.image_width - 1, self.image_height - 1)
    }

    /// Every pixel as (row, column), in row-major order: entry `k` is pixel
    /// `k` of the buffer.
    pub fn pixel_coords(&self) -> (r: Vec<(usize, usize)>)
        requires
            self.width() * self.height() * 32 <= isize::MAX,
        ensures
            r@.len() == self.width() * self.height(),
            forall|k: int|
                0 <= k < r@.len() ==> #[trigger] r@[k] == pixel_at(k, self.width() as int),
            forall|k: int|
                0 <= k < r@.len() ==> (#[trigger] r@[k]).0 < self.height() && r@[k].1 < self.width(),
    {
        proof {
            vstd::arithmetic::mul::lemma_mul_is_commutative(self.width() as int, self.height() as int);
        }
        let r = grid(self.image_height, self.image_width);
        assert forall|k: int| 0 <= k < r@.len() implies (#[trigger] r@[k]).0 < self.height() && r@[k].1 < self.width() by {
            assert(r@[k] == pixel_at(k, self.width() as int));
            lemma_pixel_in_bounds(k, self.height() as int, self.width() as int);
        }
        r
    }
}

/// Adds one time sample's pixel estimates into the running image, pixel by
/// pixel: entry `k` of the result is `sum` of entry `k` of `image` and of
/// `frame`.
pub fn accumulate<C, A: Fn(&C, &C) -> C>(image: &Vec<C>, frame: &Vec<C>, sum: &A) -> (r: Vec<C>)
    requires
        image@.len() == frame@.len(),
        forall|a: &C, b: &C| #[trigger] sum.requires((a, b)),
    ensures
        r@.len() == image@.len(),
        forall|k: int|
            0 <= k < r@.len() ==> #[trigger] sum.ensures((&image@[k], &frame@[k]), r@[k]),
{
    let n = image.len();
    let mut r: Vec<C> = Vec::with_capacity(n);
    let mut k: usize = 0;
    while k < n
        invariant
            n == image@.len(),
            n == frame@.len(),
            0 <= k <= n,
            r@.len() == k,
            forall|a: &C, b: &C| #[trigger] sum.requires((a, b)),
            forall|j: int| 0 <= j < k ==> #[trigger] sum.ensures((&image@[j], &frame@[j]), r@[j]),
        decreases n - k,
    {
        let c = sum(&image[k], &frame[k]);
        r.push(c);
        k += 1;
    }
    r
}

proof fn lemma_pixel_in_bounds(k: int, rows: int, cols: int)
    requires
        0 <= k < rows * cols,
        rows >= 0,
        cols >= 0,
    ensures
        0 <= k / cols < rows,
        0 <= k % cols < cols,
{
    assert(cols > 0) by (nonlinear_arith)
        requires
            0 <= k < rows * cols,
            rows >= 0,
            cols >= 0,
    ;
    assert(k / cols < rows) by (nonlinear_arith)
        requires
            0 <= k < rows * cols,
            cols > 0,
    ;
    assert(0 <= k / cols) by (nonlinear_arith)
        requires
            0 <= k,
            cols > 0,
    ;
}

} // verus!
