use vstd::prelude::*;

verus! {

/// Number of colour channels of every pixel.
pub const CHANNELS: usize = 3;

/// A width × height grid of pixels, each made of `CHANNELS` samples of type `C`,
/// stored row by row.
#[derive(Debug)]
pub struct Raster<C> {
    width: usize,
    height: usize,
    samples: Vec<C>,
}

/// Position of the first sample of pixel (x, y) in a row-major layout.
pub open spec fn pixel_base(width: int, x: int, y: int) -> int {
    (y * width + x) * 3
}

impl<C: Copy> Raster<C> {
    pub closed spec fn spec_width(&self) -> nat {
        self.width as nat
    }

    pub closed spec fn spec_height(&self) -> nat {
        self.height as nat
    }

    /// All samples, row by row, three per pixel.
    pub closed spec fn view(&self) -> Seq<C> {
        self.samples@
    }

    pub closed spec fn wf(&self) -> bool {
        self.samples@.len() == self.width * self.height * 3
    }

    /// Channel `ch` of pixel (x, y).
    pub open spec fn at(&self, x: int, y: int, ch: int) -> C {
        self.view()[pixel_base(self.spec_width() as int, x, y) + ch]
    }

    pub open spec fn contains(&self, x: int, y: int) -> bool {
        0 <= x < self.spec_width() && 0 <= y < self.spec_height()
    }

    /// A raster over the given samples; `None` unless there are exactly
    /// three per pixel.
    pub fn new(width: usize, height: usize, samples: Vec<C>) -> (r: Option<Self>)
        ensures
            r.is_some() <==> samples@.len() == width * height * 3,
            r matches Some(img) ==> img.wf() && img.spec_width() == width
                && img.spec_height() == height && img@ == samples@,
    {
        let len = samples.len();
        match width.checked_mul(height) {
            None => {
                proof {
                    assert(width * height * 3 >= width * height) by (nonlinear_arith);
                }
                None
            },
            Some(pixels) => match pixels.checked_mul(3) {
                None => None,
                Some(n) => if n == len {
                    Some(Raster { width, height, samples })
                } else {
                    None
                },
            },
        }
    }

    /// A raster whose every sample is `value`.
    pub fn filled(width: usize, height: usize, value: C) -> (r: Self)
        requires
            width * height * 3 <= usize::MAX,
        ensures
            r.wf(),
            r.spec_width() == width,
            r.spec_height() == height,
            forall|i: int| 0 <= i < r@.len() ==> r@[i] == value,
    {
        let n = width * height * 3;
        let mut samples: Vec<C> = Vec::new();
        let mut i: usize = 0;
        while i < n
            invariant
                i <= n,
                samples@.len() == i,
                forall|k: int| 0 <= k < i ==> samples@[k] == value,
            decreases n - i,
        {
            samples.push(value);
            i += 1;
        }
        Raster { width, height, samples }
    }

    pub fn width(&self) -> (r: usize)
        ensures
            r == self.spec_width(),
    {
        self.width
    }

    pub fn height(&self) -> (r: usize)
        ensures
            r == self.spec_height(),
    {
        self.height
    }

    pub fn samples(&self) -> (r: &Vec<C>)
        ensures
            r@ == self@,
    {
        &self.samples
    }

    /// Channel `ch` of pixel (x, y).
    pub fn channel(&self, x: usize, y: usize, ch: usize) -> (r: C)
        requires
            self.wf(),
            x < self.spec_width(),
            y < self.spec_height(),
            ch < 3,
        ensures
            r == self.at(x as int, y as int, ch as int),
    {
        let _len = self.samples.len();
        proof { self.lemma_index_in_range(x as int, y as int, ch as int); }
        self.samples[(y * self.width + x) * 3 + ch]
    }

    pub proof fn lemma_index_in_range(&self, x: int, y: int, ch: int)
        requires
            self.wf(),
            0 <= x < self.spec_width(),
            0 <= y < self.spec_height(),
            0 <= ch < 3,
        ensures
            0 <= pixel_base(self.spec_width() as int, x, y) + ch < self@.len(),
            0 <= pixel_base(self.spec_width() as int, x, y),
            0 <= y * self.spec_width() <= y * self.spec_width() + x < self@.len(),
    {
        let w = self.spec_width() as int;
        let h = self.spec_height() as int;
        assert(0 <= y * w + x < w * h) by (nonlinear_arith)
            requires 0 <= x < w, 0 <= y < h;
        assert(0 <= (y * w + x) * 3 + ch < w * h * 3) by (nonlinear_arith)
            requires 0 <= y * w + x < w * h, 0 <= ch < 3;
    }
}

} // verus!
