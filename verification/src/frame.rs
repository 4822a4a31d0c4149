//! The pixel buffer: its size, its row-major layout, and the composition of
//! a frame from the escape time of each pixel.

use vstd::prelude::*;
use crate::color::{Palette, MAX_PACKED};

verus! {

/// The size of the frame in pixels.
#[derive(Clone, Copy, Debug, PartialEq, Eq, Structural)]
pub struct Resolution {
    pub width: usize,
    pub height: usize,
}

impl Resolution {
    /// Both sides are positive, and the number of pixels fits in `usize`.
    pub open spec fn wf(&self) -> bool {
        &&& self.width > 0
        &&& self.height > 0
        &&& self.width * self.height <= usize::MAX
    }

    /// The number of pixels of a frame.
    pub open spec fn area(&self) -> int {
        self.width * self.height
    }

    /// Whether column `px` of row `py` is a pixel of the frame.
    pub open spec fn contains(&self, px: int, py: int) -> bool {
        0 <= px < self.width && 0 <= py < self.height
    }

    /// Where the pixel in column `px` of row `py` stands in a row-major buffer.
    pub open spec fn index(&self, px: int, py: int) -> int {
        py * self.width + px
    }

    /// A resolution of `width` by `height` pixels, unless a side is zero or
    /// the number of pixels does not fit in `usize`.
    pub fn new(width: usize, height: usize) -> (r: Option<Resolution>)
        ensures
            r is Some <==> width > 0 && height > 0 && width * height <= usize::MAX,
            r is Some ==> r->0 == (Resolution { width, height }),
    {
        if width == 0 || height == 0 {
            return None;
        }
        match width.checked_mul(height) {
            Some(_) => Some(Resolution { width, height }),
            None => None,
        }
    }

    /// The number of pixels of a frame, which is the length of its buffer.
    pub fn pixel_count(&self) -> (n: usize)
        requires
            self.wf(),
        ensures
            n == self.area(),
            n > 0,
    {
        proof {
            lemma_index_in_area(*self, 0, 0);
        }
        self.width * self.height
    }

    /// The place in a row-major buffer of the pixel in column `px` of row `py`.
    pub fn index_of(&self, px: usize, py: usize) -> (i: usize)
        requires
            self.wf(),
            self.contains(px as int, py as int),
        ensures
            i == self.index(px as int, py as int),
            i < self.area(),
    {
        proof {
            lemma_index_in_area(*self, px as int, py as int);
        }
        py * self.width + px
    }
}

/// A pixel of the frame has its place inside the buffer, after the places of
/// all rows above it.
pub proof fn lemma_index_in_area(resolution: Resolution, px: int, py: int)
    requires
        resolution.contains(px, py),
    ensures
        0 <= py * resolution.width <= resolution.index(px, py) < resolution.area(),
{
    let w = resolution.width as int;
    let h = resolution.height as int;
    assert(0 <= py * w && py * w + w <= h * w && h * w == w * h) by (nonlinear_arith)
        requires
            0 <= py < h,
            0 < w,
    ;
}

/// Whether `frame` is the picture that `palette` gives to `escape_times`:
/// one colour for each pixel of `resolution`, rows from the top down, and
/// the pixel in column `px` of row `py`, whose escape time is
/// `escape_times[py * width + px]`, has the palette entry one below that
/// escape time.
pub open spec fn is_frame(
    frame: Seq<u32>,
    resolution: Resolution,
    palette: Seq<u32>,
    escape_times: Seq<usize>,
) -> bool {
    &&& frame.len() == resolution.area()
    &&& forall|px: int, py: int|
        resolution.contains(px, py) ==> frame[#[trigger] resolution.index(px, py)]
            == palette[escape_times[resolution.index(px, py)] - 1]
}

/// Whether each of `escape_times` lies between 1 and `bound`.
pub open spec fn within_bound(escape_times: Seq<usize>, bound: int) -> bool {
    forall|i: int| 0 <= i < escape_times.len() ==> 1 <= #[trigger] escape_times[i] <= bound
}

/// A buffer for a frame of `resolution`, every pixel zero.
pub fn blank_frame(resolution: &Resolution) -> (buffer: Vec<u32>)
    requires
        resolution.wf(),
    ensures
        buffer@.len() == resolution.area(),
        forall|i: int| 0 <= i < buffer@.len() ==> buffer@[i] == 0,
{
    vec![0u32; resolution.pixel_count()]
}

/// Writes into every pixel of `buffer` the colour that `palette` holds for
/// the pixel's escape time. `escape_times` is row-major, as the buffer is.
pub fn compose(
    buffer: &mut Vec<u32>,
    resolution: &Resolution,
    palette: &Palette,
    escape_times: &Vec<usize>,
)
    requires
        resolution.wf(),
        old(buffer)@.len() == resolution.area(),
        escape_times@.len() == resolution.area(),
        within_bound(escape_times@, palette@.len() as int),
    ensures
        is_frame(final(buffer)@, *resolution, palette@, escape_times@),
        palette.wf() ==> forall|i: int|
            0 <= i < final(buffer)@.len() ==> #[trigger] final(buffer)@[i] <= MAX_PACKED,
{
    let width: usize = resolution.width;
    let height: usize = resolution.height;
    for py in 0..height
        invariant
            resolution.wf(),
            width == resolution.width,
            height == resolution.height,
            buffer@.len() == resolution.area(),
            escape_times@.len() == resolution.area(),
            within_bound(escape_times@, palette@.len() as int),
            forall|i: int|
                0 <= i < py * width ==> #[trigger] buffer@[i] == palette@[escape_times@[i] - 1],
    {
        for px in 0..width
            invariant
                resolution.wf(),
                width == resolution.width,
                height == resolution.height,
                py < height,
                buffer@.len() == resolution.area(),
                escape_times@.len() == resolution.area(),
                within_bound(escape_times@, palette@.len() as int),
                forall|i: int|
                    0 <= i < py * width + px ==> #[trigger] buffer@[i] == palette@[escape_times@[i] - 1],
        {
            let i: usize = resolution.index_of(px, py);
            let color: u32 = palette.color_for(escape_times[i]);
            buffer.set(i, color);
        }
        assert(py * width + width == (py + 1) * width) by (nonlinear_arith);
    }
    proof {
        assert(height * width == width * height) by (nonlinear_arith);
        assert forall|px: int, py: int| resolution.contains(px, py) implies
            buffer@[#[trigger] resolution.index(px, py)]
                == palette@[escape_times@[resolution.index(px, py)] - 1] by {
            lemma_index_in_area(*resolution, px, py);
        }
    }
}

/// Every place of a row-major buffer is the place of a pixel of the frame:
/// the one in column `i % width` of row `i / width`.
pub proof fn lemma_index_onto(resolution: Resolution, i: int)
    requires
        resolution.wf(),
        0 <= i < resolution.area(),
    ensures
        resolution.contains(i % (resolution.width as int), i / (resolution.width as int)),
        resolution.index(i % (resolution.width as int), i / (resolution.width as int)) == i,
{
    let w = resolution.width as int;
    let h = resolution.height as int;
    assert(0 <= i % w < w && 0 <= i / w < h && (i / w) * w + i % w == i) by (nonlinear_arith)
        requires
            0 <= i < w * h,
            0 < w,
    ;
}

/// The frame is a function of what it is composed from: two frames that
/// both are the picture of the same resolution, palette and escape times
/// are equal, pixel for pixel.
pub proof fn lemma_frame_unique(
    first: Seq<u32>,
    second: Seq<u32>,
    resolution: Resolution,
    palette: Seq<u32>,
    escape_times: Seq<usize>,
)
    requires
        resolution.wf(),
        is_frame(first, resolution, palette, escape_times),
        is_frame(second, resolution, palette, escape_times),
    ensures
        first == second,
{
    assert forall|i: int| 0 <= i < first.len() implies first[i] == second[i] by {
        let w = resolution.width as int;
        lemma_index_onto(resolution, i);
        assert(first[resolution.index(i % w, i / w)] == second[resolution.index(i % w, i / w)]);
    }
    assert(first =~= second);
}

} // verus!
