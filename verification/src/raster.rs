//! Assembly of the pixel buffer: frequency bins are grouped into columns,
//! each group becomes one pixel, rows follow each other in time order.

use vstd::prelude::*;
use vstd::slice::slice_subrange;
use crate::error::ImageError;
use crate::spectrum::rectangular;

verus! {

/// One pixel.
#[derive(Clone, Copy, Debug, PartialEq, Eq, Structural)]
pub struct Rgb {
    pub r: u8,
    pub g: u8,
    pub b: u8,
}

/// A picture: `height` rows of `width` pixels, three bytes a pixel.
#[derive(Debug)]
pub struct Raster {
    pub width: usize,
    pub height: usize,
    pub pixels: Vec<u8>,
}

impl Raster {
    /// The buffer holds three bytes for each pixel, and no more.
    pub open spec fn well_formed(&self) -> bool {
        self.pixels@.len() == self.width * self.height * 3
    }

    /// The pixel in row `y` and column `x`.
    pub open spec fn pixel(&self, y: int, x: int) -> Rgb {
        rgb_at(self.pixels@, (y * self.width + x) * 3)
    }
}

/// The number of columns that `bins` bins make in groups of `d`: the
/// quotient, rounded up.
pub open spec fn raster_width_spec(bins: int, d: int) -> int {
    (bins + d - 1) / d
}

/// The bins of column `x`: `d` of them from `x * d` on, or those that are left.
pub open spec fn group_of<M>(row: Seq<M>, d: int, x: int) -> Seq<M> {
    row.subrange(
        x * d,
        if (x + 1) * d <= row.len() {
            (x + 1) * d
        } else {
            row.len() as int
        },
    )
}

/// The pixel whose three bytes start at `at`.
pub open spec fn rgb_at(pixels: Seq<u8>, at: int) -> Rgb {
    Rgb { r: pixels[at], g: pixels[at + 1], b: pixels[at + 2] }
}

/// Whether `colour` gives `px` for the bins in `group`.
pub open spec fn is_pixel<M, F: Fn(&[M]) -> Rgb>(colour: F, group: Seq<M>, px: Rgb) -> bool {
    exists|g: &[M]| g@ == group && #[trigger] call_ensures(colour, (g,), px)
}

/// Whether the bytes from `base` on are the pixels of `row`, lowest
/// frequencies first.
pub open spec fn row_painted<M, F: Fn(&[M]) -> Rgb>(
    colour: F,
    row: Seq<M>,
    d: int,
    pixels: Seq<u8>,
    base: int,
) -> bool {
    forall|x: int|
        0 <= x < raster_width_spec(row.len() as int, d) ==> is_pixel(
            colour,
            group_of(row, d, x),
            #[trigger] rgb_at(pixels, base + 3 * x),
        )
}

/// Whether `raster` is the picture of `matrix`: one row for each window in
/// time order, one pixel for each group of `d` bins, three bytes a pixel.
pub open spec fn is_picture<M, F: Fn(&[M]) -> Rgb>(
    colour: F,
    matrix: Seq<Vec<M>>,
    d: int,
    raster: Raster,
) -> bool {
    &&& matrix.len() > 0
    &&& raster.well_formed()
    &&& raster.height == matrix.len()
    &&& raster.width == raster_width_spec(matrix[0]@.len() as int, d)
    &&& forall|y: int|
        0 <= y < raster.height ==> row_painted(
            colour,
            (#[trigger] matrix[y])@,
            d,
            raster.pixels@,
            y * raster.width * 3,
        )
}

/// In a picture, `colour` gives the pixel in row `y` and column `x` for the
/// bins of group `x` of window `y`.
pub proof fn lemma_picture_pixel<M, F: Fn(&[M]) -> Rgb>(
    colour: F,
    matrix: Seq<Vec<M>>,
    d: int,
    raster: Raster,
    y: int,
    x: int,
)
    requires
        is_picture(colour, matrix, d, raster),
        rectangular(matrix, matrix[0]@.len()),
        0 <= y < raster.height,
        0 <= x < raster.width,
    ensures
        is_pixel(colour, group_of(matrix[y]@, d, x), raster.pixel(y, x)),
{
    let w = raster.width as int;
    assert((y * w + x) * 3 == y * w * 3 + 3 * x) by (nonlinear_arith);
    assert(row_painted(colour, matrix[y]@, d, raster.pixels@, y * w * 3));
    assert(matrix[y]@.len() == matrix[0]@.len());
    assert(is_pixel(colour, group_of(matrix[y]@, d, x), rgb_at(raster.pixels@, y * w * 3 + 3 * x)));
}

/// The columns cover the bins, and the last column is not empty.
pub proof fn lemma_width_bounds(bins: int, d: int)
    requires
        bins >= 0,
        d > 0,
    ensures
        raster_width_spec(bins, d) >= 0,
        raster_width_spec(bins, d) * d >= bins,
        (raster_width_spec(bins, d) - 1) * d < bins || bins == 0,
        bins == 0 <==> raster_width_spec(bins, d) == 0,
        raster_width_spec(bins, d) == bins / d + if bins % d == 0 {
            0int
        } else {
            1int
        },
{
    let c = (bins + d - 1) / d;
    assert(c * d <= bins + d - 1 < (c + 1) * d) by (nonlinear_arith)
        requires
            c == (bins + d - 1) / d,
            d > 0,
    ;
    assert(c >= 0) by (nonlinear_arith)
        requires
            bins + d - 1 < (c + 1) * d,
            bins >= 0,
            d > 0,
    ;
    assert((c - 1) * d == c * d - d) by (nonlinear_arith);
    assert(c == 0 ==> c * d == 0) by (nonlinear_arith);
    let q = bins / d;
    let m = bins % d;
    assert(bins == q * d + m && 0 <= m < d) by (nonlinear_arith)
        requires
            q == bins / d,
            m == bins % d,
            d > 0,
    ;
    assert(c == q + if m == 0 { 0int } else { 1int }) by (nonlinear_arith)
        requires
            bins == q * d + m,
            0 <= m < d,
            c * d <= bins + d - 1 < (c + 1) * d,
            d > 0,
    ;
}

/// Column `x` of a row of `bins` bins starts inside the row and holds
/// between one and `d` bins.
pub proof fn lemma_group_bounds(bins: int, d: int, x: int)
    requires
        bins >= 0,
        d > 0,
        0 <= x < raster_width_spec(bins, d),
    ensures
        0 <= x * d < bins,
        (x + 1) * d == x * d + d,
{
    lemma_width_bounds(bins, d);
    let c = raster_width_spec(bins, d);
    assert(x * d <= (c - 1) * d) by (nonlinear_arith)
        requires
            x <= c - 1,
            d > 0,
    ;
    assert(0 <= x * d) by (nonlinear_arith)
        requires
            0 <= x,
            d > 0,
    ;
    assert((x + 1) * d == x * d + d) by (nonlinear_arith);
}

/// The number of pixel columns for `bins` bins in groups of `d`.
pub fn raster_width(bins: usize, d: usize) -> (width: usize)
    requires
        d > 0,
    ensures
        width == raster_width_spec(bins as int, d as int),
        width * d >= bins,
        bins > 0 ==> (width - 1) * d < bins,
        width <= bins,
{
    proof {
        lemma_width_bounds(bins as int, d as int);
        assert(bins / d <= bins && (bins % d != 0 ==> bins / d < bins)) by (nonlinear_arith)
            requires
                d > 0,
                bins >= 0,
        ;
    }
    if bins % d == 0 {
        bins / d
    } else {
        bins / d + 1
    }
}

/// A painted row stays painted when bytes are added behind it.
pub proof fn lemma_row_painted_extends<M, F: Fn(&[M]) -> Rgb>(
    colour: F,
    row: Seq<M>,
    d: int,
    before: Seq<u8>,
    after: Seq<u8>,
    base: int,
)
    requires
        d > 0,
        base >= 0,
        row_painted(colour, row, d, before, base),
        base + 3 * raster_width_spec(row.len() as int, d) <= before.len() <= after.len(),
        forall|i: int| 0 <= i < before.len() ==> before[i] == after[i],
    ensures
        row_painted(colour, row, d, after, base),
{
    assert forall|x: int| 0 <= x < raster_width_spec(row.len() as int, d) implies is_pixel(
        colour,
        group_of(row, d, x),
        #[trigger] rgb_at(after, base + 3 * x),
    ) by {
        assert(rgb_at(after, base + 3 * x) == rgb_at(before, base + 3 * x));
    }
}

/// Adds the pixels of one row to the buffer.
fn paint_row<M: Copy, F: Fn(&[M]) -> Rgb>(pixels: &mut Vec<u8>, row: &[M], d: usize, colour: &F)
    requires
        d > 0,
        forall|g: &[M]| 0 < g@.len() <= d ==> call_requires(*colour, (g,)),
    ensures
        final(pixels)@.len() == old(pixels)@.len() + 3 * raster_width_spec(
            row@.len() as int,
            d as int,
        ),
        forall|i: int| 0 <= i < old(pixels)@.len() ==> final(pixels)@[i] == old(pixels)@[i],
        row_painted(*colour, row@, d as int, final(pixels)@, old(pixels)@.len() as int),
{
    let bins = row.len();
    let width = raster_width(bins, d);
    let ghost base = pixels@.len() as int;
    let mut x: usize = 0;
    while x < width
        invariant
            d > 0,
            bins == row@.len(),
            width == raster_width_spec(bins as int, d as int),
            x <= width,
            base == old(pixels)@.len(),
            pixels@.len() == base + 3 * x,
            forall|g: &[M]| 0 < g@.len() <= d ==> call_requires(*colour, (g,)),
            forall|i: int| 0 <= i < base ==> pixels@[i] == old(pixels)@[i],
            forall|k: int|
                0 <= k < x ==> is_pixel(
                    *colour,
                    group_of(row@, d as int, k),
                    #[trigger] rgb_at(pixels@, base + 3 * k),
                ),
        decreases width - x,
    {
        proof {
            lemma_group_bounds(bins as int, d as int, x as int);
        }
        let start = x * d;
        let end = if bins - start < d {
            bins
        } else {
            start + d
        };
        let group = slice_subrange(row, start, end);
        assert(group@ == group_of(row@, d as int, x as int));
        let px = colour(group);
        let ghost before = pixels@;
        pixels.push(px.r);
        pixels.push(px.g);
        pixels.push(px.b);
        proof {
            assert(rgb_at(pixels@, base + 3 * x) == px);
            assert forall|k: int| 0 <= k < x + 1 implies is_pixel(
                *colour,
                group_of(row@, d as int, k),
                #[trigger] rgb_at(pixels@, base + 3 * k),
            ) by {
                if k < x {
                    assert(rgb_at(pixels@, base + 3 * k) == rgb_at(before, base + 3 * k));
                }
            }
        }
        x += 1;
    }
}

/// Paints the matrix: one row of pixels for each window, in time order, one
/// pixel for each group of `d` bins, lowest frequencies first. `colour`
/// gives the pixel for the bins of one group.
pub fn rasterize<M: Copy, F: Fn(&[M]) -> Rgb>(matrix: &Vec<Vec<M>>, d: usize, colour: F) -> (r:
    Raster)
    requires
        d > 0,
        matrix@.len() > 0,
        rectangular(matrix@, matrix@[0]@.len()),
        forall|g: &[M]| 0 < g@.len() <= d ==> call_requires(colour, (g,)),
    ensures
        is_picture(colour, matrix@, d as int, r),
{
    let height = matrix.len();
    let bins = matrix[0].len();
    let width = raster_width(bins, d);
    let mut pixels: Vec<u8> = Vec::new();
    let mut y: usize = 0;
    while y < height
        invariant
            d > 0,
            height == matrix@.len(),
            bins == matrix@[0]@.len(),
            rectangular(matrix@, bins as nat),
            width == raster_width_spec(bins as int, d as int),
            y <= height,
            pixels@.len() == y * width * 3,
            forall|g: &[M]| 0 < g@.len() <= d ==> call_requires(colour, (g,)),
            forall|k: int|
                0 <= k < y ==> row_painted(
                    colour,
                    (#[trigger] matrix@[k])@,
                    d as int,
                    pixels@,
                    k * width * 3,
                ),
        decreases height - y,
    {
        let ghost before = pixels@;
        paint_row(&mut pixels, matrix[y].as_slice(), d, &colour);
        proof {
            assert((y + 1) * width * 3 == y * width * 3 + 3 * width) by (nonlinear_arith);
            assert forall|k: int| 0 <= k < y + 1 implies row_painted(
                colour,
                (#[trigger] matrix@[k])@,
                d as int,
                pixels@,
                k * width * 3,
            ) by {
                if k < y {
                    assert(k * width * 3 + 3 * width <= y * width * 3 && k * width * 3 >= 0)
                        by (nonlinear_arith)
                        requires
                            0 <= k < y,
                            width >= 0,
                    ;
                    lemma_row_painted_extends(
                        colour,
                        matrix@[k]@,
                        d as int,
                        before,
                        pixels@,
                        k * width * 3,
                    );
                }
            }
        }
        y += 1;
    }
    assert(height * width * 3 == width * height * 3) by (nonlinear_arith);
    Raster { width, height, pixels }
}

/// The picture's dimensions as the 32-bit numbers that an image file holds.
pub fn sink_dimensions(raster: &Raster) -> (r: Result<(u32, u32), ImageError>)
    ensures
        raster.width <= u32::MAX && raster.height <= u32::MAX ==> r == Ok::<
            (u32, u32),
            ImageError,
        >((raster.width as u32, raster.height as u32)),
        raster.width > u32::MAX || raster.height > u32::MAX ==> r == Err::<
            (u32, u32),
            ImageError,
        >(ImageError::TooLarge),
{
    if raster.width > 0xffff_ffff || raster.height > 0xffff_ffff {
        Err(ImageError::TooLarge)
    } else {
        Ok((raster.width as u32, raster.height as u32))
    }
}

/// The number of bytes in the buffer of a picture of the given dimensions.
pub open spec fn buffer_len_spec(width: int, height: int) -> int {
    width * height * 3
}

/// Tests a pixel buffer's length against the picture's dimensions.
pub fn check_pixel_buffer(width: u32, height: u32, len: usize) -> (r: Result<(), ImageError>)
    ensures
        len == buffer_len_spec(width as int, height as int) ==> r is Ok,
        len != buffer_len_spec(width as int, height as int) ==> r == Err::<(), ImageError>(
            ImageError::LengthMismatch(buffer_len_spec(width as int, height as int) as u128, len),
        ),
{
    let w = width as u128;
    let h = height as u128;
    assert(w * h <= 0xffff_ffff * 0xffff_ffff) by (nonlinear_arith)
        requires
            0 <= w <= 0xffff_ffff,
            0 <= h <= 0xffff_ffff,
    ;
    let expected = w * h * 3;
    if len as u128 == expected {
        Ok(())
    } else {
        Err(ImageError::LengthMismatch(expected, len))
    }
}

} // verus!
