//! The pixel buffer: a dense, row-major grid of colours of fixed width and
//! height, stored in an RGBA image of the `image` crate.

use vstd::prelude::*;
use crate::color::Color;
use crate::grid::{
    RgbaGrid, color_at, grid_bytes, grid_clone, grid_from_raw, grid_get_pixel, grid_height,
    grid_into_raw, grid_put_pixel, grid_size, grid_width, pixel_offset, store_color,
};

verus! {

/// A grid of `width * height` colours, neither dimension zero.
pub struct PixelBuffer {
    grid: RgbaGrid,
}

/// A pixel inside a `width * height` grid has its place below `width * height`.
pub proof fn lemma_place_in_range(width: nat, height: nat, x: int, y: int)
    by (nonlinear_arith)
    requires
        0 <= x < width,
        0 <= y < height,
    ensures
        0 <= y * width + x < width * height,
{
}

/// Two pixels of a row-major grid that share a place are the same pixel.
pub proof fn lemma_place_is_injective(width: nat, x1: int, y1: int, x2: int, y2: int)
    by (nonlinear_arith)
    requires
        0 <= x1 < width,
        0 <= x2 < width,
        0 <= y1,
        0 <= y2,
        y1 * width + x1 == y2 * width + x2,
    ensures
        x1 == x2,
        y1 == y2,
{
}

/// The colour made of the `k`-th group of four bytes.
spec fn nth_color(bytes: Seq<u8>, k: int) -> Color {
    color_at(bytes, 4 * k)
}

impl PixelBuffer {
    /// The number of pixels in a row.
    pub closed spec fn spec_width(&self) -> nat {
        grid_size(self.grid).0
    }

    /// The number of rows.
    pub closed spec fn spec_height(&self) -> nat {
        grid_size(self.grid).1
    }

    /// The stored bytes: four per pixel, row after row.
    pub closed spec fn raw(&self) -> Seq<u8> {
        grid_bytes(self.grid)
    }

    /// Both dimensions are positive and fit a `u32`, and the bytes are exactly
    /// those of the pixels.
    pub open spec fn wf(&self) -> bool {
        &&& 0 < self.spec_width() <= u32::MAX
        &&& 0 < self.spec_height() <= u32::MAX
        &&& self.raw().len() == 4 * (self.spec_width() * self.spec_height())
    }

    /// `(x, y)` names a pixel of this buffer.
    pub open spec fn in_bounds(&self, x: int, y: int) -> bool {
        0 <= x < self.spec_width() && 0 <= y < self.spec_height()
    }

    /// The colour at column `x` of row `y`.
    pub open spec fn pixel(&self, x: int, y: int) -> Color {
        color_at(self.raw(), pixel_offset(self.spec_width(), x, y))
    }

    /// Every pixel of the buffer has the colour `c`.
    pub open spec fn is_uniform(&self, c: Color) -> bool {
        forall|x: int, y: int| self.in_bounds(x, y) ==> #[trigger] self.pixel(x, y) == c
    }

    /// The two buffers have the same dimensions.
    pub open spec fn same_size(&self, other: &PixelBuffer) -> bool {
        self.spec_width() == other.spec_width() && self.spec_height() == other.spec_height()
    }

    /// Wraps `buf` as a buffer of `width * height` pixels. Succeeds exactly
    /// when both dimensions are positive and `buf` holds four bytes per pixel,
    /// no more and no fewer.
    pub fn from_raw(width: u32, height: u32, buf: Vec<u8>) -> (made: Option<PixelBuffer>)
        ensures
            made.is_some() == (width > 0 && height > 0 && buf@.len() == 4 * (width * height)),
            made matches Some(b) ==> b.wf() && b.spec_width() == width && b.spec_height() == height
                && b.raw() == buf@,
    {
        if width == 0 || height == 0 {
            return None;
        }
        assert(width * height <= 0xffff_ffff * 0xffff_ffff && width <= width * height)
            by (nonlinear_arith)
            requires
                0 < width <= 0xffff_ffff,
                0 < height <= 0xffff_ffff,
        ;
        let area: u128 = (width as u128) * (height as u128);
        if buf.len() as u128 != 4 * area {
            return None;
        }
        match grid_from_raw(width, height, buf) {
            Some(grid) => Some(PixelBuffer { grid }),
            None => None,
        }
    }

    /// A buffer of `width * height` pixels, each of the colour `fill`.
    pub fn new(width: u32, height: u32, fill: Color) -> (b: PixelBuffer)
        requires
            width > 0,
            height > 0,
            4 * (width * height) <= usize::MAX,
        ensures
            b.wf(),
            b.spec_width() == width,
            b.spec_height() == height,
            b.is_uniform(fill),
    {
        assert(0 < width * height) by (nonlinear_arith)
            requires
                width > 0,
                height > 0,
        ;
        let count: usize = (width as usize) * (height as usize);
        let mut buf: Vec<u8> = Vec::new();
        let mut i: usize = 0;
        while i < count
            invariant
                i <= count,
                buf@.len() == 4 * i,
                forall|k: int| 0 <= k < i ==> #[trigger] nth_color(buf@, k) == fill,
            decreases count - i,
        {
            let ghost filled = buf@;
            buf.push(fill.r);
            buf.push(fill.g);
            buf.push(fill.b);
            buf.push(fill.a);
            assert forall|k: int| 0 <= k < i + 1 implies #[trigger] nth_color(buf@, k) == fill by {
                if k < i {
                    assert(nth_color(filled, k) == fill);
                }
            }
            i = i + 1;
        }
        let ghost bytes = buf@;
        let made = PixelBuffer::from_raw(width, height, buf);
        let b = made.unwrap();
        assert forall|x: int, y: int| b.in_bounds(x, y) implies #[trigger] b.pixel(x, y)
            == fill by {
            lemma_place_in_range(width as nat, height as nat, x, y);
            assert(nth_color(bytes, y * width + x) == fill);
        }
        b
    }

    /// Gives the bytes back: four per pixel, row after row.
    pub fn into_raw(self) -> (buf: Vec<u8>)
        ensures
            buf@ == self.raw(),
    {
        grid_into_raw(self.grid)
    }

    /// The number of pixels in a row.
    pub fn width(&self) -> (w: u32)
        requires
            self.wf(),
        ensures
            w == self.spec_width(),
            w > 0,
    {
        grid_width(&self.grid)
    }

    /// The number of rows.
    pub fn height(&self) -> (h: u32)
        requires
            self.wf(),
        ensures
            h == self.spec_height(),
            h > 0,
    {
        grid_height(&self.grid)
    }

    /// The colour at `(x, y)`.
    pub fn get(&self, x: u32, y: u32) -> (c: Color)
        requires
            self.wf(),
            self.in_bounds(x as int, y as int),
        ensures
            c == self.pixel(x as int, y as int),
    {
        grid_get_pixel(&self.grid, x, y)
    }

    /// Sets the colour at `(x, y)` and leaves every other pixel as it was.
    pub fn set(&mut self, x: u32, y: u32, c: Color)
        requires
            old(self).wf(),
            old(self).in_bounds(x as int, y as int),
        ensures
            final(self).wf(),
            final(self).same_size(old(self)),
            final(self).raw() == store_color(
                old(self).raw(),
                pixel_offset(old(self).spec_width(), x as int, y as int),
                c,
            ),
            final(self).pixel(x as int, y as int) == c,
            forall|i: int, j: int|
                old(self).in_bounds(i, j) && !(i == x && j == y) ==> #[trigger] final(self).pixel(
                    i,
                    j,
                ) == old(self).pixel(i, j),
    {
        let ghost before = *self;
        grid_put_pixel(&mut self.grid, x, y, c);
        proof {
            let w = before.spec_width();
            let h = before.spec_height();
            lemma_place_in_range(w, h, x as int, y as int);
            assert forall|i: int, j: int|
                before.in_bounds(i, j) && !(i == x && j == y) implies #[trigger] self.pixel(i, j)
                == before.pixel(i, j) by {
                lemma_place_in_range(w, h, i, j);
                if j * w + i == y * w + x {
                    lemma_place_is_injective(w, i, j, x as int, y as int);
                }
            }
        }
    }
}

/// `(x, y)` comes before `(col, row)` when the pixels are visited row by
/// row, each row from left to right.
pub open spec fn visited(x: int, y: int, col: int, row: int) -> bool {
    y < row || (y == row && x < col)
}

impl View for PixelBuffer {
    type V = Seq<Seq<Color>>;

    /// The rows of the buffer, top to bottom, each a row of colours from left
    /// to right.
    open spec fn view(&self) -> Seq<Seq<Color>> {
        Seq::new(
            self.spec_height(),
            |y: int| Seq::new(self.spec_width(), |x: int| self.pixel(x, y)),
        )
    }
}

/// Copies one buffer to another.
pub fn copy_img(src_img: &PixelBuffer) -> (dst_img: PixelBuffer)
    requires
        src_img.wf(),
    ensures
        dst_img.wf(),
        dst_img.same_size(src_img),
        dst_img.raw() == src_img.raw(),
        dst_img@ == src_img@,
{
    let dst_img = PixelBuffer { grid: grid_clone(&src_img.grid) };
    assert(dst_img@ =~~= src_img@);
    dst_img
}

/// A buffer is no more than its pixels: two buffers with the same rows of
/// colours have the same dimensions and hold the same bytes.
pub proof fn lemma_same_view_same_bytes(a: &PixelBuffer, b: &PixelBuffer)
    requires
        a.wf(),
        b.wf(),
        a@ == b@,
    ensures
        a.same_size(b),
        a.raw() == b.raw(),
{
    let w = a.spec_width();
    let h = a.spec_height();
    assert(a@.len() == h && b@.len() == b.spec_height());
    assert(a@[0].len() == w && b@[0].len() == b.spec_width());
    assert forall|i: int| 0 <= i < a.raw().len() implies a.raw()[i] == b.raw()[i] by {
        let place = i / 4;
        let y = place / (w as int);
        let x = place % (w as int);
        vstd::arithmetic::div_mod::lemma_fundamental_div_mod(place, w as int);
        vstd::arithmetic::div_mod::lemma_mod_bound(place, w as int);
        assert(0 <= y < h) by (nonlinear_arith)
            requires
                0 <= place < w * h,
                w > 0,
                place == w * y + x,
                0 <= x < w,
        ;
        assert(y * w + x == place) by (nonlinear_arith)
            requires
                place == w * y + x,
        ;
        assert(a@[y][x] == a.pixel(x, y));
        assert(b@[y][x] == b.pixel(x, y));
    }
    assert(a.raw() =~= b.raw());
}

} // verus!
