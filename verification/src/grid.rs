//! The `image` crate's eight-bit RGBA buffer, as this library sees it.
//!
//! The struct, the two functions without a body and the functions marked
//! `external_body` are taken on trust: their contracts restate what the
//! methods of `image::ImageBuffer` do to the buffer's dimensions and to its
//! bytes, and Verus does not look into their bodies.

use vstd::prelude::*;
use crate::color::Color;

verus! {

/// An `image::RgbaImage`. Verus knows nothing of what is inside; the two
/// functions below name the dimensions and the bytes it holds.
#[verifier::external_body]
pub struct RgbaGrid {
    img: image::RgbaImage,
}

/// Width and height of the buffer, in pixels.
pub uninterp spec fn grid_size(grid: RgbaGrid) -> (nat, nat);

/// The bytes of the buffer's backing vector, in storage order.
pub uninterp spec fn grid_bytes(grid: RgbaGrid) -> Seq<u8>;

/// Where the four bytes of pixel `(x, y)` start in a row-major buffer that is
/// `width` pixels wide.
pub open spec fn pixel_offset(width: nat, x: int, y: int) -> int {
    4 * (y * width + x)
}

/// The colour whose channels are the four bytes of `bytes` from `at` on.
pub open spec fn color_at(bytes: Seq<u8>, at: int) -> Color {
    Color { r: bytes[at], g: bytes[at + 1], b: bytes[at + 2], a: bytes[at + 3] }
}

/// `bytes` with the four bytes from `at` on replaced by the channels of `c`.
pub open spec fn store_color(bytes: Seq<u8>, at: int, c: Color) -> Seq<u8> {
    bytes.update(at, c.r).update(at + 1, c.g).update(at + 2, c.b).update(at + 3, c.a)
}

/// `ImageBuffer::from_raw`: the buffer is made exactly when four bytes for
/// each of `width * height` pixels can be counted in a `usize` and `buf` holds
/// at least that many; it then has these dimensions and keeps `buf` as it is.
#[verifier::external_body]
pub(crate) fn grid_from_raw(width: u32, height: u32, buf: Vec<u8>) -> (made: Option<RgbaGrid>)
    ensures
        made.is_some() == (4 * width <= usize::MAX && 4 * (width * height) <= buf@.len()),
        made matches Some(grid) ==> grid_size(grid) == (width as nat, height as nat)
            && grid_bytes(grid) == buf@,
{
    match image::RgbaImage::from_raw(width, height, buf) {
        Some(img) => Some(RgbaGrid { img }),
        None => None,
    }
}

/// `ImageBuffer::into_raw`: hands back the backing vector.
#[verifier::external_body]
pub(crate) fn grid_into_raw(grid: RgbaGrid) -> (buf: Vec<u8>)
    ensures
        buf@ == grid_bytes(grid),
{
    grid.img.into_raw()
}

/// `ImageBuffer::width`.
#[verifier::external_body]
pub(crate) fn grid_width(grid: &RgbaGrid) -> (w: u32)
    ensures
        w == grid_size(*grid).0,
{
    grid.img.width()
}

/// `ImageBuffer::height`.
#[verifier::external_body]
pub(crate) fn grid_height(grid: &RgbaGrid) -> (h: u32)
    ensures
        h == grid_size(*grid).1,
{
    grid.img.height()
}

/// `ImageBuffer::get_pixel`, which panics outside the image: inside, it reads
/// the four bytes that start at `4 * (y * width + x)`.
#[verifier::external_body]
pub(crate) fn grid_get_pixel(grid: &RgbaGrid, x: u32, y: u32) -> (c: Color)
    requires
        x < grid_size(*grid).0,
        y < grid_size(*grid).1,
        4 * (grid_size(*grid).0 * grid_size(*grid).1) <= grid_bytes(*grid).len(),
    ensures
        c == color_at(grid_bytes(*grid), pixel_offset(grid_size(*grid).0, x as int, y as int)),
{
    let p = grid.img.get_pixel(x, y);
    Color { r: p.0[0], g: p.0[1], b: p.0[2], a: p.0[3] }
}

/// `ImageBuffer::put_pixel`, which panics outside the image: inside, it
/// overwrites the four bytes that start at `4 * (y * width + x)` and leaves
/// the dimensions and every other byte alone.
#[verifier::external_body]
pub(crate) fn grid_put_pixel(grid: &mut RgbaGrid, x: u32, y: u32, c: Color)
    requires
        x < grid_size(*old(grid)).0,
        y < grid_size(*old(grid)).1,
        4 * (grid_size(*old(grid)).0 * grid_size(*old(grid)).1) <= grid_bytes(*old(grid)).len(),
    ensures
        grid_size(*final(grid)) == grid_size(*old(grid)),
        grid_bytes(*final(grid)) == store_color(
            grid_bytes(*old(grid)),
            pixel_offset(grid_size(*old(grid)).0, x as int, y as int),
            c,
        ),
{
    grid.img.put_pixel(x, y, image::Rgba([c.r, c.g, c.b, c.a]));
}

/// `Clone::clone` of an `ImageBuffer`: same dimensions, same bytes.
#[verifier::external_body]
pub(crate) fn grid_clone(grid: &RgbaGrid) -> (copy: RgbaGrid)
    ensures
        grid_size(copy) == grid_size(*grid),
        grid_bytes(copy) == grid_bytes(*grid),
{
    RgbaGrid { img: grid.img.clone() }
}

} // verus!
