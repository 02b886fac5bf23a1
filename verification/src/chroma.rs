//! The chroma-key compositor: pixels of a foreground that match a target
//! colour give way to the pixels of a background.

use vstd::prelude::*;
use crate::buffer::{PixelBuffer, copy_img, visited};
use crate::color::{Color, colors_match, pixel_comp};

verus! {

/// What shows through at `(x, y)` where the foreground is keyed out: the
/// background's pixel, or opaque black where the background has none.
pub open spec fn backdrop(bg: &PixelBuffer, x: int, y: int) -> Color {
    if bg.in_bounds(x, y) {
        bg.pixel(x, y)
    } else {
        Color::opaque_black()
    }
}

/// The composited pixel at `(x, y)`: the backdrop where the foreground pixel
/// matches `target` within `tolerance`, the foreground pixel where it does not.
pub open spec fn keyed_pixel(
    fg: &PixelBuffer,
    bg: &PixelBuffer,
    target: Color,
    tolerance: u8,
    x: int,
    y: int,
) -> Color {
    if colors_match(fg.pixel(x, y), target, tolerance) {
        backdrop(bg, x, y)
    } else {
        fg.pixel(x, y)
    }
}

/// The composited pixel at one coordinate of the foreground.
pub fn composite_pixel(
    fg_img: &PixelBuffer,
    bg_img: &PixelBuffer,
    tgt_color: Color,
    range: u8,
    x: u32,
    y: u32,
) -> (c: Color)
    requires
        fg_img.wf(),
        bg_img.wf(),
        fg_img.in_bounds(x as int, y as int),
    ensures
        c == keyed_pixel(fg_img, bg_img, tgt_color, range, x as int, y as int),
{
    let fg_pixel = fg_img.get(x, y);
    if pixel_comp(fg_pixel, tgt_color, range) {
        if x >= bg_img.width() || y >= bg_img.height() {
            Color::black()
        } else {
            bg_img.get(x, y)
        }
    } else {
        fg_pixel
    }
}

/// Composites the foreground over the background: the result has the
/// foreground's dimensions, and each of its pixels is the composited pixel at
/// that coordinate. Neither input is changed.
pub fn chroma_key(
    fg_img: &PixelBuffer,
    bg_img: &PixelBuffer,
    tgt_color: Color,
    range: u8,
) -> (dst_img: PixelBuffer)
    requires
        fg_img.wf(),
        bg_img.wf(),
    ensures
        dst_img.wf(),
        dst_img.same_size(fg_img),
        forall|x: int, y: int|
            fg_img.in_bounds(x, y) ==> #[trigger] dst_img.pixel(x, y) == keyed_pixel(
                fg_img,
                bg_img,
                tgt_color,
                range,
                x,
                y,
            ),
        forall|x: int, y: int|
            fg_img.in_bounds(x, y) ==> #[trigger] dst_img.pixel(x, y) == fg_img.pixel(x, y)
                || dst_img.pixel(x, y) == backdrop(bg_img, x, y),
{
    let mut dst_img = copy_img(fg_img);
    let width = fg_img.width();
    let height = fg_img.height();
    let mut y: u32 = 0;
    while y < height
        invariant
            fg_img.wf(),
            bg_img.wf(),
            dst_img.wf(),
            dst_img.same_size(fg_img),
            width == fg_img.spec_width(),
            height == fg_img.spec_height(),
            y <= height,
            forall|i: int, j: int|
                fg_img.in_bounds(i, j) ==> #[trigger] dst_img.pixel(i, j) == if visited(
                    i,
                    j,
                    0,
                    y as int,
                ) {
                    keyed_pixel(fg_img, bg_img, tgt_color, range, i, j)
                } else {
                    fg_img.pixel(i, j)
                },
        decreases height - y,
    {
        let mut x: u32 = 0;
        while x < width
            invariant
                fg_img.wf(),
                bg_img.wf(),
                dst_img.wf(),
                dst_img.same_size(fg_img),
                width == fg_img.spec_width(),
                height == fg_img.spec_height(),
                y < height,
                x <= width,
                forall|i: int, j: int|
                    fg_img.in_bounds(i, j) ==> #[trigger] dst_img.pixel(i, j) == if visited(
                        i,
                        j,
                        x as int,
                        y as int,
                    ) {
                        keyed_pixel(fg_img, bg_img, tgt_color, range, i, j)
                    } else {
                        fg_img.pixel(i, j)
                    },
            decreases width - x,
        {
            let c = composite_pixel(fg_img, bg_img, tgt_color, range, x, y);
            dst_img.set(x, y, c);
            x = x + 1;
        }
        y = y + 1;
    }
    dst_img
}

/// A composited pixel is the foreground's or the backdrop's, never a blend.
pub proof fn lemma_keyed_is_one_or_other(
    fg: &PixelBuffer,
    bg: &PixelBuffer,
    target: Color,
    tolerance: u8,
    x: int,
    y: int,
)
    ensures
        keyed_pixel(fg, bg, target, tolerance, x, y) == fg.pixel(x, y) || keyed_pixel(
            fg,
            bg,
            target,
            tolerance,
            x,
            y,
        ) == backdrop(bg, x, y),
        backdrop(bg, x, y) == bg.pixel(x, y) || backdrop(bg, x, y) == Color::opaque_black(),
{
}

/// Where the foreground matches at a coordinate that the background does not
/// have, the composited pixel is opaque black.
pub proof fn lemma_keyed_outside_background(
    fg: &PixelBuffer,
    bg: &PixelBuffer,
    target: Color,
    tolerance: u8,
    x: int,
    y: int,
)
    requires
        colors_match(fg.pixel(x, y), target, tolerance),
        !bg.in_bounds(x, y),
    ensures
        keyed_pixel(fg, bg, target, tolerance, x, y) == (Color { r: 0, g: 0, b: 0, a: 255 }),
{
}

/// A foreground that is the target colour all over, keyed with a tolerance
/// above zero against a background of its own size, shows the background
/// and nothing else.
pub proof fn lemma_solid_target_shows_background(
    fg: &PixelBuffer,
    bg: &PixelBuffer,
    target: Color,
    tolerance: u8,
    x: int,
    y: int,
)
    requires
        fg.is_uniform(target),
        fg.same_size(bg),
        fg.in_bounds(x, y),
        tolerance > 0,
    ensures
        keyed_pixel(fg, bg, target, tolerance, x, y) == bg.pixel(x, y),
{
}

/// With tolerance zero nothing is keyed out: every composited pixel is the
/// foreground's.
pub proof fn lemma_zero_tolerance_keeps_foreground(
    fg: &PixelBuffer,
    bg: &PixelBuffer,
    target: Color,
    x: int,
    y: int,
)
    ensures
        keyed_pixel(fg, bg, target, 0, x, y) == fg.pixel(x, y),
{
}

} // verus!
