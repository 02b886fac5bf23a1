//! The convolution engine: every pixel becomes the mean of the pixels that a
//! kernel samples around it, with coordinates folded back into the buffer at
//! its edges.

use vstd::prelude::*;
use crate::aggregate::{all_samples_are, lemma_mean_of_plain, mean, mean_color};
use crate::buffer::{PixelBuffer, copy_img, visited};
use crate::color::Color;
use crate::coords::{lemma_wrap_in_range, wrap, wrap_u32};
use crate::kernel::{Kernel, lemma_usable_means_samples};

verus! {

/// The sample that one kernel offset takes around `(x, y)`: the pixel at the
/// folded coordinates, with the offset's weight.
pub open spec fn sample_at(src: &PixelBuffer, offset: (i32, i32, u8), x: int, y: int) -> (
    Color,
    u8,
) {
    (
        src.pixel(
            wrap(x, offset.0 as int, src.spec_width() as int),
            wrap(y, offset.1 as int, src.spec_height() as int),
        ),
        offset.2,
    )
}

/// The samples that a list of offsets takes around `(x, y)`, in the order
/// of the offsets.
pub open spec fn sample_set(src: &PixelBuffer, offsets: Seq<(i32, i32, u8)>, x: int, y: int) -> Seq<
    (Color, u8),
> {
    Seq::new(offsets.len(), |k: int| sample_at(src, offsets[k], x, y))
}

/// The filtered pixel at `(x, y)`: the mean of the samples of the kernel there.
pub open spec fn filtered_pixel(src: &PixelBuffer, kernel: Kernel, x: int, y: int) -> Color {
    mean_color(sample_set(src, kernel.samples(), x, y))
}

/// Collects the samples of the offsets around one pixel.
pub fn sample_pixel(src_img: &PixelBuffer, offsets: &Vec<(i32, i32, u8)>, x: u32, y: u32) -> (adj: Vec<
    (Color, u8),
>)
    requires
        src_img.wf(),
    ensures
        adj@ == sample_set(src_img, offsets@, x as int, y as int),
{
    let img_width = src_img.width();
    let img_height = src_img.height();
    let mut adj: Vec<(Color, u8)> = Vec::new();
    let mut i: usize = 0;
    while i < offsets.len()
        invariant
            src_img.wf(),
            img_width == src_img.spec_width(),
            img_height == src_img.spec_height(),
            i <= offsets@.len(),
            adj@.len() == i,
            forall|k: int|
                0 <= k < i ==> #[trigger] adj@[k] == sample_at(
                    src_img,
                    offsets@[k],
                    x as int,
                    y as int,
                ),
        decreases offsets@.len() - i,
    {
        let point = offsets[i];
        let sx = wrap_u32(x, point.0, img_width);
        let sy = wrap_u32(y, point.1, img_height);
        let color = src_img.get(sx, sy);
        adj.push((color, point.2));
        i = i + 1;
    }
    assert(adj@ =~= sample_set(src_img, offsets@, x as int, y as int));
    adj
}

/// Applies the kernel to every pixel: the result has the source's
/// dimensions, and each of its pixels is the mean of the kernel's samples
/// around that coordinate of the source. The source is not changed.
pub fn blur(src_img: &PixelBuffer, kernel: Kernel) -> (dst_img: PixelBuffer)
    requires
        src_img.wf(),
        kernel.is_usable(),
    ensures
        dst_img.wf(),
        dst_img.same_size(src_img),
        forall|x: int, y: int|
            src_img.in_bounds(x, y) ==> #[trigger] dst_img.pixel(x, y) == filtered_pixel(
                src_img,
                kernel,
                x,
                y,
            ),
{
    let offsets = kernel.offsets();
    proof {
        lemma_usable_means_samples(kernel);
    }
    let img_width = src_img.width();
    let img_height = src_img.height();
    let mut dst_img = copy_img(src_img);
    let mut y: u32 = 0;
    while y < img_height
        invariant
            src_img.wf(),
            dst_img.wf(),
            dst_img.same_size(src_img),
            img_width == src_img.spec_width(),
            img_height == src_img.spec_height(),
            offsets@ == kernel.samples(),
            offsets@.len() > 0,
            y <= img_height,
            forall|i: int, j: int|
                src_img.in_bounds(i, j) && visited(i, j, 0, y as int) ==> #[trigger] dst_img.pixel(
                    i,
                    j,
                ) == filtered_pixel(src_img, kernel, i, j),
        decreases img_height - y,
    {
        let mut x: u32 = 0;
        while x < img_width
            invariant
                src_img.wf(),
                dst_img.wf(),
                dst_img.same_size(src_img),
                img_width == src_img.spec_width(),
                img_height == src_img.spec_height(),
                offsets@ == kernel.samples(),
                offsets@.len() > 0,
                y < img_height,
                x <= img_width,
                forall|i: int, j: int|
                    src_img.in_bounds(i, j) && visited(i, j, x as int, y as int)
                        ==> #[trigger] dst_img.pixel(i, j) == filtered_pixel(src_img, kernel, i, j),
            decreases img_width - x,
        {
            let adj_colors = sample_pixel(src_img, &offsets, x, y);
            dst_img.set(x, y, mean(adj_colors));
            x = x + 1;
        }
        y = y + 1;
    }
    dst_img
}

/// Around a pixel of a buffer of one colour, a box kernel takes nothing
/// but samples of that colour, each with weight one.
pub proof fn lemma_uniform_samples(src: &PixelBuffer, radius: i32, c: Color, x: int, y: int)
    requires
        src.wf(),
        src.is_uniform(c),
    ensures
        all_samples_are(sample_set(src, Kernel::BoxBlur(radius).samples(), x, y), c),
{
    let offsets = Kernel::BoxBlur(radius).samples();
    let set = sample_set(src, offsets, x, y);
    assert forall|k: int| 0 <= k < set.len() implies #[trigger] set[k] == (c, 1u8) by {
        let offset = offsets[k];
        let sx = wrap(x, offset.0 as int, src.spec_width() as int);
        let sy = wrap(y, offset.1 as int, src.spec_height() as int);
        lemma_wrap_in_range(x, offset.0 as int, src.spec_width() as int);
        lemma_wrap_in_range(y, offset.1 as int, src.spec_height() as int);
        assert(src.in_bounds(sx, sy));
        assert(src.pixel(sx, sy) == c);
    }
}

/// A box blur of any positive radius leaves a buffer of one colour as it
/// is: every filtered pixel has that colour.
pub proof fn lemma_blur_keeps_uniform(src: &PixelBuffer, radius: i32, c: Color, x: int, y: int)
    requires
        src.wf(),
        src.is_uniform(c),
        radius > 0,
    ensures
        filtered_pixel(src, Kernel::BoxBlur(radius), x, y) == c,
{
    lemma_uniform_samples(src, radius, c, x, y);
    lemma_usable_means_samples(Kernel::BoxBlur(radius));
    lemma_mean_of_plain(sample_set(src, Kernel::BoxBlur(radius).samples(), x, y), c);
}

} // verus!
