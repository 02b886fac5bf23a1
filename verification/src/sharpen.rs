//! An experimental sharpening step for a single pixel. No other operation
//! of the library uses it.

use vstd::prelude::*;
use crate::aggregate::{mean, mean_channel, mean_color, weighted, weighted_sum};
use crate::color::Color;

verus! {

/// `a - b` brought back into `0..=255` by adding 256 where it is negative.
pub open spec fn wrapped_diff(a: u8, b: u8) -> u8 {
    if a >= b {
        (a - b) as u8
    } else {
        (a - b + 256) as u8
    }
}

/// The colour whose channel `c` is `value` and whose other channels are zero.
pub open spec fn single_channel(c: int, value: u8) -> Color {
    Color {
        r: if c == 0 { value } else { 0 },
        g: if c == 1 { value } else { 0 },
        b: if c == 2 { value } else { 0 },
        a: if c == 3 { value } else { 0 },
    }
}

/// The difference of `origin` and `sample` in channel `c`, as a colour with
/// that one channel set.
pub open spec fn delta(origin: Color, sample: Color, c: int) -> Color {
    single_channel(c, wrapped_diff(origin.channel(c), sample.channel(c)))
}

/// Four single-channel differences for each sample, red to alpha, sample
/// after sample, each with weight one.
pub open spec fn deltas(origin: Color, samples: Seq<Color>) -> Seq<(Color, u8)> {
    Seq::new(4 * samples.len(), |k: int| (delta(origin, samples[k / 4], k % 4), 1u8))
}

/// The sharpened colour: the mean of all single-channel differences.
pub open spec fn sharpened(origin: Color, samples: Seq<Color>) -> Color {
    mean_color(deltas(origin, samples))
}

/// The sum over the samples of the wrapped difference in channel `c`.
pub open spec fn diff_sum(origin: Color, samples: Seq<Color>, c: int) -> nat
    decreases samples.len(),
{
    if samples.len() == 0 {
        0
    } else {
        diff_sum(origin, samples.drop_last(), c) + wrapped_diff(
            origin.channel(c),
            samples.last().channel(c),
        ) as nat
    }
}

fn wrapping_delta(a: u8, b: u8) -> (d: u8)
    ensures
        d == wrapped_diff(a, b),
{
    if a >= b {
        a - b
    } else {
        (256u16 + a as u16 - b as u16) as u8
    }
}

/// Sharpens `origin` against the colours around it.
pub fn sharpen_pixel(origin: Color, colors: Vec<Color>) -> (sharp: Color)
    requires
        colors@.len() > 0,
    ensures
        sharp == sharpened(origin, colors@),
{
    let mut difference: Vec<(Color, u8)> = Vec::new();
    let mut j: usize = 0;
    while j < colors.len()
        invariant
            j <= colors@.len(),
            difference@.len() == 4 * j,
            forall|k: int|
                0 <= k < 4 * j ==> #[trigger] difference@[k] == (
                    delta(origin, colors@[k / 4], k % 4),
                    1u8,
                ),
        decreases colors@.len() - j,
    {
        let c = colors[j];
        difference.push((Color { r: wrapping_delta(origin.r, c.r), g: 0, b: 0, a: 0 }, 1));
        difference.push((Color { r: 0, g: wrapping_delta(origin.g, c.g), b: 0, a: 0 }, 1));
        difference.push((Color { r: 0, g: 0, b: wrapping_delta(origin.b, c.b), a: 0 }, 1));
        difference.push((Color { r: 0, g: 0, b: 0, a: wrapping_delta(origin.a, c.a) }, 1));
        j = j + 1;
    }
    assert(difference@ =~= deltas(origin, colors@));
    mean(difference)
}

/// The weighted sum of the single-channel differences in channel `c` is the
/// sum of the wrapped differences in that channel: the differences of the
/// other channels add nothing to it.
pub proof fn lemma_delta_sum(origin: Color, samples: Seq<Color>, c: int)
    requires
        0 <= c < 4,
    ensures
        weighted_sum(deltas(origin, samples), c) == diff_sum(origin, samples, c),
        diff_sum(origin, samples, c) <= 255 * samples.len(),
    decreases samples.len(),
{
    let d = deltas(origin, samples);
    if samples.len() == 0 {
        assert(d.len() == 0);
    } else {
        let n = samples.len() as int;
        let d3 = d.drop_last();
        let d2 = d3.drop_last();
        let d1 = d2.drop_last();
        let d0 = d1.drop_last();
        assert(d0 =~= deltas(origin, samples.drop_last()));
        lemma_delta_sum(origin, samples.drop_last(), c);
        assert(d.last() == d[4 * n - 1]);
        assert(d3.last() == d[4 * n - 2]);
        assert(d2.last() == d[4 * n - 3]);
        assert(d1.last() == d[4 * n - 4]);
        assert(weighted_sum(d1, c) == weighted_sum(d0, c) + weighted(d1.last(), c));
        assert(weighted_sum(d2, c) == weighted_sum(d1, c) + weighted(d2.last(), c));
        assert(weighted_sum(d3, c) == weighted_sum(d2, c) + weighted(d3.last(), c));
        assert(weighted_sum(d, c) == weighted_sum(d3, c) + weighted(d.last(), c));
    }
}

/// Channel by channel, the sharpened colour is the sum of the wrapped
/// differences divided by four times the number of samples.
pub proof fn lemma_sharpened_channel(origin: Color, samples: Seq<Color>, c: int)
    requires
        samples.len() > 0,
        0 <= c < 4,
    ensures
        sharpened(origin, samples).channel(c) == diff_sum(origin, samples, c) / (4
            * samples.len()),
{
    lemma_delta_sum(origin, samples, c);
    let n = samples.len() as int;
    let total = diff_sum(origin, samples, c) as int;
    assert(0 <= total / (4 * n) <= 255) by (nonlinear_arith)
        requires
            0 <= total <= 255 * n,
            n > 0,
    ;
    assert(sharpened(origin, samples).channel(c) == mean_channel(deltas(origin, samples), c));
}

} // verus!
