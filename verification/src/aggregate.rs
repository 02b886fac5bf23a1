//! Reducing a list of weighted colour samples to one colour.

use vstd::prelude::*;
use crate::color::Color;

verus! {

/// What one sample adds to the sum of channel `c`: the channel times the weight.
pub open spec fn weighted(sample: (Color, u8), c: int) -> nat {
    (sample.0.channel(c) * sample.1) as nat
}

/// The sum over all samples of channel `c` times the sample's weight.
pub open spec fn weighted_sum(samples: Seq<(Color, u8)>, c: int) -> nat
    decreases samples.len(),
{
    if samples.len() == 0 {
        0
    } else {
        weighted_sum(samples.drop_last(), c) + weighted(samples.last(), c)
    }
}

/// Channel `c` of the mean: the weighted sum divided by the number of
/// samples (not by the sum of the weights), of which the low eight bits are
/// kept.
pub open spec fn mean_channel(samples: Seq<(Color, u8)>, c: int) -> u8 {
    ((weighted_sum(samples, c) / samples.len()) % 256) as u8
}

/// The mean of the samples, channel by channel.
pub open spec fn mean_color(samples: Seq<(Color, u8)>) -> Color {
    Color {
        r: mean_channel(samples, 0),
        g: mean_channel(samples, 1),
        b: mean_channel(samples, 2),
        a: mean_channel(samples, 3),
    }
}

/// Every sample is the colour `c` with weight one.
pub open spec fn all_samples_are(samples: Seq<(Color, u8)>, c: Color) -> bool {
    forall|i: int| 0 <= i < samples.len() ==> #[trigger] samples[i] == (c, 1u8)
}

proof fn lemma_weighted_bound(sample: (Color, u8), c: int)
    ensures
        weighted(sample, c) <= 65025,
{
    let v = sample.0.channel(c);
    let w = sample.1;
    assert(v * w <= 65025) by (nonlinear_arith)
        requires
            0 <= v <= 255,
            0 <= w <= 255,
    ;
}

proof fn lemma_sum_step(samples: Seq<(Color, u8)>, i: int, c: int)
    requires
        0 <= i < samples.len(),
    ensures
        weighted_sum(samples.take(i + 1), c) == weighted_sum(samples.take(i), c) + weighted(
            samples[i],
            c,
        ),
{
    assert(samples.take(i + 1).drop_last() =~= samples.take(i));
}

fn channel_mean(sum: u128, count: usize) -> (m: u8)
    requires
        count > 0,
    ensures
        m == ((sum as nat / count as nat) % 256) as u8,
{
    ((sum / (count as u128)) % 256) as u8
}

/// The mean of a non-empty list of samples.
pub fn mean(samples: Vec<(Color, u8)>) -> (avg: Color)
    requires
        samples@.len() > 0,
    ensures
        avg == mean_color(samples@),
{
    let count = samples.len();
    let mut sum_r: u128 = 0;
    let mut sum_g: u128 = 0;
    let mut sum_b: u128 = 0;
    let mut sum_a: u128 = 0;
    let mut i: usize = 0;
    while i < count
        invariant
            i <= count,
            count == samples@.len(),
            sum_r == weighted_sum(samples@.take(i as int), 0),
            sum_g == weighted_sum(samples@.take(i as int), 1),
            sum_b == weighted_sum(samples@.take(i as int), 2),
            sum_a == weighted_sum(samples@.take(i as int), 3),
            sum_r <= i * 65025,
            sum_g <= i * 65025,
            sum_b <= i * 65025,
            sum_a <= i * 65025,
        decreases count - i,
    {
        let sample = samples[i];
        let weight: u128 = sample.1 as u128;
        proof {
            lemma_sum_step(samples@, i as int, 0);
            lemma_sum_step(samples@, i as int, 1);
            lemma_sum_step(samples@, i as int, 2);
            lemma_sum_step(samples@, i as int, 3);
            lemma_weighted_bound(sample, 0);
            lemma_weighted_bound(sample, 1);
            lemma_weighted_bound(sample, 2);
            lemma_weighted_bound(sample, 3);
        }
        sum_r = sum_r + (sample.0.r as u128) * weight;
        sum_g = sum_g + (sample.0.g as u128) * weight;
        sum_b = sum_b + (sample.0.b as u128) * weight;
        sum_a = sum_a + (sample.0.a as u128) * weight;
        i = i + 1;
    }
    assert(samples@.take(count as int) =~= samples@);
    Color {
        r: channel_mean(sum_r, count),
        g: channel_mean(sum_g, count),
        b: channel_mean(sum_b, count),
        a: channel_mean(sum_a, count),
    }
}

/// The sum over samples that all are `c` with weight one is the channel
/// times their number.
pub proof fn lemma_plain_sum(samples: Seq<(Color, u8)>, color: Color, c: int)
    requires
        all_samples_are(samples, color),
    ensures
        weighted_sum(samples, c) == samples.len() * color.channel(c),
    decreases samples.len(),
{
    if samples.len() > 0 {
        let rest = samples.drop_last();
        assert forall|i: int| 0 <= i < rest.len() implies #[trigger] rest[i] == (color, 1u8) by {
            assert(rest[i] == samples[i]);
        }
        lemma_plain_sum(rest, color, c);
        assert(samples.last() == (color, 1u8));
        let v = color.channel(c) as int;
        let n = samples.len() as int;
        assert((n - 1) * v + v == n * v) by (nonlinear_arith);
    }
}

/// The mean of a single sample of weight one is that sample's colour.
pub proof fn lemma_mean_of_one(color: Color)
    ensures
        mean_color(seq![(color, 1u8)]) == color,
{
    lemma_mean_of_plain(seq![(color, 1u8)], color);
}

/// The mean of any number of samples that all are `color` with weight one is
/// `color` again.
pub proof fn lemma_mean_of_plain(samples: Seq<(Color, u8)>, color: Color)
    requires
        samples.len() > 0,
        all_samples_are(samples, color),
    ensures
        mean_color(samples) == color,
{
    let n = samples.len() as int;
    assert forall|c: int| 0 <= c < 4 implies mean_channel(samples, c) == color.channel(c) by {
        lemma_plain_sum(samples, color, c);
        let v = color.channel(c) as int;
        assert((n * v) / n == v) by (nonlinear_arith)
            requires
                n > 0,
                v >= 0,
        ;
    }
    assert(mean_channel(samples, 0) == color.channel(0));
    assert(mean_channel(samples, 1) == color.channel(1));
    assert(mean_channel(samples, 2) == color.channel(2));
    assert(mean_channel(samples, 3) == color.channel(3));
}

} // verus!
