//! Four-channel colours and the tolerance test that decides whether two of
//! them count as the same colour.

use vstd::prelude::*;

verus! {

/// A colour of four eight-bit channels: red, green, blue and alpha.
#[derive(Clone, Copy, Debug, PartialEq, Eq, Structural)]
pub struct Color {
    pub r: u8,
    pub g: u8,
    pub b: u8,
    pub a: u8,
}

impl Color {
    /// The channel with index `c`: 0 is red, 1 green, 2 blue, anything else alpha.
    pub open spec fn channel(self, c: int) -> u8 {
        if c == 0 {
            self.r
        } else if c == 1 {
            self.g
        } else if c == 2 {
            self.b
        } else {
            self.a
        }
    }

    /// Opaque black, the colour that stands in for a missing background pixel.
    pub open spec fn opaque_black() -> Color {
        Color { r: 0, g: 0, b: 0, a: 255 }
    }

    /// The colour with the given channels.
    pub fn new(r: u8, g: u8, b: u8, a: u8) -> (c: Color)
        ensures
            c == (Color { r, g, b, a }),
    {
        Color { r, g, b, a }
    }

    /// Opaque black.
    pub fn black() -> (c: Color)
        ensures
            c == Color::opaque_black(),
    {
        Color { r: 0, g: 0, b: 0, a: 255 }
    }
}

/// One channel lies strictly inside the open interval of half-width
/// `tolerance` around the other.
pub open spec fn channel_within(a: u8, b: u8, tolerance: u8) -> bool {
    b - tolerance < a && a < b + tolerance
}

/// Every channel of `a` lies strictly within `tolerance` of the same channel of `b`.
pub open spec fn colors_match(a: Color, b: Color, tolerance: u8) -> bool {
    &&& channel_within(a.r, b.r, tolerance)
    &&& channel_within(a.g, b.g, tolerance)
    &&& channel_within(a.b, b.b, tolerance)
    &&& channel_within(a.a, b.a, tolerance)
}

fn channel_comp(value: u8, centre: u8, range: u8) -> (inside: bool)
    ensures
        inside == channel_within(value, centre, range),
{
    let v: i16 = value as i16;
    let mid: i16 = centre as i16;
    let margin: i16 = range as i16;
    !(v >= mid + margin || v <= mid - margin)
}

/// Compares two pixels with a margin of error: true exactly when every
/// channel of `pixel` is strictly closer than `range` to that of `target`.
pub fn pixel_comp(pixel: Color, target: Color, range: u8) -> (state: bool)
    ensures
        state == colors_match(pixel, target, range),
        range == 0 ==> !state,
{
    let mut state = true;
    if !channel_comp(pixel.r, target.r, range) {
        state = false;
    }
    if !channel_comp(pixel.g, target.g, range) {
        state = false;
    }
    if !channel_comp(pixel.b, target.b, range) {
        state = false;
    }
    if !channel_comp(pixel.a, target.a, range) {
        state = false;
    }
    state
}

/// With tolerance zero the interval is empty: no colour matches any colour,
/// not even itself.
pub proof fn lemma_zero_tolerance_matches_nothing(a: Color, b: Color)
    ensures
        !colors_match(a, b, 0),
        !colors_match(a, a, 0),
{
}

/// The tolerance test does not depend on the order of the two colours.
pub proof fn lemma_match_is_symmetric(a: Color, b: Color, tolerance: u8)
    ensures
        colors_match(a, b, tolerance) == colors_match(b, a, tolerance),
{
}

/// A match means that each pair of channels differs by less than the tolerance.
pub proof fn lemma_match_bounds_distance(a: Color, b: Color, tolerance: u8)
    ensures
        colors_match(a, b, tolerance) <==> forall|c: int|
            0 <= c < 4 ==> -tolerance < #[trigger] a.channel(c) - b.channel(c) < tolerance,
{
    if colors_match(a, b, tolerance) {
    } else {
        if !channel_within(a.r, b.r, tolerance) {
            assert(!(-tolerance < a.channel(0) - b.channel(0) < tolerance));
        } else if !channel_within(a.g, b.g, tolerance) {
            assert(!(-tolerance < a.channel(1) - b.channel(1) < tolerance));
        } else if !channel_within(a.b, b.b, tolerance) {
            assert(!(-tolerance < a.channel(2) - b.channel(2) < tolerance));
        } else {
            assert(!(-tolerance < a.channel(3) - b.channel(3) < tolerance));
        }
    }
}

} // verus!
