use vstd::prelude::*;
use crate::num::Single;
use crate::request::Request;

verus! {

/// An RGB colour with three independent 8-bit channels.
#[derive(Clone, Copy, Debug, PartialEq, Eq, Structural)]
pub struct Color {
    pub r: u8,
    pub g: u8,
    pub b: u8,
}

/// The integer average of two channels, rounded down.
pub open spec fn average(x: u8, y: u8) -> u8 {
    ((x as int + y as int) / 2) as u8
}

/// The sum of two channels, held at 255.
pub open spec fn saturating_sum(x: u8, y: u8) -> u8 {
    if x as int + y as int > 255 {
        255u8
    } else {
        (x as int + y as int) as u8
    }
}

/// The difference of two channels, held at 0.
pub open spec fn saturating_difference(x: u8, y: u8) -> u8 {
    if x < y {
        0u8
    } else {
        (x as int - y as int) as u8
    }
}

fn average_of(x: u8, y: u8) -> (r: u8)
    ensures
        r == average(x, y),
{
    let wide: u16 = (x as u16 + y as u16) / 2;
    wide as u8
}

fn sum_of(x: u8, y: u8) -> (r: u8)
    ensures
        r == saturating_sum(x, y),
{
    if x > 255 - y {
        255
    } else {
        x + y
    }
}

fn difference_of(x: u8, y: u8) -> (r: u8)
    ensures
        r == saturating_difference(x, y),
{
    if x < y {
        0
    } else {
        x - y
    }
}

impl Color {
    pub open spec fn blended(self, other: Color) -> Color {
        Color {
            r: average(self.r, other.r),
            g: average(self.g, other.g),
            b: average(self.b, other.b),
        }
    }

    pub open spec fn plus(self, other: Color) -> Color {
        Color {
            r: saturating_sum(self.r, other.r),
            g: saturating_sum(self.g, other.g),
            b: saturating_sum(self.b, other.b),
        }
    }

    pub open spec fn minus(self, other: Color) -> Color {
        Color {
            r: saturating_difference(self.r, other.r),
            g: saturating_difference(self.g, other.g),
            b: saturating_difference(self.b, other.b),
        }
    }

    /// The colour whose channels are three single-precision numbers, each
    /// clamped to `[0, 255]` and truncated.
    pub open spec fn of_products(r: Single, g: Single, b: Single) -> Color {
        Color { r: r.channel(), g: g.channel(), b: b.channel() }
    }

    pub fn new(r: u8, g: u8, b: u8) -> (c: Color)
        ensures
            c.r == r,
            c.g == g,
            c.b == b,
    {
        Color { r, g, b }
    }

    /// Each channel is the average of the two channels, rounded down.
    pub fn blend(&self, other: &Color) -> (c: Color)
        ensures
            c == self.blended(*other),
    {
        Color {
            r: average_of(self.r, other.r),
            g: average_of(self.g, other.g),
            b: average_of(self.b, other.b),
        }
    }

    /// Each channel is the sum of the two channels, at most 255.
    pub fn add(&self, other: &Color) -> (c: Color)
        ensures
            c == self.plus(*other),
    {
        Color {
            r: sum_of(self.r, other.r),
            g: sum_of(self.g, other.g),
            b: sum_of(self.b, other.b),
        }
    }

    /// Each channel is the difference of the two channels, at least 0.
    pub fn sub(&self, other: &Color) -> (c: Color)
        ensures
            c == self.minus(*other),
    {
        Color {
            r: difference_of(self.r, other.r),
            g: difference_of(self.g, other.g),
            b: difference_of(self.b, other.b),
        }
    }

    /// Scaling a colour is floating-point work: the request for the
    /// products of its channels and the factor. The answer's products
    /// become the scaled colour through `from_products`.
    pub fn scale(&self, factor: Single) -> (r: Request)
        ensures
            r == Request::Scale(*self, factor),
    {
        Request::Scale(*self, factor)
    }

    /// Mixing two colours is floating-point work: the request for the
    /// interpolation of their channels at the ratio, which is first held to
    /// the range from zero to one. The answer's numbers become the mixed
    /// colour through `from_products`: truncated, not rounded.
    pub fn mix(&self, other: &Color, ratio: Single) -> (r: Request)
        ensures
            r == Request::Mix(*self, *other, ratio.unit_clamped()),
    {
        Request::Mix(*self, *other, ratio.clamp_unit())
    }

    /// Builds a colour from three channel values computed in single
    /// precision (a channel times a factor, or an interpolation of two
    /// channels): each is clamped to `[0, 255]` and truncated, never rounded.
    pub fn from_products(r: Single, g: Single, b: Single) -> (c: Color)
        ensures
            c == Color::of_products(r, g, b),
    {
        Color { r: r.to_channel(), g: g.to_channel(), b: b.to_channel() }
    }
}

/// Blending does not depend on the order of its arguments.
pub proof fn lemma_blend_commutes(c1: Color, c2: Color)
    ensures
        c1.blended(c2) == c2.blended(c1),
{
}

/// Every blended channel is the floor of the mean of the two channels and
/// lies between them.
pub proof fn lemma_blend_is_floor_of_mean(c1: Color, c2: Color)
    ensures
        c1.blended(c2).r as int == (c1.r as int + c2.r as int) / 2,
        c1.blended(c2).g as int == (c1.g as int + c2.g as int) / 2,
        c1.blended(c2).b as int == (c1.b as int + c2.b as int) / 2,
{
}

/// Channel arithmetic neither wraps above 255 nor below 0: a sum is the
/// exact sum or 255, a difference the exact difference or 0.
pub proof fn lemma_channels_saturate(x: u8, y: u8)
    ensures
        saturating_sum(x, y) as int == if x + y > 255 { 255 } else { x + y },
        saturating_difference(x, y) as int == if x - y < 0 { 0 } else { x - y },
        saturating_sum(x, y) >= x,
        saturating_difference(x, y) <= x,
{
}

} // verus!
