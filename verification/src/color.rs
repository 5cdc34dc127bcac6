//! Colours and the six-sector hue wheel.

use vstd::prelude::*;
use crate::arith::{lemma_mul_le, lemma_scaled_le};

verus! {

/// The channel value that stands for full intensity, and the hue that stands
/// for one full trip around the wheel.
pub const ONE: u32 = 6_000_000;

/// An RGB colour.  A channel holds `value * ONE`; generated colours stay
/// within `0..=ONE`.
#[derive(Clone, Copy, Debug, PartialEq, Eq, Structural)]
pub struct Color {
    pub r: u32,
    pub g: u32,
    pub b: u32,
}

/// All channels off.
pub open spec fn dark() -> Color {
    Color { r: 0, g: 0, b: 0 }
}

/// The colour at hue `h`, where `h` counts fractions `1 / ONE` of the wheel.
/// Only the position within the current trip matters.  With `r` six times
/// that position, the sectors are red to yellow, yellow to green, green to
/// cyan, cyan to blue, blue to magenta and magenta to red.
pub open spec fn wheel(h: int) -> Color {
    let one: int = ONE as int;
    let r: int = (h % one) * 6;
    if r < one {
        Color { r: ONE, g: r as u32, b: 0 }
    } else if r < 2 * one {
        Color { r: (2 * one - r) as u32, g: ONE, b: 0 }
    } else if r < 3 * one {
        Color { r: 0, g: ONE, b: (r - 2 * one) as u32 }
    } else if r < 4 * one {
        Color { r: 0, g: (4 * one - r) as u32, b: ONE }
    } else if r < 5 * one {
        Color { r: (r - 4 * one) as u32, g: 0, b: ONE }
    } else {
        Color { r: ONE, g: 0, b: (6 * one - r) as u32 }
    }
}

/// The hue reached after `count` steps of `sixtieths / 60` of the wheel each,
/// reduced to one trip.
pub open spec fn stepped(count: int, sixtieths: int) -> int {
    ((count * sixtieths) % 60) * (ONE as int / 60)
}

/// The channel `c` dimmed by `factor / ONE`, rounded down.
pub open spec fn dim(c: int, factor: int) -> int {
    (c * factor) / (ONE as int)
}

/// The channel `c` on a scale of 0 to 255: multiplied by 255 and cut off
/// after the point, with anything above full intensity clamped.
pub open spec fn byte_of(c: int) -> int {
    if c >= ONE as int {
        255
    } else {
        (c * 255) / (ONE as int)
    }
}

impl Color {
    /// No channel exceeds full intensity.
    pub open spec fn in_gamut(self) -> bool {
        self.r <= ONE && self.g <= ONE && self.b <= ONE
    }

    /// The largest of the three channels.
    pub open spec fn brightness(self) -> int {
        let rg: int = if self.r >= self.g { self.r as int } else { self.g as int };
        if rg >= self.b { rg } else { self.b as int }
    }

    /// This colour with every channel dimmed by `factor / ONE`.
    pub open spec fn dimmed(self, factor: int) -> Color {
        Color {
            r: dim(self.r as int, factor) as u32,
            g: dim(self.g as int, factor) as u32,
            b: dim(self.b as int, factor) as u32,
        }
    }

    pub fn black() -> (c: Color)
        ensures
            c == dark(),
    {
        Color { r: 0, g: 0, b: 0 }
    }

    /// Dims every channel by `factor / ONE`.
    pub fn scaled(self, factor: u32) -> (c: Color)
        requires
            factor <= ONE,
        ensures
            c == self.dimmed(factor as int),
            c.r <= self.r && c.g <= self.g && c.b <= self.b,
            self.in_gamut() ==> c.in_gamut(),
    {
        Color {
            r: dim_channel(self.r, factor),
            g: dim_channel(self.g, factor),
            b: dim_channel(self.b, factor),
        }
    }

    /// The three channels on a scale of 0 to 255.
    pub fn quantized(self) -> (rgb: (u8, u8, u8))
        ensures
            rgb.0 == byte_of(self.r as int),
            rgb.1 == byte_of(self.g as int),
            rgb.2 == byte_of(self.b as int),
    {
        (quantize(self.r), quantize(self.g), quantize(self.b))
    }
}

fn dim_channel(c: u32, factor: u32) -> (d: u32)
    requires
        factor <= ONE,
    ensures
        d == dim(c as int, factor as int),
        d <= c,
{
    proof {
        lemma_mul_le(c as int, factor as int, u32::MAX as int, ONE as int);
        lemma_scaled_le(c as int, factor as int, ONE as int);
    }
    let wide: u64 = (c as u64) * (factor as u64);
    (wide / (ONE as u64)) as u32
}

/// One channel on a scale of 0 to 255.
pub fn quantize(c: u32) -> (q: u8)
    ensures
        q == byte_of(c as int),
{
    if c >= ONE {
        255
    } else {
        (((c as u64) * 255) / (ONE as u64)) as u8
    }
}

/// The fully saturated colour at hue `hue`, counted in fractions `1 / ONE`
/// of the wheel.
pub fn saturated_color(hue: u64) -> (c: Color)
    ensures
        c == wheel(hue as int),
        c.in_gamut(),
        c.brightness() == ONE,
{
    let r: u32 = ((hue % (ONE as u64)) as u32) * 6;
    if r < ONE {
        Color { r: ONE, g: r, b: 0 }
    } else if r < 2 * ONE {
        Color { r: 2 * ONE - r, g: ONE, b: 0 }
    } else if r < 3 * ONE {
        Color { r: 0, g: ONE, b: r - 2 * ONE }
    } else if r < 4 * ONE {
        Color { r: 0, g: 4 * ONE - r, b: ONE }
    } else if r < 5 * ONE {
        Color { r: r - 4 * ONE, g: 0, b: ONE }
    } else {
        Color { r: ONE, g: 0, b: 6 * ONE - r }
    }
}

/// The hue after `count` steps of `sixtieths / 60` of the wheel.
pub fn stepped_hue(count: u128, sixtieths: u8) -> (hue: u64)
    ensures
        hue == stepped(count as int, sixtieths as int),
        hue < ONE,
{
    let reduced: u32 = (count % 60) as u32;
    proof {
        lemma_mul_le(reduced as int, sixtieths as int, 59, 255);
        vstd::arithmetic::div_mod::lemma_mul_mod_noop_left(count as int, sixtieths as int, 60);
    }
    let turns: u32 = (reduced * (sixtieths as u32)) % 60;
    proof {
        lemma_mul_le(turns as int, (ONE / 60) as int, 59, 100_000);
    }
    (turns * (ONE / 60)) as u64
}

/// A stepped hue is a whole number of sixtieths within one trip.
pub proof fn lemma_stepped(count: int, sixtieths: int)
    ensures
        stepped(count, sixtieths) == ((count * sixtieths) % 60) * 100_000,
        0 <= stepped(count, sixtieths) < ONE,
{
    assert(ONE as int / 60 == 100_000);
}

/// The wheel repeats after one full trip.
pub proof fn law_wheel_period(h: int)
    ensures
        wheel(h + ONE) == wheel(h),
{
}

/// A hue matters only through its position within the current trip.
pub proof fn law_wheel_fraction(h: int)
    ensures
        wheel(h) == wheel(h % (ONE as int)),
{
}

/// Every colour of the wheel has one channel at full intensity and none
/// above it.
pub proof fn law_wheel_saturated(h: int)
    ensures
        wheel(h).in_gamut(),
        wheel(h).brightness() == ONE,
{
}

/// Two positions within one trip that give the same colour are the same
/// position.
pub proof fn law_wheel_injective(a: int, b: int)
    requires
        0 <= a < ONE,
        0 <= b < ONE,
        wheel(a) == wheel(b),
    ensures
        a == b,
{
}

} // verus!
