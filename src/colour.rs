use vstd::prelude::*;

verus! {

/// A 24-bit RGB colour.
#[derive(Clone, Copy, Debug, PartialEq, Eq, Structural)]
pub struct Colour {
    pub r: u8,
    pub g: u8,
    pub b: u8,
}

pub open spec fn sat_u8(v: int) -> u8 {
    if v > 255 { 255u8 } else { v as u8 }
}

/// Channel-wise addition that stops at full intensity.
pub open spec fn add_spec(a: Colour, b: Colour) -> Colour {
    Colour {
        r: sat_u8(a.r + b.r),
        g: sat_u8(a.g + b.g),
        b: sat_u8(a.b + b.b),
    }
}

/// Channel-wise integer division by a positive divisor.
pub open spec fn div_spec(c: Colour, d: int) -> Colour {
    Colour { r: (c.r as int / d) as u8, g: (c.g as int / d) as u8, b: (c.b as int / d) as u8 }
}

/// Channel-wise scaling by `s / 255`, rounding down.
pub open spec fn scale_spec(c: Colour, s: u8) -> Colour {
    Colour {
        r: ((c.r * s) / 255) as u8,
        g: ((c.g * s) / 255) as u8,
        b: ((c.b * s) / 255) as u8,
    }
}

/// The sum of the three channels, capped at 255.
pub open spec fn total_spec(c: Colour) -> u8 {
    sat_u8(c.r + c.g + c.b)
}

impl Colour {
    pub fn new(r: u8, g: u8, b: u8) -> (c: Colour)
        ensures
            c == (Colour { r, g, b }),
    {
        Colour { r, g, b }
    }

    pub fn new_grey(v: u8) -> (c: Colour)
        ensures
            c == (Colour { r: v, g: v, b: v }),
    {
        Colour { r: v, g: v, b: v }
    }

    /// Relies on rgb_int::Rgb24::saturating_add: `u8::saturating_add` on each channel.
    #[verifier::external_body]
    pub(crate) fn saturating_add(self, other: Colour) -> (c: Colour)
        ensures
            c == add_spec(self, other),
    {
        let c = rgb_int::Rgb24::new(self.r, self.g, self.b);
        let o = c.saturating_add(rgb_int::Rgb24::new(other.r, other.g, other.b));
        Colour { r: o.r, g: o.g, b: o.b }
    }

    /// Relies on rgb_int::Rgb24::scalar_div: each channel divided by the scalar,
    /// which cannot exceed 255 for a divisor of at least one.
    #[verifier::external_body]
    pub(crate) fn scalar_div(self, scalar: u32) -> (c: Colour)
        requires
            scalar >= 1,
        ensures
            c == div_spec(self, scalar as int),
    {
        let o = rgb_int::Rgb24::new(self.r, self.g, self.b).scalar_div(scalar);
        Colour { r: o.r, g: o.g, b: o.b }
    }

    /// Relies on rgb_int::Rgb24::normalised_scalar_mul: each channel becomes
    /// `channel * scalar / 255`, computed in `u32`.
    #[verifier::external_body]
    pub(crate) fn normalised_scalar_mul(self, scalar: u8) -> (c: Colour)
        ensures
            c == scale_spec(self, scalar),
    {
        let o = rgb_int::Rgb24::new(self.r, self.g, self.b).normalised_scalar_mul(scalar);
        Colour { r: o.r, g: o.g, b: o.b }
    }

    /// Relies on rgb_int::Rgb24::saturating_channel_total: `r`, `g` and `b`
    /// summed with `u8::saturating_add`.
    #[verifier::external_body]
    pub(crate) fn saturating_channel_total(self) -> (t: u8)
        ensures
            t == total_spec(self),
    {
        rgb_int::Rgb24::new(self.r, self.g, self.b).saturating_channel_total()
    }
}

} // verus!
