//! Colors with an alpha channel.

use vstd::prelude::*;

verus! {

/// A color: red, green, blue and alpha.
#[derive(Clone, Copy, Debug, Eq, Hash, PartialEq, Structural)]
pub struct Color(pub u8, pub u8, pub u8, pub u8);

impl Color {
    /// The color with its alpha scaled by `alpha`, where 255 keeps it: the
    /// product of the two, divided by 255 and rounded down.
    #[inline]
    pub fn mul_alpha(self, alpha: u8) -> (color: Color)
        ensures
            color.0 == self.0,
            color.1 == self.1,
            color.2 == self.2,
            color.3 == (self.3 * alpha) / 255,
    {
        let Color(r, g, b, a) = self;
        assert(a * alpha <= 255 * 255) by (nonlinear_arith)
            requires
                a <= 255,
                alpha <= 255,
        ;
        let mul: u16 = a as u16 * alpha as u16;
        assert(mul / 255 <= 255);
        Color(r, g, b, (mul / 0xff) as u8)
    }
}

impl vstd::std_specs::convert::FromSpecImpl<(u8, u8, u8)> for Color {
    open spec fn obeys_from_spec() -> bool {
        true
    }

    open spec fn from_spec(color: (u8, u8, u8)) -> Color {
        Color(color.0, color.1, color.2, 255)
    }
}

impl From<(u8, u8, u8)> for Color {
    /// The opaque color of red, green and blue.
    #[inline]
    fn from(color: (u8, u8, u8)) -> (result: Color) {
        let (r, g, b) = color;
        Color(r, g, b, 255)
    }
}

impl vstd::std_specs::convert::FromSpecImpl<(u8, u8, u8, u8)> for Color {
    open spec fn obeys_from_spec() -> bool {
        true
    }

    open spec fn from_spec(color: (u8, u8, u8, u8)) -> Color {
        Color(color.0, color.1, color.2, color.3)
    }
}

impl From<(u8, u8, u8, u8)> for Color {
    /// The color of red, green, blue and alpha.
    #[inline]
    fn from(color: (u8, u8, u8, u8)) -> (result: Color) {
        let (r, g, b, a) = color;
        Color(r, g, b, a)
    }
}

} // verus!
