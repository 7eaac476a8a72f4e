use vstd::prelude::*;

verus! {

/// An RGBA colour with eight bits per channel.
#[derive(Clone, Copy, Debug, PartialEq, Eq, Structural)]
pub struct Colour {
    pub r: u8,
    pub g: u8,
    pub b: u8,
    pub a: u8,
}

impl Colour {
    /// The colour with the given channels.
    pub fn new(r: u8, g: u8, b: u8, a: u8) -> (c: Colour)
        ensures
            c.r == r,
            c.g == g,
            c.b == b,
            c.a == a,
    {
        Colour { r, g, b, a }
    }

    /// Transparent black: every channel zero.
    pub fn zero() -> (c: Colour)
        ensures
            c.r == 0,
            c.g == 0,
            c.b == 0,
            c.a == 0,
    {
        Colour { r: 0, g: 0, b: 0, a: 0 }
    }

    /// Opaque white: every channel at its maximum.
    pub fn white() -> (c: Colour)
        ensures
            c.r == 255,
            c.g == 255,
            c.b == 255,
            c.a == 255,
    {
        Colour { r: 255, g: 255, b: 255, a: 255 }
    }

    /// Applies `scale` to the red, green and blue channels and keeps alpha
    /// as it is. A brightness factor is applied this way: the closure
    /// multiplies one channel and truncates the product back into a byte.
    pub fn scale_rgb<F: Fn(u8) -> u8>(self, scale: F) -> (c: Colour)
        requires
            forall|v: u8| scale.requires((v,)),
        ensures
            scale.ensures((self.r,), c.r),
            scale.ensures((self.g,), c.g),
            scale.ensures((self.b,), c.b),
            c.a == self.a,
    {
        let r = scale(self.r);
        let g = scale(self.g);
        let b = scale(self.b);
        Colour { r, g, b, a: self.a }
    }
}

} // verus!
