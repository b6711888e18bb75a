//! A BGRX8888 colour value.
use vstd::prelude::*;

verus! {

/// One colour value, stored as its three meaningful channels.
///
/// Its byte encoding is explicit rather than left to the struct layout:
/// blue, green, red, then one padding byte that is always zero (see
/// [`Pixel::to_bytes`]). There is no alpha channel.
#[derive(Debug, Clone, Copy, PartialEq, Eq, Structural)]
pub struct Pixel {
    pub b: u8,
    pub g: u8,
    pub r: u8,
}

/// The value of the padding byte in every encoded pixel.
pub const PAD_BYTE: u8 = 0;

/// The number of bytes in one encoded pixel.
pub const PIXEL_BYTES: usize = 4;

impl Pixel {
    /// The all-zero pixel (black), which a new bitmap is filled with.
    pub open spec fn spec_black() -> Pixel {
        Pixel { b: 0, g: 0, r: 0 }
    }

    /// The encoding of a pixel: blue, green, red, padding.
    pub open spec fn spec_bytes(self) -> Seq<u8> {
        seq![self.b, self.g, self.r, PAD_BYTE]
    }

    /// Builds a pixel from its red, green and blue channels.
    pub fn new(r: u8, g: u8, b: u8) -> (p: Pixel)
        ensures
            p.r == r,
            p.g == g,
            p.b == b,
    {
        Pixel { b, g, r }
    }

    /// The all-zero pixel.
    pub fn black() -> (p: Pixel)
        ensures
            p == Pixel::spec_black(),
    {
        Pixel { b: 0, g: 0, r: 0 }
    }

    /// The four bytes of this pixel in BGRX8888 order.
    pub fn to_bytes(&self) -> (r: [u8; 4])
        ensures
            r@ == self.spec_bytes(),
    {
        let r = [self.b, self.g, self.r, PAD_BYTE];
        assert(r@ =~= self.spec_bytes());
        r
    }
}

impl From<(u8, u8, u8)> for Pixel {
    /// Reads the triple as `(red, green, blue)`.
    fn from(value: (u8, u8, u8)) -> (p: Pixel) {
        Pixel::new(value.0, value.1, value.2)
    }
}

impl vstd::std_specs::convert::FromSpecImpl<(u8, u8, u8)> for Pixel {
    open spec fn obeys_from_spec() -> bool {
        true
    }

    open spec fn from_spec(value: (u8, u8, u8)) -> Pixel {
        Pixel { b: value.2, g: value.1, r: value.0 }
    }
}

} // verus!
