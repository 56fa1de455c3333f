//! RGBA colors with exact rational components.
//!
//! A color component is conceptually a value in [0, 1]; it is stored as an
//! exact fraction over 255, that is, as its 8-bit numerator. Decoding a
//! packed 24-bit hex integer and converting back to 8-bit channel bytes
//! are therefore exact inverses of one another.

use crate::fixed::lemma_tdiv_exact;
use crate::linmap::lin_map_spec;
use vstd::prelude::*;

verus! {

/// An RGBA color; each field is the numerator of the component over 255.
#[derive(Clone, Copy, PartialEq, Eq, Structural, Debug)]
pub struct Pixel {
    pub r: u8,
    pub g: u8,
    pub b: u8,
    pub a: u8,
}

/// The red byte of a packed `0xRRGGBB` integer (bits 16-23).
pub open spec fn hex_r(col: u32) -> u8 {
    ((col >> 16) & 0xff) as u8
}

/// The green byte of a packed `0xRRGGBB` integer (bits 8-15).
pub open spec fn hex_g(col: u32) -> u8 {
    ((col >> 8) & 0xff) as u8
}

/// The blue byte of a packed `0xRRGGBB` integer (bits 0-7).
pub open spec fn hex_b(col: u32) -> u8 {
    (col & 0xff) as u8
}

impl Pixel {
    /// A color from its three component numerators; alpha defaults to
    /// fully opaque.
    pub fn new(r: u8, g: u8, b: u8) -> (p: Pixel)
        ensures
            p == (Pixel { r, g, b, a: 255 }),
    {
        Pixel { r, g, b, a: 255 }
    }

    /// The four 8-bit channel values in RGBA order.
    ///
    /// This is the truncated linear map from [0, 1] to [0, 255] applied to
    /// each component; on components stored over the denominator 255 the
    /// map returns exactly the stored numerator (`lemma_channel_map`).
    pub fn to_u8(&self) -> (bytes: [u8; 4])
        ensures
            bytes@ == seq![self.r, self.g, self.b, self.a],
    {
        let bytes = [self.r, self.g, self.b, self.a];
        proof {
            assert(bytes@ =~= seq![self.r, self.g, self.b, self.a]);
        }
        bytes
    }

    /// Decodes a packed 24-bit `0xRRGGBB` integer; alpha is forced opaque.
    pub fn from_hex(col: u32) -> (p: Pixel)
        ensures
            p == (Pixel { r: hex_r(col), g: hex_g(col), b: hex_b(col), a: 255 }),
    {
        proof {
            assert(((col >> 16) & 0xff) <= 0xff && ((col >> 8) & 0xff) <= 0xff && (col & 0xff)
                <= 0xff) by (bit_vector);
        }
        let r = ((col >> 16) & 0xff) as u8;
        let g = ((col >> 8) & 0xff) as u8;
        let b = (col & 0xff) as u8;
        Pixel { r, g, b, a: 255 }
    }
}

/// Round-trip law of hex decoding: reassembling the three decoded channel
/// bytes reproduces the low 24 bits of the packed integer exactly, and the
/// decoded alpha is always 255 (see `Pixel::from_hex`).
pub proof fn lemma_hex_round_trip(col: u32)
    ensures
        ((hex_r(col) as u32) << 16) | ((hex_g(col) as u32) << 8) | (hex_b(col) as u32) == col
            & 0xff_ffff,
{
    assert((((((col >> 16) & 0xff) as u8) as u32) << 16) | (((((col >> 8) & 0xff) as u8) as u32)
        << 8) | (((col & 0xff) as u8) as u32) == col & 0xff_ffff) by (bit_vector);
}

/// The channel conversion is an instance of the shared linear map: on the
/// common denominator 255, a component numerator `n` (the value `n / 255`
/// in a source range standing for [0, 1]) maps to the raw value `255 * n`
/// (the integer `n` in a destination range standing for [0, 255]), with
/// nothing lost to truncation.
pub proof fn lemma_channel_map(n: int)
    requires
        0 <= n <= 255,
    ensures
        lin_map_spec(n, 0, 255, 0, 255int * 255) == 255 * n,
{
    assert((n - 0) * (255 * 255 - 0) == (255 * n) * 255) by (nonlinear_arith);
    lemma_tdiv_exact(255 * n, 255);
}

} // verus!
