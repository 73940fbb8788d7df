//! Colors as the scene states them, and the 8-bit pixel values they
//! rasterize to.

use vstd::prelude::*;

verus! {

/// A color channel is stored in thousandths of full intensity:
/// 0 is none, `CHANNEL_SCALE` is full.
pub const CHANNEL_SCALE: u16 = 1000;

/// The largest value an 8-bit channel can hold.
pub const BYTE_MAX: u16 = 255;

/// An RGB color, each channel in thousandths of full intensity.
#[derive(Clone, Copy, Debug, PartialEq, Eq, Structural)]
pub struct Color {
    pub r: u16,
    pub g: u16,
    pub b: u16,
}

/// An 8-bit RGB pixel value, as a rendered buffer holds it.
#[derive(Clone, Copy, Debug, PartialEq, Eq, Structural)]
pub struct Rgb8 {
    pub r: u8,
    pub g: u8,
    pub b: u8,
}

/// What a channel becomes at 8-bit depth: scaled to 0..=255, truncating.
pub open spec fn spec_channel_to_byte(v: u16) -> u8 {
    ((v as int * BYTE_MAX as int) / (CHANNEL_SCALE as int)) as u8
}

/// The 8-bit pixel a color rasterizes to: each channel scaled independently.
pub open spec fn spec_to_rgb8(c: Color) -> Rgb8 {
    Rgb8 {
        r: spec_channel_to_byte(c.r),
        g: spec_channel_to_byte(c.g),
        b: spec_channel_to_byte(c.b),
    }
}

impl Color {
    /// A color is well formed when every channel is at most `CHANNEL_SCALE`.
    pub open spec fn wf(self) -> bool {
        self.r <= CHANNEL_SCALE && self.g <= CHANNEL_SCALE && self.b <= CHANNEL_SCALE
    }

    pub fn new(r: u16, g: u16, b: u16) -> (c: Color)
        requires
            r <= CHANNEL_SCALE,
            g <= CHANNEL_SCALE,
            b <= CHANNEL_SCALE,
        ensures
            c == (Color { r, g, b }),
            c.wf(),
    {
        Color { r, g, b }
    }

    /// The 8-bit pixel value this color rasterizes to.
    pub fn to_rgb8(self) -> (p: Rgb8)
        requires
            self.wf(),
        ensures
            p == spec_to_rgb8(self),
    {
        Rgb8 {
            r: channel_to_byte(self.r),
            g: channel_to_byte(self.g),
            b: channel_to_byte(self.b),
        }
    }
}

fn channel_to_byte(v: u16) -> (b: u8)
    requires
        v <= CHANNEL_SCALE,
    ensures
        b == spec_channel_to_byte(v),
{
    let scaled: u32 = (v as u32) * (BYTE_MAX as u32);
    let q: u32 = scaled / (CHANNEL_SCALE as u32);
    proof {
        vstd::arithmetic::mul::lemma_mul_inequality(
            v as int,
            CHANNEL_SCALE as int,
            BYTE_MAX as int,
        );
        vstd::arithmetic::div_mod::lemma_div_is_ordered(
            scaled as int,
            CHANNEL_SCALE as int * BYTE_MAX as int,
            CHANNEL_SCALE as int,
        );
        assert(q <= BYTE_MAX);
    }
    q as u8
}

} // verus!
