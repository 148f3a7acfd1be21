use vstd::prelude::*;
use embedded_graphics::pixelcolor::{Rgb565, Rgb888, RgbColor};

verus! {

/// A colour in the display's 16-bit format: 5 bits of red, 6 of green and
/// 5 of blue, each kept as its own channel value.
#[derive(Debug, Clone, Copy, PartialEq, Eq, Structural)]
pub struct Rgb565Color {
    pub r: u8,
    pub g: u8,
    pub b: u8,
}

/// A colour with 8 bits per channel, as bitmaps with 24-bit pixels hold it.
#[derive(Debug, Clone, Copy, PartialEq, Eq, Structural)]
pub struct Rgb888Color {
    pub r: u8,
    pub g: u8,
    pub b: u8,
}

/// Largest red and blue channel value of a 16-bit colour.
pub const MAX_RB_565: u8 = 31;

/// Largest green channel value of a 16-bit colour.
pub const MAX_G_565: u8 = 63;

/// Rescales a channel value from the range `0..=from_max` to `0..=to_max`,
/// rounding to nearest, in the fixed-point form with 24 fractional bits.
pub open spec fn convert_channel(value: u8, from_max: u8, to_max: u8) -> int {
    if from_max == to_max {
        value as int
    } else {
        (value * ((to_max * 0x100_0000int) / from_max as int) + 0x80_0000) / 0x100_0000
    }
}

/// The 16-bit colour that an 8-bit-per-channel colour becomes.
pub open spec fn spec_rgb565_of(c: Rgb888Color) -> Rgb565Color {
    Rgb565Color {
        r: convert_channel(c.r, 255, MAX_RB_565) as u8,
        g: convert_channel(c.g, 255, MAX_G_565) as u8,
        b: convert_channel(c.b, 255, MAX_RB_565) as u8,
    }
}

impl Rgb565Color {
    /// Every channel lies within its bit width.
    pub open spec fn wf(self) -> bool {
        self.r <= MAX_RB_565 && self.g <= MAX_G_565 && self.b <= MAX_RB_565
    }

    pub fn new(r: u8, g: u8, b: u8) -> (c: Self)
        requires
            r <= MAX_RB_565,
            g <= MAX_G_565,
            b <= MAX_RB_565,
        ensures
            c == (Rgb565Color { r, g, b }),
            c.wf(),
    {
        Rgb565Color { r, g, b }
    }

    pub fn black() -> (c: Self)
        ensures
            c == (Rgb565Color { r: 0, g: 0, b: 0 }),
    {
        Rgb565Color { r: 0, g: 0, b: 0 }
    }

    pub fn white() -> (c: Self)
        ensures
            c == (Rgb565Color { r: MAX_RB_565, g: MAX_G_565, b: MAX_RB_565 }),
    {
        Rgb565Color { r: MAX_RB_565, g: MAX_G_565, b: MAX_RB_565 }
    }

    pub fn red() -> (c: Self)
        ensures
            c == (Rgb565Color { r: MAX_RB_565, g: 0, b: 0 }),
    {
        Rgb565Color { r: MAX_RB_565, g: 0, b: 0 }
    }

    pub fn green() -> (c: Self)
        ensures
            c == (Rgb565Color { r: 0, g: MAX_G_565, b: 0 }),
    {
        Rgb565Color { r: 0, g: MAX_G_565, b: 0 }
    }

    pub fn blue() -> (c: Self)
        ensures
            c == (Rgb565Color { r: 0, g: 0, b: MAX_RB_565 }),
    {
        Rgb565Color { r: 0, g: 0, b: MAX_RB_565 }
    }
}

/// `embedded_graphics`' conversion `Rgb565::from(Rgb888::new(r, g, b))`, read
/// back channel by channel. Its source rescales each channel with
/// `convert_channel::<255, MAX>` (`round(value * MAX / 255)` in fixed point
/// with 24 fractional bits), which `convert_channel` above states; for these
/// maxima no intermediate value leaves `u32`. `Rgb565::new` then masks each
/// channel with its maximum, which leaves these values unchanged.
#[verifier::external_body]
fn rgb888_to_rgb565(r: u8, g: u8, b: u8) -> (c: Rgb565Color)
    ensures
        c.r == convert_channel(r, 255, MAX_RB_565),
        c.g == convert_channel(g, 255, MAX_G_565),
        c.b == convert_channel(b, 255, MAX_RB_565),
{
    let c = Rgb565::from(Rgb888::new(r, g, b));
    Rgb565Color { r: c.r(), g: c.g(), b: c.b() }
}

/// Each converted channel lies within its 16-bit range.
pub proof fn lemma_convert_channel_bounds(v: u8)
    ensures
        0 <= convert_channel(v, 255, MAX_RB_565) <= MAX_RB_565,
        0 <= convert_channel(v, 255, MAX_G_565) <= MAX_G_565,
{
    assert((31 * 0x100_0000int) / 255 == 2039583);
    assert((63 * 0x100_0000int) / 255 == 4144959);
    assert(0 <= (v * 2039583int + 0x80_0000) / 0x100_0000 <= 31) by (nonlinear_arith)
        requires 0 <= v <= 255;
    assert(0 <= (v * 4144959int + 0x80_0000) / 0x100_0000 <= 63) by (nonlinear_arith)
        requires 0 <= v <= 255;
}

/// The conversion rounds to nearest: each 16-bit channel, scaled back to
/// 8 bits, is within half a step of the 8-bit channel it came from
/// (`round(v * max / 255)`).
pub proof fn lemma_convert_channel_rounds(v: u8)
    ensures
        -255 <= 2 * (convert_channel(v, 255, MAX_RB_565) * 255 - v * 31) <= 255,
        -255 <= 2 * (convert_channel(v, 255, MAX_G_565) * 255 - v * 63) <= 255,
{
    assert((31 * 0x100_0000int) / 255 == 2039583);
    assert((63 * 0x100_0000int) / 255 == 4144959);
    let c31 = convert_channel(v, 255, MAX_RB_565);
    let c63 = convert_channel(v, 255, MAX_G_565);
    assert(c31 == (v * 2039583int + 0x80_0000) / 0x100_0000);
    assert(c63 == (v * 4144959int + 0x80_0000) / 0x100_0000);
    assert(c31 * 0x100_0000 <= v * 2039583int + 0x80_0000 < (c31 + 1) * 0x100_0000);
    assert(c63 * 0x100_0000 <= v * 4144959int + 0x80_0000 < (c63 + 1) * 0x100_0000);
}

impl Rgb888Color {
    /// The 16-bit colour that this colour is shown as.
    pub fn to_rgb565(&self) -> (c: Rgb565Color)
        ensures
            c == spec_rgb565_of(*self),
            c.wf(),
    {
        proof {
            lemma_convert_channel_bounds(self.r);
            lemma_convert_channel_bounds(self.g);
            lemma_convert_channel_bounds(self.b);
        }
        rgb888_to_rgb565(self.r, self.g, self.b)
    }
}

} // verus!
