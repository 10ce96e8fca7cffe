use vstd::prelude::*;

verus! {

/// A color of three 8-bit channels.
#[derive(Clone, Copy, Debug, PartialEq, Eq, Structural)]
pub struct Color {
    pub r: u8,
    pub g: u8,
    pub b: u8,
}

/// The channel value in `0..=255` that lies nearest to `x`.
pub open spec fn clamp_channel(x: int) -> int {
    if x < 0 {
        0
    } else if x > 255 {
        255
    } else {
        x
    }
}

impl Color {
    /// The 24-bit number `0xRRGGBB` that stands for this color.
    pub open spec fn packed(self) -> int {
        self.r * 0x1_0000 + self.g * 0x100 + self.b
    }

    /// The color with these channels.
    pub fn new(r: u8, g: u8, b: u8) -> (c: Color)
        ensures
            c == (Color { r, g, b }),
    {
        Color { r, g, b }
    }

    /// The color of no light.
    pub fn black() -> (c: Color)
        ensures
            c == (Color { r: 0, g: 0, b: 0 }),
    {
        Color { r: 0, g: 0, b: 0 }
    }

    /// Brings each channel of an accumulated color back into range. Light
    /// is summed in wider numbers that may leave `0..=255`; this is the one
    /// place where they are cut off, just before the color is packed.
    pub fn clamped(r: i64, g: i64, b: i64) -> (c: Color)
        ensures
            c.r == clamp_channel(r as int),
            c.g == clamp_channel(g as int),
            c.b == clamp_channel(b as int),
    {
        Color { r: clamp_to_u8(r), g: clamp_to_u8(g), b: clamp_to_u8(b) }
    }

    /// Packs the color as `0xRRGGBB`.
    pub fn to_hex(&self) -> (hex: u32)
        ensures
            hex == self.packed(),
    {
        let r: u32 = self.r as u32;
        let g: u32 = self.g as u32;
        let b: u32 = self.b as u32;
        r * 0x1_0000 + g * 0x100 + b
    }
}

fn clamp_to_u8(x: i64) -> (v: u8)
    ensures
        v == clamp_channel(x as int),
{
    if x < 0 {
        0
    } else if x > 255 {
        255
    } else {
        x as u8
    }
}

/// A packed color fits in 24 bits, and its channels can be read back from
/// it: red is the high byte, green the middle one, blue the low one.
pub proof fn lemma_packed_layout(c: Color)
    ensures
        0 <= c.packed() < 0x100_0000,
        c.packed() / 0x1_0000 == c.r,
        (c.packed() / 0x100) % 0x100 == c.g,
        c.packed() % 0x100 == c.b,
{
}

/// Two colors pack to the same number only when they are the same color.
pub proof fn lemma_packed_injective(a: Color, b: Color)
    requires
        a.packed() == b.packed(),
    ensures
        a == b,
{
    lemma_packed_layout(a);
    lemma_packed_layout(b);
}

} // verus!
