//! The color value type: four 8-bit channels in the order alpha, red, green, blue.

use vstd::prelude::*;
use crate::fraction::Fraction;

verus! {

/// A color with an alpha channel. Every combination of channel values is a
/// color, and a color is nothing but its four channels: two colors are equal
/// exactly when all four agree.
#[derive(Clone, Copy, Debug, PartialEq, Eq, Structural, Ord)]
pub struct Color {
    /// Opacity: 0 is fully transparent, 255 fully opaque.
    pub a: u8,
    /// Red.
    pub r: u8,
    /// Green.
    pub g: u8,
    /// Blue.
    pub b: u8,
}

/// The color that a packed word stands for: red, green and blue are its three
/// low bytes, from the most significant of them down, and the color is fully
/// opaque whatever the top byte holds.
pub open spec fn hex_color(word: u32) -> Color {
    Color {
        a: 255,
        r: ((word / 0x1_0000) % 0x100) as u8,
        g: ((word / 0x100) % 0x100) as u8,
        b: (word % 0x100) as u8,
    }
}

impl Color {
    /// The color with exactly the given channels.
    pub fn new(a: u8, r: u8, g: u8, b: u8) -> (color: Color)
        ensures
            color == (Color { a, r, g, b }),
    {
        Color { a, r, g, b }
    }

    /// The fully opaque color with the given red, green and blue channels.
    pub fn rgb(r: u8, g: u8, b: u8) -> (color: Color)
        ensures
            color == (Color { a: 255, r, g, b }),
    {
        Color::new(0xFF, r, g, b)
    }

    /// The fully opaque color packed in the three low bytes of `word`, written
    /// `0x__RRGGBB`. The top byte is not looked at.
    pub fn hex(word: u32) -> (color: Color)
        ensures
            color == hex_color(word),
    {
        let red: u32 = (word >> 16) & 0xFF;
        let green: u32 = (word >> 8) & 0xFF;
        let blue: u32 = word & 0xFF;
        assert(red == (word / 0x1_0000) % 0x100 && green == (word / 0x100) % 0x100 && blue == word
            % 0x100) by (bit_vector)
            requires
                red == (word >> 16) & 0xFF,
                green == (word >> 8) & 0xFF,
                blue == word & 0xFF,
        ;
        Color::new(0xFF, red as u8, green as u8, blue as u8)
    }

    /// This color with its alpha channel replaced by the channel nearest to
    /// 255 times `alpha`, a fraction below one. Red, green and blue stay.
    pub fn with_alpha(self, alpha: Fraction) -> (color: Color)
        requires
            alpha.is_proper(),
        ensures
            color == (Color { a: alpha.to_channel(), r: self.r, g: self.g, b: self.b }),
    {
        Color::new(alpha.to_channel(), self.r, self.g, self.b)
    }

    /// `with_alpha` for any fraction: `None` exactly when `alpha` is not below
    /// one.
    pub fn try_with_alpha(self, alpha: Fraction) -> (color: Option<Color>)
        ensures
            alpha.is_proper() ==> color == Some(
                Color { a: alpha.to_channel(), r: self.r, g: self.g, b: self.b },
            ),
            !alpha.is_proper() ==> color.is_none(),
    {
        if alpha.is_proper() {
            Some(self.with_alpha(alpha))
        } else {
            None
        }
    }
}

impl Default for Color {
    /// Fully transparent black: every channel is zero.
    fn default() -> (color: Color)
        ensures
            color == (Color { a: 0, r: 0, g: 0, b: 0 }),
    {
        Color { a: 0, r: 0, g: 0, b: 0 }
    }
}

/// The top byte of a packed word has no part in its color: words that agree in
/// their three low bytes stand for the same color.
pub proof fn lemma_hex_ignores_top_byte(word: u32, other: u32)
    requires
        word % 0x100_0000 == other % 0x100_0000,
    ensures
        hex_color(word) == hex_color(other),
{
    assert((word / 0x1_0000) % 0x100 == (other / 0x1_0000) % 0x100 && (word / 0x100) % 0x100 == (
    other / 0x100) % 0x100 && word % 0x100 == other % 0x100) by (bit_vector)
        requires
            word % 0x100_0000 == other % 0x100_0000,
    ;
}

} // verus!
