//! Colors with four 8-bit channels and fixed-size sprites made of them.
//!
//! A [`Color`] is made from its channels, from a packed word, or from hue,
//! saturation and value given as exact [`Fraction`]s. A [`Sprite`] is a grid
//! of colors that is read and written by coordinate. [`Display`] and
//! [`Device`] are what a backend implements to draw them.

use vstd::prelude::*;

pub mod color;
pub mod device;
pub mod display;
pub mod fraction;
pub mod hsv;
pub mod order;
pub mod sprite;

pub use color::Color;
pub use device::Device;
pub use display::Display;
pub use fraction::Fraction;
pub use sprite::Sprite;

verus! {

/// A pixel is a color.
pub type Pixel = Color;

} // verus!
