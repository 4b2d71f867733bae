//! What a device offers: it takes a sprite and draws it.

use vstd::prelude::*;
use crate::sprite::Sprite;

verus! {

/// A device that sprites are handed to for drawing.
pub trait Device {
    /// Draws a sprite, which holds one color for each of its coordinates. The
    /// device keeps the sprite.
    fn draw_sprite(&self, sprite: Sprite)
        requires
            sprite.wf(),
    ;
}

} // verus!
