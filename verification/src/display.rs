//! What a display offers: drawing in a color at whole-number screen
//! coordinates, and drawing a sprite. Nothing here says how a display draws;
//! that is for the type that implements the trait.

use vstd::prelude::*;
use crate::color::Color;
use crate::sprite::Sprite;

verus! {

/// A surface that can be drawn on. A location is a point `(x, y)`, or as many
/// points as the shape has corners.
pub trait Display {
    /// Draws the point at `location` in the color `trace`.
    fn draw_point(&self, location: (i32, i32), trace: Color);

    /// Draws the line between the two points of `location`.
    fn draw_line(&self, location: ((i32, i32), (i32, i32)), trace: Color);

    /// Draws the triangle whose corners are the three points of `location`.
    fn draw_triangle(&self, location: ((i32, i32), (i32, i32), (i32, i32)), trace: Color);

    /// Draws the rectangle of which the two points of `location` are opposite
    /// corners.
    fn draw_rectangle(&self, location: ((i32, i32), (i32, i32)), trace: Color);

    /// Draws an ellipse.
    fn draw_ellipse(&self);

    /// Draws a rectangle with rounded corners.
    fn draw_round_rectangle(&self);

    /// Draws a polygon.
    fn draw_polygon(&self);

    /// Draws a sprite, which holds one color for each of its coordinates.
    fn draw_sprite(&self, sprite: &Sprite)
        requires
            sprite.wf(),
    ;

    /// Plays a sound.
    fn play_sound(&self);
}

} // verus!
