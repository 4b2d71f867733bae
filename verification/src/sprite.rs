//! A sprite: a grid of colors of fixed width and height.
//!
//! Coordinates count from zero. The column `x` runs below the width and the
//! row `y` below the height; a coordinate at or beyond either is out of
//! bounds. The colors are kept row by row, so the color at `(x, y)` is the one
//! at place `y * width + x` of the buffer.

use vstd::prelude::*;
use crate::color::Color;

verus! {

/// What a sprite is, as plain mathematics: its two dimensions and its colors,
/// row by row.
pub struct SpriteView {
    /// The number of columns.
    pub width: nat,
    /// The number of rows.
    pub height: nat,
    /// The colors, row by row.
    pub pixels: Seq<Color>,
}

impl SpriteView {
    /// There is one color for each coordinate, and no more.
    pub open spec fn wf(self) -> bool {
        self.pixels.len() == self.width * self.height
    }

    /// Whether `(x, y)` is a coordinate of the sprite.
    pub open spec fn contains(self, x: int, y: int) -> bool {
        0 <= x < self.width && 0 <= y < self.height
    }

    /// The place of `(x, y)` in `pixels`.
    pub open spec fn offset(self, x: int, y: int) -> int {
        y * self.width + x
    }

    /// The color at `(x, y)`.
    pub open spec fn pixel(self, x: int, y: int) -> Color
        recommends
            self.wf(),
            self.contains(x, y),
    {
        self.pixels[self.offset(x, y)]
    }

    /// The sprite with the color at `(x, y)` replaced by `color`.
    pub open spec fn put(self, x: int, y: int, color: Color) -> SpriteView
        recommends
            self.wf(),
            self.contains(x, y),
    {
        SpriteView {
            width: self.width,
            height: self.height,
            pixels: self.pixels.update(self.offset(x, y), color),
        }
    }

    /// Every coordinate of a sprite has a place in its buffer.
    pub proof fn lemma_offset_in_range(self, x: int, y: int)
        requires
            self.wf(),
            self.contains(x, y),
        ensures
            0 <= self.offset(x, y) < self.pixels.len(),
    {
        let w = self.width as int;
        let h = self.height as int;
        assert(0 <= y * w + x < w * h) by (nonlinear_arith)
            requires
                0 <= x < w,
                0 <= y < h,
        ;
    }

    /// Two coordinates of a sprite that share a place in its buffer are the
    /// same coordinate.
    pub proof fn lemma_offset_is_injective(self, x1: int, y1: int, x2: int, y2: int)
        requires
            self.contains(x1, y1),
            self.contains(x2, y2),
            self.offset(x1, y1) == self.offset(x2, y2),
        ensures
            x1 == x2,
            y1 == y2,
    {
        let w = self.width as int;
        assert(y1 == y2) by (nonlinear_arith)
            requires
                0 <= x1 < w,
                0 <= x2 < w,
                y1 * w + x1 == y2 * w + x2,
        ;
    }

    /// A write keeps the dimensions and the number of colors, puts the new
    /// color at its coordinate and leaves every other coordinate as it was.
    pub proof fn lemma_put(self, x: int, y: int, color: Color, i: int, j: int)
        requires
            self.wf(),
            self.contains(x, y),
            self.contains(i, j),
        ensures
            self.put(x, y, color).wf(),
            self.put(x, y, color).width == self.width,
            self.put(x, y, color).height == self.height,
            self.put(x, y, color).pixel(x, y) == color,
            (i != x || j != y) ==> self.put(x, y, color).pixel(i, j) == self.pixel(i, j),
    {
        self.lemma_offset_in_range(x, y);
        self.lemma_offset_in_range(i, j);
        if i != x || j != y {
            if self.offset(i, j) == self.offset(x, y) {
                self.lemma_offset_is_injective(i, j, x, y);
            }
        }
    }

    /// The bounds are exact: the last column of the last row is a coordinate,
    /// and nothing in the column or the row after it is.
    pub proof fn lemma_bounds_are_exact(self, x: int, y: int)
        requires
            self.wf(),
            self.width > 0,
            self.height > 0,
        ensures
            self.contains(self.width - 1, self.height - 1),
            0 <= self.offset(self.width - 1, self.height - 1) < self.pixels.len(),
            !self.contains(self.width as int, y),
            !self.contains(x, self.height as int),
    {
        self.lemma_offset_in_range(self.width - 1, self.height - 1);
    }
}

/// A grid of colors whose width and height are fixed when it is made.
pub struct Sprite {
    width: u16,
    height: u16,
    buffer: Vec<Color>,
}

impl View for Sprite {
    type V = SpriteView;

    closed spec fn view(&self) -> SpriteView {
        SpriteView {
            width: self.width as nat,
            height: self.height as nat,
            pixels: self.buffer@,
        }
    }
}

impl Sprite {
    /// The sprite holds one color for each of its coordinates.
    pub open spec fn wf(&self) -> bool {
        self@.wf()
    }

    /// A sprite of the given width and height, every color of which is the
    /// default color, fully transparent black.
    pub fn new(width: u16, height: u16) -> (sprite: Sprite)
        ensures
            sprite.wf(),
            sprite@.width == width,
            sprite@.height == height,
            sprite@.pixels == Seq::new(
                (width * height) as nat,
                |i: int| Color { a: 0, r: 0, g: 0, b: 0 },
            ),
    {
        assert(width * height <= 0xFFFF * 0xFFFF) by (nonlinear_arith)
            requires
                width <= 0xFFFF,
                height <= 0xFFFF,
        ;
        let len: usize = width as usize * height as usize;
        let buffer = vec![Color::default(); len];
        Sprite { width, height, buffer }
    }

    /// The number of columns.
    pub fn width(&self) -> (width: u16)
        ensures
            width == self@.width,
    {
        self.width
    }

    /// The number of rows.
    pub fn height(&self) -> (height: u16)
        ensures
            height == self@.height,
    {
        self.height
    }

    /// Whether `(x, y)` is a coordinate of the sprite.
    pub fn contains(&self, x: u16, y: u16) -> (inside: bool)
        ensures
            inside == self@.contains(x as int, y as int),
    {
        x < self.width && y < self.height
    }

    /// All the colors, row by row.
    pub fn as_slice(&self) -> (pixels: &[Color])
        ensures
            pixels@ == self@.pixels,
    {
        self.buffer.as_slice()
    }

    /// The place of `(x, y)` in the buffer.
    fn offset(&self, x: u16, y: u16) -> (offset: usize)
        requires
            self.wf(),
            self@.contains(x as int, y as int),
        ensures
            offset == self@.offset(x as int, y as int),
            offset < self.buffer.len(),
    {
        proof {
            self@.lemma_offset_in_range(x as int, y as int);
            assert(y * self.width <= 0xFFFF * 0xFFFF) by (nonlinear_arith)
                requires
                    y <= 0xFFFF,
                    self.width <= 0xFFFF,
            ;
        }
        y as usize * self.width as usize + x as usize
    }

    /// The color at `(x, y)`, or `None` exactly when `(x, y)` is out of bounds.
    pub fn get(&self, x: u16, y: u16) -> (color: Option<Color>)
        requires
            self.wf(),
        ensures
            self@.contains(x as int, y as int) ==> color == Some(self@.pixel(x as int, y as int)),
            !self@.contains(x as int, y as int) ==> color.is_none(),
    {
        if self.contains(x, y) {
            Some(self.buffer[self.offset(x, y)])
        } else {
            None
        }
    }

    /// Replaces the color at `(x, y)`, which must be a coordinate of the
    /// sprite. Nothing else changes.
    pub fn set(&mut self, x: u16, y: u16, color: Color)
        requires
            old(self).wf(),
            old(self)@.contains(x as int, y as int),
        ensures
            final(self).wf(),
            final(self)@ == old(self)@.put(x as int, y as int, color),
    {
        let offset = self.offset(x, y);
        self.buffer.set(offset, color);
    }

    /// `set` for any `(x, y)`: writes and returns `true` where `(x, y)` is a
    /// coordinate of the sprite, and otherwise changes nothing and returns
    /// `false`.
    pub fn try_set(&mut self, x: u16, y: u16, color: Color) -> (written: bool)
        requires
            old(self).wf(),
        ensures
            final(self).wf(),
            written == old(self)@.contains(x as int, y as int),
            written ==> final(self)@ == old(self)@.put(x as int, y as int, color),
            !written ==> final(self)@ == old(self)@,
    {
        if self.contains(x, y) {
            self.set(x, y, color);
            true
        } else {
            false
        }
    }
}

impl core::ops::Index<(u16, u16)> for Sprite {
    type Output = Color;

    /// The color at the coordinate `at`, given as `(x, y)`, which must be a
    /// coordinate of the sprite.
    fn index(&self, at: (u16, u16)) -> (color: &Color)
        ensures
            *color == self@.pixel(at.0 as int, at.1 as int),
    {
        &self.buffer[self.offset(at.0, at.1)]
    }
}

impl vstd::std_specs::core::IndexSpecImpl<(u16, u16)> for Sprite {
    open spec fn index_req(&self, at: &(u16, u16)) -> bool {
        self.wf() && self@.contains(at.0 as int, at.1 as int)
    }
}

impl Clone for Sprite {
    /// A sprite of its own with the same dimensions and the same colors.
    fn clone(&self) -> (sprite: Sprite)
        ensures
            sprite@ == self@,
    {
        let buffer = self.buffer.clone();
        assert(buffer@ =~= self.buffer@);
        Sprite { width: self.width, height: self.height, buffer }
    }
}

/// Reading changes nothing: two reads of one coordinate of one sprite give the
/// same color.
pub proof fn lemma_index_is_repeatable(sprite: &Sprite, at: (u16, u16), first: &Color, second: &Color)
    requires
        sprite.wf(),
        call_ensures(<Sprite as core::ops::Index<(u16, u16)>>::index, (sprite, at), first),
        call_ensures(<Sprite as core::ops::Index<(u16, u16)>>::index, (sprite, at), second),
    ensures
        *first == *second,
{
}

/// The same of the read that answers for every coordinate: two reads of one
/// coordinate of one sprite give the same answer, in bounds or out.
pub proof fn lemma_get_is_repeatable(
    sprite: &Sprite,
    x: u16,
    y: u16,
    first: Option<Color>,
    second: Option<Color>,
)
    requires
        sprite.wf(),
        call_ensures(Sprite::get, (sprite, x, y), first),
        call_ensures(Sprite::get, (sprite, x, y), second),
    ensures
        first == second,
{
}

} // verus!
