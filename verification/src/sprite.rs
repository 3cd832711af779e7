//! Sprites: rectangular sections of a texture, and where to draw them.

use crate::rect::Rect;
use vstd::prelude::*;

verus! {

/// Where to copy a texture from and to: the section of the texture, or all
/// of it without one, and the rectangle of the surface that it is to fill.
#[derive(Debug, Clone, Copy, PartialEq, Eq)]
pub struct Placement {
    pub source: Option<Rect>,
    pub destination: Rect,
}

/// A rectangular section of a texture rendered on its own.
///
/// `T` is the texture, which the sprite only keeps.
#[derive(Clone, Debug)]
pub struct Sprite<T> {
    /// The area in the texture for this sprite.
    pub rect: Rect,
    texture: T,
}

impl<T> Sprite<T> {
    /// The texture of the sprite.
    pub closed spec fn texture_of(self) -> T {
        self.texture
    }

    /// The area in the texture for this sprite: the field `rect`.
    pub closed spec fn area(self) -> Rect {
        self.rect
    }

    /// Creates a new sprite.
    ///
    /// The sprite corresponds to the section of `texture` specified by
    /// `rect`, or the entire texture, which is `extent` wide and high, if
    /// `rect` is `None`.
    pub fn new(texture: T, rect: Option<Rect>, extent: (u32, u32)) -> (sprite: Sprite<T>)
        ensures
            sprite.texture_of() == texture,
            sprite.area() == match rect {
                Some(rect) => rect,
                None => Rect { x: 0, y: 0, width: extent.0, height: extent.1 },
            },
    {
        let rect = match rect {
            Some(rect) => rect,
            None => Rect::new(0, 0, extent.0, extent.1),
        };
        Sprite { texture, rect }
    }

    /// The texture of the sprite.
    pub fn texture(&self) -> (texture: &T)
        ensures
            *texture == self.texture_of(),
    {
        &self.texture
    }

    /// Says where to render the sprite so that its top left corner is at
    /// the given point.
    ///
    /// If `size` is `Some`, the sprite will be scaled to that size.
    pub fn render(&self, x: i32, y: i32, size: Option<(u32, u32)>) -> (placement: Placement)
        ensures
            placement.source == Some(self.area()),
            placement.destination == match size {
                Some(size) => Rect { x, y, width: size.0, height: size.1 },
                None => Rect { x, y, width: self.area().width, height: self.area().height },
            },
    {
        let (w, h) = match size {
            Some(size) => size,
            None => (self.rect.width, self.rect.height),
        };
        Placement { source: Some(self.rect), destination: Rect::new(x, y, w, h) }
    }

    /// Says where to render the sprite so that it fills `rect`.
    pub fn render_rect(&self, rect: Rect) -> (placement: Placement)
        ensures
            placement.source == Some(self.area()),
            placement.destination == rect,
    {
        Placement { source: Some(self.rect), destination: rect }
    }
}

} // verus!
