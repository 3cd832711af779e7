//! Text labels: a rendered text kept as a texture, and where to draw it.

use crate::rect::Rect;
use crate::sprite::Placement;
use vstd::prelude::*;

verus! {

/// A text label.
///
/// `T` is the texture that holds the rendered text, which the label only keeps.
#[derive(Debug)]
pub struct Label<T> {
    texture: T,
    size: (u32, u32),
}

impl<T> Label<T> {
    /// The texture of the label.
    pub closed spec fn texture_of(self) -> T {
        self.texture
    }

    /// The size of the label in terms of the surface.
    pub closed spec fn size_of(self) -> (u32, u32) {
        self.size
    }

    /// Creates a new label of the text rendered to `texture`, which takes
    /// `size` on the surface.
    #[inline]
    pub fn new(texture: T, size: (u32, u32)) -> (label: Label<T>)
        ensures
            label.texture_of() == texture,
            label.size_of() == size,
    {
        Label { texture, size }
    }

    /// Says where to render the label so that its top left corner is at the
    /// given point: all of the texture, at the label's size.
    pub fn render(&self, x: i32, y: i32) -> (placement: Placement)
        ensures
            placement.source == None::<Rect>,
            placement.destination == (Rect {
                x,
                y,
                width: self.size_of().0,
                height: self.size_of().1,
            }),
    {
        let (w, h) = self.size;
        Placement { source: None, destination: Rect::new(x, y, w, h) }
    }

    /// Returns the size of the label in terms of the surface.
    #[inline]
    pub fn size(&self) -> (size: (u32, u32))
        ensures
            size == self.size_of(),
    {
        self.size
    }

    /// Returns the texture of the label.
    #[inline]
    pub fn texture(&self) -> (texture: &T)
        ensures
            *texture == self.texture_of(),
    {
        &self.texture
    }

    /// Gives up the label for its texture.
    #[inline]
    pub fn into_texture(self) -> (texture: T)
        ensures
            texture == self.texture_of(),
    {
        self.texture
    }
}

} // verus!
