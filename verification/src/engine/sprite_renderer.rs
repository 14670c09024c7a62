//! The sprites of a frame, in the order in which they are to be painted.

use vstd::prelude::*;
use crate::engine::resource_manager::texture::Texture;
use crate::math::{Color, Vec2};

verus! {

/// One textured rectangle to paint: `position` is its top-left corner before
/// it is turned, `size` its extent, `rotate` the angle in thousandths of a
/// degree by which it is turned about its centre.
#[derive(Clone, Copy, Debug, PartialEq, Eq, Structural)]
pub struct Sprite {
    pub texture: Texture,
    pub position: Vec2,
    pub size: Vec2,
    pub rotate: i64,
    pub color: Color,
}

/// Collects the sprites of a frame for a viewport of `width` by `height`
/// pixels. Later sprites are painted over earlier ones; there is no depth.
pub struct SpriteRenderer {
    pub width: u32,
    pub height: u32,
    pub sprites: Vec<Sprite>,
}

impl SpriteRenderer {
    pub fn new(width: u32, height: u32) -> (renderer: SpriteRenderer)
        ensures
            renderer.width == width,
            renderer.height == height,
            renderer.sprites@ == Seq::<Sprite>::empty(),
    {
        SpriteRenderer { width, height, sprites: Vec::new() }
    }

    /// Adds one sprite on top of those already collected.
    pub fn draw_sprite(
        &mut self,
        texture: Texture,
        position: Vec2,
        size: Vec2,
        rotate: i64,
        color: Color,
    )
        ensures
            final(self).width == old(self).width,
            final(self).height == old(self).height,
            final(self).sprites@ == old(self).sprites@.push(
                Sprite { texture, position, size, rotate, color },
            ),
    {
        self.sprites.push(Sprite { texture, position, size, rotate, color });
    }

    /// Forgets the sprites collected so far: the next frame starts empty.
    pub fn clear(&mut self)
        ensures
            final(self).width == old(self).width,
            final(self).height == old(self).height,
            final(self).sprites@ == Seq::<Sprite>::empty(),
    {
        self.sprites.clear();
    }

    pub fn sprites(&self) -> (sprites: &Vec<Sprite>)
        ensures
            *sprites == self.sprites,
    {
        &self.sprites
    }
}

} // verus!
