//! The common shape of paddle, ball and bricks.

use vstd::prelude::*;
use crate::engine::resource_manager::texture::Texture;
use crate::engine::sprite_renderer::{Sprite, SpriteRenderer};
use crate::math::{Color, Vec2, COORD_LIMIT, SPEED_LIMIT, UNITS_PER_PIXEL};

verus! {

/// A rectangle on the playfield: `position` is its top-left corner and `size`
/// its extent, both in units; `velocity` is in units per millisecond and
/// `rotation` in thousandths of a degree.
///
/// A brick that has been hit is kept, with `destroyed` set: it is no longer
/// drawn and the ball passes through it.
#[derive(Clone, Copy, Debug, PartialEq, Eq, Structural)]
pub struct GameObject {
    pub position: Vec2,
    pub size: Vec2,
    pub velocity: Vec2,
    pub color: Color,
    pub rotation: i64,
    pub is_solid: bool,
    pub destroyed: bool,
    pub sprite: Option<Texture>,
}

impl GameObject {
    /// The extent is not negative, and position, extent and velocity are
    /// small enough that no step of the simulation can overflow.
    pub open spec fn wf(&self) -> bool {
        &&& self.size.non_negative()
        &&& self.position.within(COORD_LIMIT as int)
        &&& self.size.within(COORD_LIMIT as int)
        &&& self.velocity.within(SPEED_LIMIT as int)
    }

    /// The two rectangles touch or overlap, on both axes.
    pub open spec fn overlaps(&self, rhs: &GameObject) -> bool {
        &&& self.position.x + self.size.x >= rhs.position.x
        &&& rhs.position.x + rhs.size.x >= self.position.x
        &&& self.position.y + self.size.y >= rhs.position.y
        &&& rhs.position.y + rhs.size.y >= self.position.y
    }

    /// What `new` makes.
    pub open spec fn new_spec() -> GameObject {
        GameObject {
            position: Vec2 { x: 0, y: 0 },
            size: Vec2 { x: UNITS_PER_PIXEL, y: UNITS_PER_PIXEL },
            velocity: Vec2 { x: 0, y: 0 },
            color: Color::white(),
            rotation: 0,
            is_solid: false,
            destroyed: false,
            sprite: None,
        }
    }

    /// A white square of one pixel at the origin, at rest, without a sprite.
    pub fn new() -> (obj: GameObject)
        ensures
            obj == GameObject::new_spec(),
            obj.wf(),
    {
        GameObject {
            position: Vec2 { x: 0, y: 0 },
            size: Vec2 { x: UNITS_PER_PIXEL, y: UNITS_PER_PIXEL },
            velocity: Vec2 { x: 0, y: 0 },
            color: Color { r: 1000, g: 1000, b: 1000 },
            rotation: 0,
            is_solid: false,
            destroyed: false,
            sprite: None,
        }
    }

    /// An intact, destructible object with the given sprite. Without a colour
    /// it is white; without a velocity it is at rest.
    pub fn build(
        pos: Vec2,
        size: Vec2,
        sprite: Texture,
        color: Option<Color>,
        velocity: Option<Vec2>,
    ) -> (obj: GameObject)
        ensures
            obj == (GameObject {
                position: pos,
                size,
                velocity: match velocity {
                    Some(v) => v,
                    None => Vec2 { x: 0, y: 0 },
                },
                color: match color {
                    Some(c) => c,
                    None => Color::white(),
                },
                rotation: 0,
                is_solid: false,
                destroyed: false,
                sprite: Some(sprite),
            }),
    {
        GameObject {
            position: pos,
            size,
            rotation: 0,
            sprite: Some(sprite),
            is_solid: false,
            destroyed: false,
            color: match color {
                Some(c) => c,
                None => Color { r: 1000, g: 1000, b: 1000 },
            },
            velocity: match velocity {
                Some(v) => v,
                None => Vec2 { x: 0, y: 0 },
            },
        }
    }

    pub fn mut_position(&mut self) -> (position: &mut Vec2)
        ensures
            *position == old(self).position,
            *final(self) == (GameObject { position: *final(position), ..*old(self) }),
    {
        &mut self.position
    }

    pub fn position(&self) -> (position: &Vec2)
        ensures
            *position == self.position,
    {
        &self.position
    }

    pub fn size(&self) -> (size: &Vec2)
        ensures
            *size == self.size,
    {
        &self.size
    }

    pub fn mut_velocity(&mut self) -> (velocity: &mut Vec2)
        ensures
            *velocity == old(self).velocity,
            *final(self) == (GameObject { velocity: *final(velocity), ..*old(self) }),
    {
        &mut self.velocity
    }

    pub fn velocity(&self) -> (velocity: &Vec2)
        ensures
            *velocity == self.velocity,
    {
        &self.velocity
    }

    pub fn set_is_solid(&mut self, value: bool)
        ensures
            *final(self) == (GameObject { is_solid: value, ..*old(self) }),
    {
        self.is_solid = value;
    }

    pub fn is_solid(&self) -> (solid: &bool)
        ensures
            *solid == self.is_solid,
    {
        &self.is_solid
    }

    pub fn set_destroyed(&mut self, value: bool)
        ensures
            *final(self) == (GameObject { destroyed: value, ..*old(self) }),
    {
        self.destroyed = value;
    }

    pub fn destroyed(&self) -> (destroyed: &bool)
        ensures
            *destroyed == self.destroyed,
    {
        &self.destroyed
    }

    /// What the object adds to a frame: its sprite, if it has one.
    pub open spec fn sprites(&self) -> Seq<Sprite> {
        match self.sprite {
            Some(texture) => seq![
                Sprite {
                    texture,
                    position: self.position,
                    size: self.size,
                    rotate: self.rotation,
                    color: self.color,
                },
            ],
            None => Seq::empty(),
        }
    }

    /// Adds the object to the frame. An object without a sprite adds nothing.
    pub fn draw(&self, sprite_renderer: &mut SpriteRenderer)
        ensures
            final(sprite_renderer).width == old(sprite_renderer).width,
            final(sprite_renderer).height == old(sprite_renderer).height,
            final(sprite_renderer).sprites@ == old(sprite_renderer).sprites@ + self.sprites(),
    {
        if let Some(sprite) = self.sprite {
            sprite_renderer.draw_sprite(sprite, self.position, self.size, self.rotation, self.color);
            assert(sprite_renderer.sprites@ =~= old(sprite_renderer).sprites@ + self.sprites());
        } else {
            assert(sprite_renderer.sprites@ =~= old(sprite_renderer).sprites@ + self.sprites());
        }
    }

    /// Whether the two rectangles touch or overlap. Edges count: two
    /// rectangles that share only a border collide.
    pub fn collides(&self, rhs: &GameObject) -> (hit: bool)
        ensures
            hit == self.overlaps(rhs),
    {
        let left: i128 = self.position.x as i128;
        let right: i128 = left + self.size.x as i128;
        let top: i128 = self.position.y as i128;
        let bottom: i128 = top + self.size.y as i128;
        let rhs_left: i128 = rhs.position.x as i128;
        let rhs_right: i128 = rhs_left + rhs.size.x as i128;
        let rhs_top: i128 = rhs.position.y as i128;
        let rhs_bottom: i128 = rhs_top + rhs.size.y as i128;
        let collision_x: bool = right >= rhs_left && rhs_right >= left;
        let collision_y: bool = bottom >= rhs_top && rhs_bottom >= top;
        collision_x && collision_y
    }
}

} // verus!
