//! The ball: a round game object that sticks to the paddle until launched.

use vstd::prelude::*;
use crate::engine::resource_manager::texture::Texture;
use crate::engine::sprite_renderer::SpriteRenderer;
use crate::game::game_object::GameObject;
use crate::game::Direction;
use crate::math::{to_units, units, Color, Vec2, COORD_LIMIT, SPEED_LIMIT};

verus! {

/// The outcome of testing the ball against a box: whether they collide, on
/// which side of the box, and the vector from the ball's centre to the point
/// of the box nearest to it. Where they do not collide the side is `Up` and
/// the vector is zero.
pub type Collision = (bool, Direction, Vec2);

/// A ball of radius `radius` units, drawn in the square `game_object`. While
/// `stuck` it rides on the paddle and its velocity does not move it.
#[derive(Clone, Copy, Debug, PartialEq, Eq, Structural)]
pub struct BallObject {
    pub game_object: GameObject,
    pub radius: i64,
    pub stuck: bool,
}

/// `v`, moved into `lo ..= hi` by the shortest way.
pub open spec fn clamp(v: int, lo: int, hi: int) -> int {
    if v < lo {
        lo
    } else if v > hi {
        hi
    } else {
        v
    }
}

/// The point of the box `rect` that is nearest to `(x, y)`.
pub open spec fn closest_point(x: int, y: int, rect: &GameObject) -> (int, int) {
    (
        clamp(x, rect.position.x as int, rect.position.x + rect.size.x),
        clamp(y, rect.position.y as int, rect.position.y + rect.size.y),
    )
}

/// The point `(x, y)` lies in the box `rect`, border included.
pub open spec fn in_box(x: int, y: int, rect: &GameObject) -> bool {
    &&& rect.position.x <= x <= rect.position.x + rect.size.x
    &&& rect.position.y <= y <= rect.position.y + rect.size.y
}

/// The square of the distance between two points.
pub open spec fn distance_squared(ax: int, ay: int, bx: int, by: int) -> int {
    (bx - ax) * (bx - ax) + (by - ay) * (by - ay)
}

/// The dot product of `(x, y)` with the unit vector of a compass direction.
/// The compass is that of the plane, not of the screen: `Up` is `(0, 1)`,
/// `Right` is `(1, 0)`, `Down` is `(0, -1)` and `Left` is `(-1, 0)`.
pub open spec fn compass_dot(x: int, y: int, d: Direction) -> int {
    match d {
        Direction::Up => y,
        Direction::Right => x,
        Direction::Down => -y,
        Direction::Left => -x,
    }
}

/// No compass direction has a larger dot product with `(x, y)` than `d` has.
pub open spec fn is_best(x: int, y: int, d: Direction) -> bool {
    &&& compass_dot(x, y, d) >= compass_dot(x, y, Direction::Up)
    &&& compass_dot(x, y, d) >= compass_dot(x, y, Direction::Right)
    &&& compass_dot(x, y, d) >= compass_dot(x, y, Direction::Down)
    &&& compass_dot(x, y, d) >= compass_dot(x, y, Direction::Left)
}

/// The compass direction that `(x, y)` points along most: the first of `Up`,
/// `Right`, `Down`, `Left` whose dot product with it is the largest. The zero
/// vector, which points nowhere, counts as `Up`.
///
/// Dividing the vector by its length first would scale all four products by
/// the same positive factor, so the products of the vector itself decide.
pub open spec fn direction_of(x: int, y: int) -> Direction {
    if is_best(x, y, Direction::Up) {
        Direction::Up
    } else if is_best(x, y, Direction::Right) {
        Direction::Right
    } else if is_best(x, y, Direction::Down) {
        Direction::Down
    } else {
        Direction::Left
    }
}

proof fn lemma_square_order(a: int, b: int)
    by (nonlinear_arith)
    requires
        0 <= a <= b,
    ensures
        a * a <= b * b,
        a < b ==> a * a < b * b,
        (-a) * (-a) == a * a,
{
}

proof fn lemma_square_of_negation(a: int)
    by (nonlinear_arith)
    ensures
        (-a) * (-a) == a * a,
        a * a >= 0,
{
}

/// A component of a vector shorter than `r` is itself smaller than `r`.
proof fn lemma_component_below_radius(dx: int, dy: int, r: int)
    requires
        r > 0,
        dx * dx + dy * dy < r * r,
    ensures
        -r < dx < r,
        -r < dy < r,
{
    lemma_square_of_negation(dx);
    lemma_square_of_negation(dy);
    if dx >= r {
        lemma_square_order(r, dx);
    }
    if -dx >= r {
        lemma_square_order(r, -dx);
    }
    if dy >= r {
        lemma_square_order(r, dy);
    }
    if -dy >= r {
        lemma_square_order(r, -dy);
    }
}

/// The point that `closest_point` picks lies in the box, and no point of the
/// box is nearer to `(x, y)` than it is.
pub proof fn lemma_closest_point_is_nearest(x: int, y: int, rect: &GameObject, px: int, py: int)
    requires
        rect.size.non_negative(),
        in_box(px, py, rect),
    ensures
        in_box(closest_point(x, y, rect).0, closest_point(x, y, rect).1, rect),
        distance_squared(x, y, closest_point(x, y, rect).0, closest_point(x, y, rect).1)
            <= distance_squared(x, y, px, py),
{
    let c = closest_point(x, y, rect);
    lemma_axis_nearest(x, rect.position.x as int, rect.position.x + rect.size.x, px);
    lemma_axis_nearest(y, rect.position.y as int, rect.position.y + rect.size.y, py);
}

/// On one axis: no point of `lo ..= hi` is nearer to `v` than `clamp(v, lo, hi)`.
proof fn lemma_axis_nearest(v: int, lo: int, hi: int, p: int)
    requires
        lo <= p <= hi,
    ensures
        (clamp(v, lo, hi) - v) * (clamp(v, lo, hi) - v) <= (p - v) * (p - v),
{
    let c = clamp(v, lo, hi);
    lemma_square_of_negation(p - v);
    lemma_square_of_negation(c - v);
    if v < lo {
        lemma_square_order(c - v, p - v);
    } else if v > hi {
        lemma_square_order(v - c, v - p);
        assert(-(c - v) == v - c);
        assert(-(p - v) == v - p);
    } else {
        assert(c - v == 0);
    }
}

/// The ball collides with a box exactly when some point of the box is closer
/// to the ball's centre than the radius; a point at exactly the radius is
/// not enough.
pub proof fn lemma_hits_iff_box_in_reach(ball: BallObject, rect: &GameObject)
    requires
        rect.size.non_negative(),
    ensures
        ball.hits(rect) <==> ball.radius > 0 && exists|px: int, py: int|
            in_box(px, py, rect) && #[trigger] distance_squared(
                ball.center().0,
                ball.center().1,
                px,
                py,
            ) < ball.radius * ball.radius,
{
    let c = ball.center();
    let near = closest_point(c.0, c.1, rect);
    lemma_closest_point_is_nearest(c.0, c.1, rect, rect.position.x as int, rect.position.y as int);
    if ball.hits(rect) {
        assert(in_box(near.0, near.1, rect) && distance_squared(c.0, c.1, near.0, near.1)
            < ball.radius * ball.radius);
    }
    if ball.radius > 0 && exists|px: int, py: int|
        in_box(px, py, rect) && #[trigger] distance_squared(c.0, c.1, px, py) < ball.radius
            * ball.radius {
        let (px, py) = choose|px: int, py: int|
            in_box(px, py, rect) && #[trigger] distance_squared(c.0, c.1, px, py) < ball.radius
                * ball.radius;
        lemma_closest_point_is_nearest(c.0, c.1, rect, px, py);
    }
}

/// A ball that collides with a box has its centre within a radius of the
/// box, on both axes.
pub proof fn lemma_box_in_reach(ball: BallObject, rect: &GameObject)
    requires
        rect.size.non_negative(),
        ball.hits(rect),
    ensures
        rect.position.x - ball.radius < ball.center().0 < rect.position.x + rect.size.x
            + ball.radius,
        rect.position.y - ball.radius < ball.center().1 < rect.position.y + rect.size.y
            + ball.radius,
        -ball.radius < ball.difference(rect).0 < ball.radius,
        -ball.radius < ball.difference(rect).1 < ball.radius,
{
    let d = ball.difference(rect);
    lemma_component_below_radius(d.0, d.1, ball.radius as int);
}

/// The side that `direction_of` names is one that the vector points along
/// most, and no side before it in the order `Up`, `Right`, `Down`, `Left` is.
pub proof fn lemma_direction_is_first_best(x: int, y: int)
    ensures
        is_best(x, y, direction_of(x, y)),
        direction_of(x, y) != Direction::Up ==> !is_best(x, y, Direction::Up),
        direction_of(x, y) == Direction::Down || direction_of(x, y) == Direction::Left ==> !is_best(
            x,
            y,
            Direction::Right,
        ),
        direction_of(x, y) == Direction::Left ==> !is_best(x, y, Direction::Down),
        x == 0 && y == 0 ==> direction_of(x, y) == Direction::Up,
{
}

/// A vector along an axis points in that axis's direction, whatever its length.
pub proof fn lemma_cardinal_directions(length: int)
    requires
        length > 0,
    ensures
        direction_of(0, length) == Direction::Up,
        direction_of(length, 0) == Direction::Right,
        direction_of(0, -length) == Direction::Down,
        direction_of(-length, 0) == Direction::Left,
{
}

impl BallObject {
    /// The box is well-formed and is the square around a circle of radius
    /// `radius`.
    pub open spec fn wf(&self) -> bool {
        &&& self.game_object.wf()
        &&& self.radius >= 0
        &&& self.game_object.size.x == 2 * self.radius
        &&& self.game_object.size.y == 2 * self.radius
    }

    /// The centre of the ball.
    pub open spec fn center(&self) -> (int, int) {
        (self.game_object.position.x + self.radius, self.game_object.position.y + self.radius)
    }

    /// The vector from the ball's centre to the point of `rect` nearest to it.
    pub open spec fn difference(&self, rect: &GameObject) -> (int, int) {
        let c = self.center();
        let p = closest_point(c.0, c.1, rect);
        (p.0 - c.0, p.1 - c.1)
    }

    /// The ball and the box collide: the point of the box nearest to the
    /// ball's centre is closer to it than the radius. A ball that only
    /// touches the box does not collide with it.
    pub open spec fn hits(&self, rect: &GameObject) -> bool {
        let d = self.difference(rect);
        self.radius > 0 && d.0 * d.0 + d.1 * d.1 < self.radius * self.radius
    }

    /// What `collides` reports for the ball and `rect`.
    pub open spec fn collision(&self, rect: &GameObject) -> Collision {
        let d = self.difference(rect);
        if self.hits(rect) {
            (true, direction_of(d.0, d.1), Vec2 { x: d.0 as i64, y: d.1 as i64 })
        } else {
            (false, Direction::Up, Vec2 { x: 0, y: 0 })
        }
    }

    /// A stuck ball of radius 12.5 pixels at the origin, at rest, without a sprite.
    pub fn new() -> (ball: BallObject)
        ensures
            ball.radius == 12_500,
            ball.stuck,
            ball.game_object == (GameObject {
                size: Vec2 { x: 25_000, y: 25_000 },
                ..GameObject::new_spec()
            }),
            ball.wf(),
    {
        let mut game_object = GameObject::new();
        game_object.size = Vec2 { x: 25_000, y: 25_000 };
        BallObject { radius: 12_500, stuck: true, game_object }
    }

    /// A stuck ball of the given radius whose box has its top-left corner at
    /// `pos`. `velocity` is what moves it once it is launched.
    pub fn build(pos: Vec2, radius: i64, velocity: Vec2, sprite: Texture) -> (ball: BallObject)
        requires
            0 <= radius,
            2 * radius <= i64::MAX,
        ensures
            ball.radius == radius,
            ball.stuck,
            ball.game_object == (GameObject {
                position: pos,
                size: Vec2 { x: (2 * radius) as i64, y: (2 * radius) as i64 },
                velocity,
                color: Color::white(),
                rotation: 0,
                is_solid: false,
                destroyed: false,
                sprite: Some(sprite),
            }),
            ball.wf() <==> pos.within(COORD_LIMIT as int) && 2 * radius <= COORD_LIMIT
                && velocity.within(SPEED_LIMIT as int),
    {
        BallObject {
            radius,
            stuck: true,
            game_object: GameObject::build(
                pos,
                Vec2 { x: radius * 2, y: radius * 2 },
                sprite,
                None,
                Some(velocity),
            ),
        }
    }

    /// Adds the ball to the frame.
    pub fn draw(&self, sprite_renderer: &mut SpriteRenderer)
        ensures
            final(sprite_renderer).width == old(sprite_renderer).width,
            final(sprite_renderer).height == old(sprite_renderer).height,
            final(sprite_renderer).sprites@ == old(sprite_renderer).sprites@
                + self.game_object.sprites(),
    {
        self.game_object.draw(sprite_renderer)
    }

    /// Puts the ball back on the paddle: at `position`, with `velocity`, stuck.
    pub fn reset(&mut self, position: Vec2, velocity: Vec2)
        ensures
            *final(self) == (BallObject {
                game_object: GameObject { position, velocity, ..old(self).game_object },
                stuck: true,
                ..*old(self)
            }),
    {
        self.game_object.position = position;
        self.game_object.velocity = velocity;
        self.stuck = true;
    }

    pub fn stuck(&self) -> (stuck: bool)
        ensures
            stuck == self.stuck,
    {
        self.stuck
    }

    pub fn set_stuck(&mut self, value: bool)
        ensures
            *final(self) == (BallObject { stuck: value, ..*old(self) }),
    {
        self.stuck = value;
    }

    pub fn radius(&self) -> (radius: i64)
        ensures
            radius == self.radius,
    {
        self.radius
    }

    pub fn game_object(&self) -> (game_object: &GameObject)
        ensures
            *game_object == self.game_object,
    {
        &self.game_object
    }

    pub fn mut_game_object(&mut self) -> (game_object: &mut GameObject)
        ensures
            *game_object == old(self).game_object,
            *final(self) == (BallObject { game_object: *final(game_object), ..*old(self) }),
    {
        &mut self.game_object
    }

    /// Where a stuck ball rides: centred on the top edge of `player`.
    pub open spec fn anchor(&self, player: &GameObject) -> (int, int) {
        (
            player.position.x + player.size.x / 2 - self.game_object.size.x / 2,
            player.position.y - self.game_object.size.y,
        )
    }

    /// The ball after `delta_time` milliseconds in a window `window_width`
    /// pixels wide.
    ///
    /// A stuck ball is put on its anchor and keeps its velocity. A free ball
    /// moves by its velocity times the time. If that takes its left edge to
    /// the left wall or past it, the ball is put against that wall and its
    /// horizontal velocity is reversed; else the same holds of its right edge
    /// and the right wall. Its top edge and the top wall are treated alike.
    /// There is no bottom wall.
    pub open spec fn updated(&self, window_width: u32, player: &GameObject, delta_time: u32) -> (
        int,
        int,
        int,
        int,
    ) {
        let obj = self.game_object;
        if self.stuck {
            (
                self.anchor(player).0,
                self.anchor(player).1,
                obj.velocity.x as int,
                obj.velocity.y as int,
            )
        } else {
            let x = obj.position.x + obj.velocity.x * delta_time;
            let y = obj.position.y + obj.velocity.y * delta_time;
            let (new_x, new_vx) = if x <= 0 {
                (0, -obj.velocity.x)
            } else if x + obj.size.x >= units(window_width) {
                (units(window_width) - obj.size.x, -obj.velocity.x)
            } else {
                (x, obj.velocity.x as int)
            };
            let (new_y, new_vy) = if y <= 0 {
                (0, -obj.velocity.y)
            } else {
                (y, obj.velocity.y as int)
            };
            (new_x, new_y, new_vx, new_vy)
        }
    }

    /// The ball can be updated: the place where the update puts it is within
    /// the limit of coordinates.
    pub open spec fn can_update(&self, window_width: u32, player: &GameObject, delta_time: u32) -> bool {
        let next = self.updated(window_width, player, delta_time);
        &&& self.wf()
        &&& player.wf()
        &&& -COORD_LIMIT <= next.0 <= COORD_LIMIT
        &&& -COORD_LIMIT <= next.1 <= COORD_LIMIT
    }

    /// The ball after the update, where it can be updated: in the place and
    /// with the velocity that `updated` gives, and else as it was.
    pub open spec fn after_update(&self, window_width: u32, player: &GameObject, delta_time: u32) -> BallObject {
        let next = self.updated(window_width, player, delta_time);
        BallObject {
            game_object: GameObject {
                position: Vec2 { x: next.0 as i64, y: next.1 as i64 },
                velocity: Vec2 { x: next.2 as i64, y: next.3 as i64 },
                ..self.game_object
            },
            ..*self
        }
    }

    /// Moves the ball through `delta_time` milliseconds: see `updated`.
    pub fn update(&mut self, window_width: u32, player: &GameObject, delta_time: u32)
        requires
            old(self).can_update(window_width, player, delta_time),
        ensures
            *final(self) == old(self).after_update(window_width, player, delta_time),
            final(self).wf(),
    {
        if !self.stuck {
            let delta: i64 = delta_time as i64;
            let width: i64 = to_units(window_width);
            proof {
                lemma_step_bounded(self.game_object.velocity.x as int, delta as int);
                lemma_step_bounded(self.game_object.velocity.y as int, delta as int);
            }
            let x: i64 = self.game_object.position.x + self.game_object.velocity.x * delta;
            let y: i64 = self.game_object.position.y + self.game_object.velocity.y * delta;
            if x <= 0 {
                self.game_object.velocity.x = -self.game_object.velocity.x;
                self.game_object.position.x = 0;
            } else if x + self.game_object.size.x >= width {
                self.game_object.velocity.x = -self.game_object.velocity.x;
                self.game_object.position.x = width - self.game_object.size.x;
            } else {
                self.game_object.position.x = x;
            }
            if y <= 0 {
                self.game_object.velocity.y = -self.game_object.velocity.y;
                self.game_object.position.y = 0;
            } else {
                self.game_object.position.y = y;
            }
        } else {
            self.game_object.position.x = player.position.x + player.size.x / 2
                - self.game_object.size.x / 2;
            self.game_object.position.y = player.position.y - self.game_object.size.y;
        }
    }

    /// The compass direction that `target` points along most.
    pub fn vector_direction(&self, target: Vec2) -> (direction: Direction)
        ensures
            direction == direction_of(target.x as int, target.y as int),
    {
        let up: i128 = target.y as i128;
        let right: i128 = target.x as i128;
        let down: i128 = -(target.y as i128);
        let left: i128 = -(target.x as i128);
        let mut max: i128 = 0;
        let mut best_match: Direction = Direction::Up;
        if up > max {
            max = up;
            best_match = Direction::Up;
        }
        if right > max {
            max = right;
            best_match = Direction::Right;
        }
        if down > max {
            max = down;
            best_match = Direction::Down;
        }
        if left > max {
            best_match = Direction::Left;
        }
        best_match
    }

    /// Tests the ball against the box `rhs`.
    pub fn collides(&self, rhs: &GameObject) -> (collision: Collision)
        ensures
            collision == self.collision(rhs),
            collision.0 == self.hits(rhs),
            collision.0 ==> -self.radius < collision.2.x < self.radius && -self.radius
                < collision.2.y < self.radius,
    {
        let radius: i128 = self.radius as i128;
        let center_x: i128 = self.game_object.position.x as i128 + radius;
        let center_y: i128 = self.game_object.position.y as i128 + radius;
        let closest_x: i128 = clamp_to(
            center_x,
            rhs.position.x as i128,
            rhs.position.x as i128 + rhs.size.x as i128,
        );
        let closest_y: i128 = clamp_to(
            center_y,
            rhs.position.y as i128,
            rhs.position.y as i128 + rhs.size.y as i128,
        );
        let dx: i128 = closest_x - center_x;
        let dy: i128 = closest_y - center_y;
        if radius <= 0 || dx >= radius || dx <= -radius || dy >= radius || dy <= -radius {
            proof {
                if self.hits(rhs) {
                    lemma_component_below_radius(dx as int, dy as int, radius as int);
                }
            }
            return (false, Direction::Up, Vec2 { x: 0, y: 0 });
        }
        proof {
            lemma_square_bounded(dx as int, radius as int);
            lemma_square_bounded(dy as int, radius as int);
            lemma_square_bounded(radius as int - 1, radius as int);
        }
        if dx * dx + dy * dy < radius * radius {
            let difference = Vec2 { x: dx as i64, y: dy as i64 };
            (true, self.vector_direction(difference), difference)
        } else {
            (false, Direction::Up, Vec2 { x: 0, y: 0 })
        }
    }
}

/// A step of at most `SPEED_LIMIT` units per millisecond over a time that
/// fits 32 bits is at most 2^52 units long.
pub proof fn lemma_step_bounded(speed: int, delta: int)
    by (nonlinear_arith)
    requires
        -SPEED_LIMIT <= speed <= SPEED_LIMIT,
        0 <= delta <= 0xffff_ffff,
    ensures
        -0x10_0000_0000_0000 <= speed * delta <= 0x10_0000_0000_0000,
{
}

/// A free ball whose step takes its left edge to the left wall or past it
/// ends against that wall, at exactly 0, with its horizontal velocity
/// reversed.
pub proof fn lemma_left_wall_reflects(
    ball: BallObject,
    window_width: u32,
    player: &GameObject,
    delta_time: u32,
)
    requires
        !ball.stuck,
        ball.game_object.position.x + ball.game_object.velocity.x * delta_time <= 0,
    ensures
        ball.updated(window_width, player, delta_time).0 == 0,
        ball.updated(window_width, player, delta_time).2 == -ball.game_object.velocity.x,
{
}

/// In a window at least as wide as the ball, an update never leaves a free
/// ball left of the left wall, right of the right wall or above the top wall.
pub proof fn lemma_update_keeps_ball_between_walls(
    ball: BallObject,
    window_width: u32,
    player: &GameObject,
    delta_time: u32,
)
    requires
        !ball.stuck,
        ball.game_object.size.x <= units(window_width),
    ensures
        0 <= ball.updated(window_width, player, delta_time).0,
        ball.updated(window_width, player, delta_time).0 + ball.game_object.size.x <= units(
            window_width,
        ),
        0 <= ball.updated(window_width, player, delta_time).1,
{
}

/// The square of a number below `r` in magnitude is below the square of `r`.
proof fn lemma_square_bounded(d: int, r: int)
    by (nonlinear_arith)
    requires
        -r < d < r,
        r <= 0x8000_0000_0000_0000,
    ensures
        0 <= d * d < r * r,
        r * r <= 0x4000_0000_0000_0000_0000_0000_0000_0000,
{
}

fn clamp_to(v: i128, lo: i128, hi: i128) -> (clamped: i128)
    ensures
        clamped == clamp(v as int, lo as int, hi as int),
{
    if v < lo {
        lo
    } else if v > hi {
        hi
    } else {
        v
    }
}

} // verus!
