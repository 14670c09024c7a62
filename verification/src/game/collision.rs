//! What a collision does to the ball and to the box it hit.

use vstd::prelude::*;
use crate::game::ball_object::{BallObject, lemma_box_in_reach};
use crate::game::game_level::inside;
use crate::game::game_object::GameObject;
use crate::game::Direction;
use crate::math::{Vec2, COORD_LIMIT};

verus! {

/// Bricks lie within this many units of the origin, on both axes (2^43).
pub const REGION_LIMIT: i64 = 0x800_0000_0000;

/// The radius of a ball that sweeps over bricks is at most this (2^42).
pub const RADIUS_LIMIT: i64 = 0x400_0000_0000;

pub open spec fn magnitude(v: int) -> int {
    if v < 0 {
        -v
    } else {
        v
    }
}

impl BallObject {
    /// The ball after it is thrown back from a box that it hit on side
    /// `direction`, where `difference` is the vector from its centre to the
    /// nearest point of the box.
    ///
    /// A hit on the left or right side reverses the horizontal velocity and
    /// moves the ball out of the box by the depth of the overlap, the radius
    /// less the horizontal part of `difference`: to the right for `Left`, to
    /// the left for `Right`. A hit on `Up` or `Down` does the same
    /// vertically: upward on screen for `Up`, downward for `Down`.
    pub open spec fn bounced(&self, direction: Direction, difference: Vec2) -> BallObject {
        let obj = self.game_object;
        match direction {
            Direction::Left | Direction::Right => {
                let penetration = self.radius - magnitude(difference.x as int);
                let x = if direction == Direction::Left {
                    obj.position.x + penetration
                } else {
                    obj.position.x - penetration
                };
                BallObject {
                    game_object: GameObject {
                        position: Vec2 { x: x as i64, y: obj.position.y },
                        velocity: Vec2 { x: (-obj.velocity.x) as i64, y: obj.velocity.y },
                        ..obj
                    },
                    ..*self
                }
            },
            Direction::Up | Direction::Down => {
                let penetration = self.radius - magnitude(difference.y as int);
                let y = if direction == Direction::Up {
                    obj.position.y - penetration
                } else {
                    obj.position.y + penetration
                };
                BallObject {
                    game_object: GameObject {
                        position: Vec2 { x: obj.position.x, y: y as i64 },
                        velocity: Vec2 { x: obj.velocity.x, y: (-obj.velocity.y) as i64 },
                        ..obj
                    },
                    ..*self
                }
            },
        }
    }

    /// The ball can be thrown back: `difference` is shorter than the radius
    /// on both axes, and the ball stays within the limit of coordinates
    /// wherever the overlap moves it.
    pub open spec fn can_bounce(&self, difference: Vec2) -> bool {
        &&& self.wf()
        &&& -self.radius < difference.x < self.radius
        &&& -self.radius < difference.y < self.radius
        &&& self.game_object.position.within(COORD_LIMIT - self.radius)
    }

    /// Throws the ball back from a box: see `bounced`.
    pub fn bounce(&mut self, direction: Direction, difference: Vec2)
        requires
            old(self).can_bounce(difference),
        ensures
            *final(self) == old(self).bounced(direction, difference),
            final(self).wf(),
    {
        match direction {
            Direction::Left | Direction::Right => {
                self.game_object.velocity.x = -self.game_object.velocity.x;
                let penetration: i64 = self.radius - abs_of(difference.x);
                if direction == Direction::Left {
                    self.game_object.position.x = self.game_object.position.x + penetration;
                } else {
                    self.game_object.position.x = self.game_object.position.x - penetration;
                }
            },
            Direction::Up | Direction::Down => {
                self.game_object.velocity.y = -self.game_object.velocity.y;
                let penetration: i64 = self.radius - abs_of(difference.y);
                if direction == Direction::Up {
                    self.game_object.position.y = self.game_object.position.y - penetration;
                } else {
                    self.game_object.position.y = self.game_object.position.y + penetration;
                }
            },
        }
    }

    /// The ball after it met the paddle. A free ball that collides with the
    /// paddle leaves upward on screen, whichever way it came: its vertical
    /// velocity keeps its size and becomes negative. Nothing else changes.
    pub open spec fn caught(&self, player: &GameObject) -> BallObject {
        if !self.stuck && self.hits(player) {
            BallObject {
                game_object: GameObject {
                    velocity: Vec2 {
                        x: self.game_object.velocity.x,
                        y: (-magnitude(self.game_object.velocity.y as int)) as i64,
                    },
                    ..self.game_object
                },
                ..*self
            }
        } else {
            *self
        }
    }

    /// Lets the ball meet the paddle: see `caught`.
    pub fn catch(&mut self, player: &GameObject)
        requires
            old(self).wf(),
        ensures
            *final(self) == old(self).caught(player),
            final(self).wf(),
    {
        let result = self.collides(player);
        if !self.stuck && result.0 {
            self.game_object.velocity.y = -abs_of(self.game_object.velocity.y);
        }
    }
}

fn abs_of(v: i64) -> (a: i64)
    requires
        v > i64::MIN,
    ensures
        a == magnitude(v as int),
{
    if v < 0 {
        -v
    } else {
        v
    }
}

/// What meeting one brick does to the ball and to the brick. A destroyed
/// brick, and one that the ball does not collide with, changes nothing. Else
/// the ball is thrown back from the side it hit, and the brick is destroyed
/// unless it is solid.
pub open spec fn struck(ball: BallObject, brick: GameObject) -> (BallObject, GameObject) {
    if !brick.destroyed && ball.hits(&brick) {
        let hit = ball.collision(&brick);
        (ball.bounced(hit.1, hit.2), GameObject { destroyed: !brick.is_solid, ..brick })
    } else {
        (ball, brick)
    }
}

/// What meeting a row of bricks, one after the other, does to the ball and
/// to the bricks. Each brick meets the ball as the bricks before it left it.
pub open spec fn swept(ball: BallObject, bricks: Seq<GameObject>) -> (BallObject, Seq<GameObject>)
    decreases bricks.len(),
{
    if bricks.len() == 0 {
        (ball, Seq::empty())
    } else {
        let before = swept(ball, bricks.drop_last());
        let last = struck(before.0, bricks.last());
        (last.0, before.1.push(last.1))
    }
}

/// The ball is fit to sweep over the bricks: it is well-formed and not
/// larger than the limit, and every brick lies within the region limit.
pub open spec fn can_sweep(ball: BallObject, bricks: Seq<GameObject>) -> bool {
    &&& ball.wf()
    &&& ball.radius <= RADIUS_LIMIT
    &&& forall|i: int|
        0 <= i < bricks.len() ==> inside(#[trigger] bricks[i], REGION_LIMIT as int, REGION_LIMIT as int)
}

/// `after` differs from `before` in nothing but the `destroyed` flag.
pub open spec fn same_but_destroyed(after: GameObject, before: GameObject) -> bool {
    after == (GameObject { destroyed: after.destroyed, ..before })
}

/// A coordinate `after` a sweep: either what it was `before`, or within
/// three radii of the region that holds the bricks.
pub open spec fn near_region(after: int, before: int, radius: int) -> bool {
    after == before || -3 * radius <= after <= REGION_LIMIT + radius
}

/// Lets the ball meet each brick in turn: see `swept`.
pub fn sweep(ball: &mut BallObject, bricks: &mut Vec<GameObject>)
    requires
        can_sweep(*old(ball), old(bricks)@),
    ensures
        (*final(ball), final(bricks)@) == swept(*old(ball), old(bricks)@),
        final(ball).wf(),
        final(ball).radius == old(ball).radius,
        final(ball).stuck == old(ball).stuck,
        near_region(
            final(ball).game_object.position.x as int,
            old(ball).game_object.position.x as int,
            old(ball).radius as int,
        ),
        near_region(
            final(ball).game_object.position.y as int,
            old(ball).game_object.position.y as int,
            old(ball).radius as int,
        ),
        final(bricks)@.len() == old(bricks)@.len(),
        forall|i: int|
            0 <= i < final(bricks)@.len() ==> same_but_destroyed(
                #[trigger] final(bricks)@[i],
                old(bricks)@[i],
            ),
{
    let ghost first_ball = *ball;
    let ghost first_bricks = bricks@;
    let mut i: usize = 0;
    assert(first_bricks.take(0) =~= Seq::<GameObject>::empty());
    assert(bricks@.take(0) =~= Seq::<GameObject>::empty());
    while i < bricks.len()
        invariant
            i <= bricks@.len(),
            bricks@.len() == first_bricks.len(),
            can_sweep(first_ball, first_bricks),
            (*ball, bricks@.take(i as int)) == swept(first_ball, first_bricks.take(i as int)),
            forall|k: int| i <= k < bricks@.len() ==> bricks@[k] == first_bricks[k],
            forall|k: int|
                0 <= k < bricks@.len() ==> same_but_destroyed(#[trigger] bricks@[k], first_bricks[k]),
            ball.wf(),
            ball.radius == first_ball.radius,
            ball.stuck == first_ball.stuck,
            near_region(
                ball.game_object.position.x as int,
                first_ball.game_object.position.x as int,
                first_ball.radius as int,
            ),
            near_region(
                ball.game_object.position.y as int,
                first_ball.game_object.position.y as int,
                first_ball.radius as int,
            ),
        decreases bricks@.len() - i,
    {
        let ghost upto = first_bricks.take(i as int + 1);
        assert(upto.drop_last() =~= first_bricks.take(i as int));
        assert(upto.last() == first_bricks[i as int]);
        let ghost done = bricks@.take(i as int);
        let ghost ball_before = *ball;
        let brick: GameObject = bricks[i];
        assert(inside(first_bricks[i as int], REGION_LIMIT as int, REGION_LIMIT as int));
        if !brick.destroyed {
            let collision = ball.collides(&brick);
            if collision.0 {
                if !brick.is_solid {
                    bricks.set(i, GameObject { destroyed: true, ..brick });
                }
                proof {
                    lemma_box_in_reach(*ball, &brick);
                }
                ball.bounce(collision.1, collision.2);
            }
        }
        assert(bricks@[i as int] == struck(ball_before, brick).1);
        assert(bricks@.take(i as int + 1) =~= done.push(bricks@[i as int]));
        i += 1;
    }
    assert(bricks@.take(i as int) =~= bricks@);
    assert(first_bricks.take(i as int) =~= first_bricks);
}

/// A sweep changes no brick but to destroy it, and it leaves a solid brick
/// and a brick that is already destroyed as they are.
pub proof fn lemma_sweep_only_destroys(ball: BallObject, bricks: Seq<GameObject>)
    ensures
        swept(ball, bricks).1.len() == bricks.len(),
        forall|i: int|
            0 <= i < bricks.len() ==> same_but_destroyed(#[trigger] swept(ball, bricks).1[i], bricks[i]),
        forall|i: int|
            0 <= i < bricks.len() && ((#[trigger] bricks[i]).is_solid || bricks[i].destroyed)
                ==> swept(ball, bricks).1[i] == bricks[i],
        forall|i: int|
            0 <= i < bricks.len() && (#[trigger] bricks[i]).destroyed ==> swept(
                ball,
                bricks,
            ).1[i].destroyed,
    decreases bricks.len(),
{
    if bricks.len() > 0 {
        lemma_sweep_only_destroys(ball, bricks.drop_last());
        let before = swept(ball, bricks.drop_last());
        assert forall|i: int| 0 <= i < bricks.len() implies same_but_destroyed(
            #[trigger] swept(ball, bricks).1[i],
            bricks[i],
        ) && (bricks[i].is_solid || bricks[i].destroyed ==> swept(ball, bricks).1[i] == bricks[i])
            && (bricks[i].destroyed ==> swept(ball, bricks).1[i].destroyed) by {
            if i < bricks.len() - 1 {
                assert(bricks.drop_last()[i] == bricks[i]);
                assert(swept(ball, bricks).1[i] == before.1[i]);
            }
        }
    }
}

} // verus!
