//! The game: paddle, ball, bricks, and what one frame does to them.

use vstd::prelude::*;
use crate::engine::resource_manager::texture::Texture;
use crate::engine::resource_manager::ResourceManager;
use crate::engine::sprite_renderer::{Sprite, SpriteRenderer};
use crate::game::ball_object::{lemma_step_bounded, BallObject};
use crate::game::collision::{near_region, same_but_destroyed, sweep, swept};
use crate::game::game_level::{level_bricks, visible_sprites, GameLevel};
use crate::game::game_object::GameObject;
use crate::game::tile_map::LevelError;
use crate::math::{to_units, units, Color, Vec2};

pub mod ball_object;
pub mod collision;
pub mod game_level;
pub mod game_object;
pub mod tile_map;

verus! {

/// The side of a box that a ball has run into.
#[derive(Clone, Copy, Debug, PartialEq, Eq, Structural)]
pub enum Direction {
    Up,
    Right,
    Down,
    Left,
}

/// What the game is doing. Only `Playing` moves and draws anything; the
/// other two are kept for a menu and an end screen that do nothing yet.
#[derive(Clone, Copy, Debug, PartialEq, Eq, Structural)]
pub enum GameState {
    Playing,
    Menu,
    Win,
}

/// The keys that are held down during a frame.
#[derive(Clone, Copy, Debug, PartialEq, Eq, Structural)]
pub struct Keys {
    /// Moves the paddle to the left.
    pub left: bool,
    /// Moves the paddle to the right.
    pub right: bool,
    /// Launches a stuck ball.
    pub launch: bool,
}

/// Why a game cannot start.
#[derive(Clone, Copy, Debug, PartialEq, Eq, Structural)]
pub enum GameError {
    /// There is no level to play.
    NoLevels,
    /// A level is refused, for the reason given.
    Level(LevelError),
    /// The texture of the background, the paddle or the ball is not loaded.
    TextureNotLoaded,
}

/// The extent of the paddle: 100 by 20 pixels.
pub const PLAYER_WIDTH: i64 = 100_000;

pub const PLAYER_HEIGHT: i64 = 20_000;

/// The speed of the paddle: 0.75 pixels per millisecond.
pub const PLAYER_VELOCITY: i64 = 750;

/// The gap that the paddle keeps to the window's left, right and bottom
/// edges: 10 pixels.
pub const PADDING: i64 = 10_000;

/// The velocity of the ball when the game starts: 0.15 pixels per
/// millisecond to the right and 0.45 upward on screen.
pub const INITIAL_BALL_VELOCITY_X: i64 = 150;

pub const INITIAL_BALL_VELOCITY_Y: i64 = -450;

/// The radius of the ball: 12.5 pixels.
pub const BALL_RADIUS: i64 = 12_500;

/// Between frames the ball's coordinates lie within this many units of the
/// origin (2^46).
pub const ARENA_LIMIT: i64 = 0x4000_0000_0000;

/// The paddle's coordinates lie within this many units of the origin (2^45).
pub const PLAYER_LIMIT: i64 = 0x2000_0000_0000;

/// Where the paddle starts: centred, `PADDING` above the bottom edge.
pub open spec fn player_home(width: u32, height: u32) -> Vec2 {
    Vec2 {
        x: (units(width) / 2 - PLAYER_WIDTH / 2) as i64,
        y: (units(height) - PLAYER_HEIGHT - PADDING) as i64,
    }
}

/// Where the ball starts: centred on top of the paddle at its start.
pub open spec fn ball_home(width: u32, height: u32) -> Vec2 {
    Vec2 {
        x: (player_home(width, height).x + PLAYER_WIDTH / 2 - BALL_RADIUS) as i64,
        y: (player_home(width, height).y - 2 * BALL_RADIUS) as i64,
    }
}

/// The least `x` that the left key moves the paddle to.
pub open spec fn left_stop() -> int {
    PADDING as int
}

/// The greatest `x` that the right key moves a paddle of width
/// `player_width` to, in a window `width` pixels wide.
pub open spec fn right_stop(width: u32, player_width: int) -> int {
    units(width) - player_width - PADDING
}

/// The paddle's `x` after a frame of `delta_time` milliseconds during which
/// `keys` were held.
///
/// The left key moves it left by `PLAYER_VELOCITY` times the time, but not
/// past `left_stop`; a paddle already left of the stop is put on it. The
/// right key then does the same to the right with `right_stop`.
pub open spec fn steered(x: int, keys: Keys, delta_time: u32, width: u32, player_width: int) -> int {
    let step = PLAYER_VELOCITY * delta_time;
    let after_left = if !keys.left {
        x
    } else if x - step > left_stop() {
        x - step
    } else {
        left_stop()
    };
    if !keys.right {
        after_left
    } else if after_left + step < right_stop(width, player_width) {
        after_left + step
    } else {
        right_stop(width, player_width)
    }
}

/// `level` is what `text` describes for a window of `width` by `height`
/// pixels, but for the bricks that have been destroyed since, and lies in the
/// upper half of that window.
pub open spec fn fits(
    level: &GameLevel,
    text: Seq<u8>,
    width: u32,
    height: u32,
    textures: Map<Seq<char>, Texture>,
) -> bool {
    let fresh = level_bricks(text, width, (height / 2) as u32, textures);
    &&& fresh is Ok
    &&& level.bricks@.len() == fresh->Ok_0.len()
    &&& forall|k: int|
        0 <= k < level.bricks@.len() ==> same_but_destroyed(
            #[trigger] level.bricks@[k],
            fresh->Ok_0[k],
        )
    &&& level.within(units(width), units((height / 2) as u32))
}

/// The ball has fallen out of a window `height` pixels high: its top edge is
/// at the bottom edge of the window or below it.
pub open spec fn lost(ball: BallObject, height: u32) -> bool {
    ball.game_object.position.y >= units(height)
}

/// The texts of the levels, as plain sequences.
pub open spec fn texts_of(level_data: &Vec<Vec<u8>>) -> Seq<Seq<u8>> {
    Seq::new(level_data@.len(), |i: int| level_data@[i]@)
}

/// What is wrong with the first of the levels that is refused, if any is.
pub open spec fn first_level_error(
    texts: Seq<Seq<u8>>,
    width: u32,
    height: u32,
    textures: Map<Seq<char>, Texture>,
) -> Option<LevelError>
    decreases texts.len(),
{
    if texts.len() == 0 {
        None
    } else {
        match first_level_error(texts.drop_last(), width, height, textures) {
            Some(error) => Some(error),
            None => match level_bricks(texts.last(), width, (height / 2) as u32, textures) {
                Ok(_) => None,
                Err(error) => Some(error),
            },
        }
    }
}

/// Why no game can start from these levels and textures, if none can: there
/// is no level; or a level is refused, each being stretched over the upper
/// half of the window; or one of the textures named `paddle`, `face` and
/// `background` is not loaded. The first of these that holds is the reason.
pub open spec fn start_error(
    width: u32,
    height: u32,
    textures: Map<Seq<char>, Texture>,
    texts: Seq<Seq<u8>>,
) -> Option<GameError> {
    if texts.len() == 0 {
        Some(GameError::NoLevels)
    } else if first_level_error(texts, width, height, textures) is Some {
        Some(GameError::Level(first_level_error(texts, width, height, textures)->0))
    } else if !textures.contains_key("paddle"@) || !textures.contains_key("face"@)
        || !textures.contains_key("background"@) {
        Some(GameError::TextureNotLoaded)
    } else {
        None
    }
}

/// The paddle as a game starts with it.
pub open spec fn first_player(width: u32, height: u32, sprite: Texture) -> GameObject {
    GameObject {
        position: player_home(width, height),
        size: Vec2 { x: PLAYER_WIDTH, y: PLAYER_HEIGHT },
        velocity: Vec2 { x: 0, y: 0 },
        color: Color::white(),
        rotation: 0,
        is_solid: false,
        destroyed: false,
        sprite: Some(sprite),
    }
}

/// The ball as a game starts with it: stuck on the paddle.
pub open spec fn first_ball(width: u32, height: u32, sprite: Texture) -> BallObject {
    BallObject {
        radius: BALL_RADIUS,
        stuck: true,
        game_object: GameObject {
            position: ball_home(width, height),
            size: Vec2 { x: (2 * BALL_RADIUS) as i64, y: (2 * BALL_RADIUS) as i64 },
            velocity: Vec2 { x: INITIAL_BALL_VELOCITY_X, y: INITIAL_BALL_VELOCITY_Y },
            color: Color::white(),
            rotation: 0,
            is_solid: false,
            destroyed: false,
            sprite: Some(sprite),
        },
    }
}

/// The state of a game in a window of `width` by `height` pixels.
pub struct Game {
    pub state: GameState,
    pub width: u32,
    pub height: u32,
    pub resource_manager: ResourceManager,
    pub sprite_renderer: SpriteRenderer,
    /// The text of each level, kept to build the level anew.
    pub level_data: Vec<Vec<u8>>,
    pub levels: Vec<GameLevel>,
    /// The level that is played.
    pub level: usize,
    pub player: GameObject,
    pub ball: BallObject,
}

impl Game {
    /// Level `i` is what its text describes, but for the bricks that have
    /// been destroyed since, and lies in the upper half of the window.
    pub open spec fn level_fits(&self, i: int) -> bool {
        fits(
            &self.levels@[i],
            self.level_data@[i]@,
            self.width,
            self.height,
            self.resource_manager.textures@,
        )
    }

    /// The bricks of level `i` as its text describes them: none destroyed.
    pub open spec fn fresh_bricks(&self, i: int) -> Seq<GameObject> {
        level_bricks(
            self.level_data@[i]@,
            self.width,
            (self.height / 2) as u32,
            self.resource_manager.textures@,
        )->Ok_0
    }

    /// `self` and `other` differ at most in paddle, ball and bricks.
    pub open spec fn same_setting(&self, other: &Game) -> bool {
        &&& self.state == other.state
        &&& self.width == other.width
        &&& self.height == other.height
        &&& self.resource_manager == other.resource_manager
        &&& self.sprite_renderer == other.sprite_renderer
        &&& self.level_data == other.level_data
        &&& self.level == other.level
        &&& self.levels@.len() == other.levels@.len()
        &&& forall|i: int|
            0 <= i < self.levels@.len() && i != self.level ==> #[trigger] self.levels@[i]
                == other.levels@[i]
    }

    /// What holds of a game at all times, also in the middle of a frame.
    pub open spec fn consistent(&self) -> bool {
        &&& self.levels@.len() == self.level_data@.len()
        &&& self.level < self.levels@.len()
        &&& forall|i: int| 0 <= i < self.levels@.len() ==> #[trigger] self.level_fits(i)
        &&& self.resource_manager.textures@.contains_key("background"@)
        &&& self.player.wf()
        &&& self.player.size == (Vec2 { x: PLAYER_WIDTH, y: PLAYER_HEIGHT })
        &&& self.player.position.within(PLAYER_LIMIT as int)
        &&& self.ball.wf()
        &&& self.ball.radius == BALL_RADIUS
    }

    /// What holds of a game between frames: it is consistent, and the ball is
    /// within the arena.
    pub open spec fn wf(&self) -> bool {
        &&& self.consistent()
        &&& self.ball.game_object.position.within(ARENA_LIMIT as int)
    }

    /// Starts a game in a window of `width` by `height` pixels, on the first
    /// of the levels whose texts are given, with the textures that
    /// `resource_manager` holds. See `start_error` for what is refused.
    pub fn build(
        width: u32,
        height: u32,
        resource_manager: ResourceManager,
        level_data: Vec<Vec<u8>>,
    ) -> (built: Result<Game, GameError>)
        ensures
            match built {
                Ok(game) => {
                    &&& start_error(
                        width,
                        height,
                        resource_manager.textures@,
                        texts_of(&level_data),
                    ) is None
                    &&& game.wf()
                    &&& game.state == GameState::Playing
                    &&& game.width == width
                    &&& game.height == height
                    &&& game.resource_manager == resource_manager
                    &&& game.sprite_renderer.width == width
                    &&& game.sprite_renderer.height == height
                    &&& game.sprite_renderer.sprites@ == Seq::<Sprite>::empty()
                    &&& game.level_data == level_data
                    &&& game.level == 0
                    &&& forall|i: int|
                        0 <= i < game.levels@.len() ==> (#[trigger] game.levels@[i]).bricks@
                            == game.fresh_bricks(i)
                    &&& game.player == first_player(
                        width,
                        height,
                        resource_manager.textures@["paddle"@],
                    )
                    &&& game.ball == first_ball(
                        width,
                        height,
                        resource_manager.textures@["face"@],
                    )
                },
                Err(error) => start_error(
                    width,
                    height,
                    resource_manager.textures@,
                    texts_of(&level_data),
                ) == Some(error),
            },
    {
        let ghost texts = texts_of(&level_data);
        let ghost textures = resource_manager.textures@;
        if level_data.len() == 0 {
            return Err(GameError::NoLevels);
        }
        let mut levels: Vec<GameLevel> = Vec::new();
        let mut i: usize = 0;
        assert(texts.take(0) =~= Seq::<Seq<u8>>::empty());
        while i < level_data.len()
            invariant
                i <= level_data@.len(),
                levels@.len() == i,
                texts == texts_of(&level_data),
                textures == resource_manager.textures@,
                first_level_error(texts.take(i as int), width, height, textures) is None,
                forall|k: int|
                    0 <= k < i ==> fits(#[trigger] &levels@[k], texts[k], width, height, textures)
                        && levels@[k].bricks@ == level_bricks(
                        texts[k],
                        width,
                        (height / 2) as u32,
                        textures,
                    )->Ok_0,
            decreases level_data@.len() - i,
        {
            let ghost upto = texts.take(i as int + 1);
            assert(upto.drop_last() =~= texts.take(i as int));
            assert(upto.last() == texts[i as int]);
            match GameLevel::build(
                level_data[i].as_slice(),
                width,
                height / 2,
                &resource_manager,
            ) {
                Ok(level) => {
                    levels.push(level);
                },
                Err(error) => {
                    proof {
                        lemma_first_error_stays(texts, i as int + 1, width, height, textures);
                    }
                    return Err(GameError::Level(error));
                },
            }
            i += 1;
        }
        assert(texts.take(i as int) =~= texts);
        let paddle = resource_manager.get_texture("paddle");
        let face = resource_manager.get_texture("face");
        let background = resource_manager.get_texture("background");
        if paddle.is_none() || face.is_none() || background.is_none() {
            return Err(GameError::TextureNotLoaded);
        }
        let player_pos = Vec2 {
            x: to_units(width) / 2 - PLAYER_WIDTH / 2,
            y: to_units(height) - PLAYER_HEIGHT - PADDING,
        };
        let player = GameObject::build(
            player_pos,
            Vec2 { x: PLAYER_WIDTH, y: PLAYER_HEIGHT },
            paddle.unwrap(),
            None,
            None,
        );
        let ball_pos = Vec2 {
            x: player_pos.x + (PLAYER_WIDTH / 2 - BALL_RADIUS),
            y: player_pos.y - BALL_RADIUS * 2,
        };
        let ball = BallObject::build(
            ball_pos,
            BALL_RADIUS,
            Vec2 { x: INITIAL_BALL_VELOCITY_X, y: INITIAL_BALL_VELOCITY_Y },
            face.unwrap(),
        );
        let game = Game {
            width,
            height,
            resource_manager,
            player,
            ball,
            state: GameState::Playing,
            sprite_renderer: SpriteRenderer::new(width, height),
            level_data,
            levels,
            level: 0,
        };
        proof {
            assert forall|k: int| 0 <= k < game.levels@.len() implies #[trigger] game.level_fits(
                k,
            ) by {
                assert(fits(&game.levels@[k], texts[k], width, height, textures));
            }
        }
        Ok(game)
    }

    /// Applies the keys held during a frame of `delta_time` milliseconds.
    ///
    /// While the game is played, the paddle moves as `steered` says and the
    /// launch key frees a stuck ball. In any other state the keys do nothing.
    pub fn process_input(&mut self, keys: Keys, delta_time: u32)
        requires
            old(self).wf(),
        ensures
            final(self).wf(),
            old(self).state == GameState::Playing ==> *final(self) == (Game {
                player: GameObject {
                    position: Vec2 {
                        x: steered(
                            old(self).player.position.x as int,
                            keys,
                            delta_time,
                            old(self).width,
                            PLAYER_WIDTH as int,
                        ) as i64,
                        y: old(self).player.position.y,
                    },
                    ..old(self).player
                },
                ball: BallObject { stuck: old(self).ball.stuck && !keys.launch, ..old(self).ball },
                ..*old(self)
            }),
            old(self).state != GameState::Playing ==> *final(self) == *old(self),
    {
        if self.state == GameState::Playing {
            let velocity: i64 = PLAYER_VELOCITY * (delta_time as i64);
            if keys.left {
                if self.player.position.x - velocity > PADDING {
                    self.player.position.x = self.player.position.x - velocity;
                } else {
                    self.player.position.x = PADDING;
                }
            }
            if keys.right {
                let stop: i64 = to_units(self.width) - self.player.size.x - PADDING;
                if self.player.position.x + velocity < stop {
                    self.player.position.x = self.player.position.x + velocity;
                } else {
                    self.player.position.x = stop;
                }
            }
            if keys.launch {
                self.ball.stuck = false;
            }
            proof {
                assert forall|i: int| 0 <= i < self.levels@.len() implies #[trigger] self.level_fits(
                    i,
                ) by {
                    assert(old(self).level_fits(i));
                }
            }
        }
    }

    /// Lets the ball meet the bricks of the level that is played, one after
    /// the other, and then the paddle.
    pub fn collide(&mut self)
        requires
            old(self).consistent(),
        ensures
            final(self).consistent(),
            final(self).same_setting(old(self)),
            final(self).player == old(self).player,
            final(self).ball == swept(
                old(self).ball,
                old(self).levels@[old(self).level as int].bricks@,
            ).0.caught(&old(self).player),
            final(self).levels@[old(self).level as int].bricks@ == swept(
                old(self).ball,
                old(self).levels@[old(self).level as int].bricks@,
            ).1,
            near_region(
                final(self).ball.game_object.position.x as int,
                old(self).ball.game_object.position.x as int,
                BALL_RADIUS as int,
            ),
            near_region(
                final(self).ball.game_object.position.y as int,
                old(self).ball.game_object.position.y as int,
                BALL_RADIUS as int,
            ),
    {
        let level: usize = self.level;
        assert(old(self).level_fits(level as int));
        sweep(&mut self.ball, &mut self.levels[level].bricks);
        self.ball.catch(&self.player);
        proof {
            assert forall|i: int| 0 <= i < self.levels@.len() implies #[trigger] self.level_fits(
                i,
            ) by {
                assert(old(self).level_fits(i));
            }
        }
    }

    /// Puts paddle and ball back where they start, the ball stuck to the
    /// paddle. The ball keeps its velocity.
    pub fn reset_player(&mut self)
        requires
            old(self).consistent(),
        ensures
            final(self).wf(),
            final(self).same_setting(old(self)),
            final(self).levels@[old(self).level as int] == old(self).levels@[old(self).level as int],
            final(self).player == (GameObject {
                position: player_home(old(self).width, old(self).height),
                ..old(self).player
            }),
            final(self).ball == (BallObject {
                stuck: true,
                game_object: GameObject {
                    position: ball_home(old(self).width, old(self).height),
                    ..old(self).ball.game_object
                },
                ..old(self).ball
            }),
    {
        let player_pos = Vec2 {
            x: to_units(self.width) / 2 - PLAYER_WIDTH / 2,
            y: to_units(self.height) - PLAYER_HEIGHT - PADDING,
        };
        self.player.position = player_pos;
        let ball_pos = Vec2 {
            x: player_pos.x + (PLAYER_WIDTH / 2 - BALL_RADIUS),
            y: player_pos.y - BALL_RADIUS * 2,
        };
        self.ball.set_stuck(true);
        self.ball.game_object.position = ball_pos;
        proof {
            assert forall|i: int| 0 <= i < self.levels@.len() implies #[trigger] self.level_fits(
                i,
            ) by {
                assert(old(self).level_fits(i));
            }
        }
    }

    /// Builds the level that is played anew from its text: all its bricks
    /// are back.
    pub fn reset_level(&mut self)
        requires
            old(self).consistent(),
        ensures
            final(self).consistent(),
            final(self).same_setting(old(self)),
            final(self).player == old(self).player,
            final(self).ball == old(self).ball,
            final(self).levels@[old(self).level as int].bricks@ == old(self).fresh_bricks(
                old(self).level as int,
            ),
    {
        let level: usize = self.level;
        assert(old(self).level_fits(level as int));
        let rebuilt = GameLevel::build(
            self.level_data[level].as_slice(),
            self.width,
            self.height / 2,
            &self.resource_manager,
        );
        match rebuilt {
            Ok(fresh) => {
                self.levels.set(level, fresh);
            },
            Err(_) => {
                assert(false);
            },
        }
        proof {
            assert forall|i: int| 0 <= i < self.levels@.len() implies #[trigger] self.level_fits(
                i,
            ) by {
                assert(old(self).level_fits(i));
            }
        }
    }

    /// Advances the game by a frame of `delta_time` milliseconds.
    ///
    /// While the game is played, the ball is updated, then meets the bricks
    /// and the paddle. If that leaves it below the window, the ball is lost:
    /// the level that is played is built anew, and paddle and ball go back to
    /// their start. In any other state nothing moves.
    pub fn update(&mut self, delta_time: u32)
        requires
            old(self).wf(),
        ensures
            final(self).wf(),
            final(self).same_setting(old(self)),
            old(self).state != GameState::Playing ==> *final(self) == *old(self),
            old(self).state == GameState::Playing ==> ({
                let moved = old(self).ball.after_update(
                    old(self).width,
                    &old(self).player,
                    delta_time,
                );
                let met = swept(moved, old(self).levels@[old(self).level as int].bricks@);
                let ball = met.0.caught(&old(self).player);
                if lost(ball, old(self).height) {
                    &&& final(self).levels@[old(self).level as int].bricks@ == old(
                        self,
                    ).fresh_bricks(old(self).level as int)
                    &&& final(self).player == (GameObject {
                        position: player_home(old(self).width, old(self).height),
                        ..old(self).player
                    })
                    &&& final(self).ball == (BallObject {
                        stuck: true,
                        game_object: GameObject {
                            position: ball_home(old(self).width, old(self).height),
                            ..ball.game_object
                        },
                        ..ball
                    })
                } else {
                    &&& final(self).levels@[old(self).level as int].bricks@ == met.1
                    &&& final(self).player == old(self).player
                    &&& final(self).ball == ball
                }
            }),
    {
        if self.state != GameState::Playing {
            return ;
        }
        proof {
            lemma_step_bounded(self.ball.game_object.velocity.x as int, delta_time as int);
            lemma_step_bounded(self.ball.game_object.velocity.y as int, delta_time as int);
        }
        self.ball.update(self.width, &self.player, delta_time);
        proof {
            assert forall|i: int| 0 <= i < self.levels@.len() implies #[trigger] self.level_fits(
                i,
            ) by {
                assert(old(self).level_fits(i));
            }
        }
        self.collide();
        if self.ball.game_object.position.y >= to_units(self.height) {
            self.reset_level();
            self.reset_player();
        }
    }

    /// Collects the sprites of a frame, bottom first: the background over the
    /// whole window, the bricks that are left of the level that is played,
    /// the paddle, the ball. In any state but `Playing` the frame is empty.
    pub fn draw(&mut self)
        requires
            old(self).consistent(),
        ensures
            final(self).consistent(),
            *final(self) == (Game { sprite_renderer: final(self).sprite_renderer, ..*old(self) }),
            final(self).sprite_renderer.width == old(self).sprite_renderer.width,
            final(self).sprite_renderer.height == old(self).sprite_renderer.height,
            final(self).sprite_renderer.sprites@ == old(self).frame(),
    {
        self.sprite_renderer.clear();
        if self.state == GameState::Playing {
            let background = match self.resource_manager.get_texture("background") {
                Some(texture) => texture,
                None => {
                    assert(false);
                    return ;
                },
            };
            self.sprite_renderer.draw_sprite(
                background,
                Vec2 { x: 0, y: 0 },
                Vec2 { x: to_units(self.width), y: to_units(self.height) },
                0,
                Color { r: 1000, g: 1000, b: 1000 },
            );
            self.levels[self.level].draw(&mut self.sprite_renderer);
            self.player.draw(&mut self.sprite_renderer);
            self.ball.draw(&mut self.sprite_renderer);
            assert(self.sprite_renderer.sprites@ =~= old(self).frame());
        }
        proof {
            assert forall|i: int| 0 <= i < self.levels@.len() implies #[trigger] self.level_fits(
                i,
            ) by {
                assert(old(self).level_fits(i));
            }
        }
    }

    /// The sprites of a frame of the game as it stands.
    pub open spec fn frame(&self) -> Seq<Sprite> {
        if self.state == GameState::Playing {
            seq![
                Sprite {
                    texture: self.resource_manager.textures@["background"@],
                    position: Vec2 { x: 0, y: 0 },
                    size: Vec2 { x: units(self.width) as i64, y: units(self.height) as i64 },
                    rotate: 0,
                    color: Color::white(),
                },
            ] + visible_sprites(self.levels@[self.level as int].bricks@) + self.player.sprites()
                + self.ball.game_object.sprites()
        } else {
            Seq::empty()
        }
    }
}

/// However long the left key is held, and whatever the window's width, the
/// paddle ends no further left than `left_stop`.
pub proof fn lemma_left_key_stops_at_padding(
    x: int,
    keys: Keys,
    delta_time: u32,
    width: u32,
    player_width: int,
)
    requires
        keys.left,
        !keys.right,
    ensures
        steered(x, keys, delta_time, width, player_width) >= PADDING,
        steered(x, keys, delta_time, width, player_width) <= x || steered(
            x,
            keys,
            delta_time,
            width,
            player_width,
        ) == PADDING,
{
    assert(PLAYER_VELOCITY * delta_time >= 0) by (nonlinear_arith)
        requires
            delta_time >= 0,
    ;
}

/// However long the right key is held, the paddle ends no further right
/// than `right_stop`: its right edge keeps `PADDING` to the window's edge.
pub proof fn lemma_right_key_stops_at_margin(
    x: int,
    keys: Keys,
    delta_time: u32,
    width: u32,
    player_width: int,
)
    requires
        keys.right,
    ensures
        steered(x, keys, delta_time, width, player_width) <= units(width) - player_width - PADDING,
{
}

/// The paddle's `x` after one frame for each entry of `frames`, each as long
/// as the entry says, with the same keys held throughout.
pub open spec fn steered_through(
    x: int,
    keys: Keys,
    frames: Seq<u32>,
    width: u32,
    player_width: int,
) -> int
    decreases frames.len(),
{
    if frames.len() == 0 {
        x
    } else {
        steered(
            steered_through(x, keys, frames.drop_last(), width, player_width),
            keys,
            frames.last(),
            width,
            player_width,
        )
    }
}

/// Holding the left key for any number of frames, one at least, never
/// leaves the paddle left of `left_stop`; holding the right key never leaves
/// it right of `right_stop`.
pub proof fn lemma_paddle_stays_between_stops(
    x: int,
    keys: Keys,
    frames: Seq<u32>,
    width: u32,
    player_width: int,
)
    requires
        frames.len() > 0,
    ensures
        keys.left && !keys.right ==> steered_through(x, keys, frames, width, player_width)
            >= left_stop(),
        keys.right ==> steered_through(x, keys, frames, width, player_width) <= right_stop(
            width,
            player_width,
        ),
{
    let before = steered_through(x, keys, frames.drop_last(), width, player_width);
    if keys.left && !keys.right {
        lemma_left_key_stops_at_padding(before, keys, frames.last(), width, player_width);
    }
    if keys.right {
        lemma_right_key_stops_at_margin(before, keys, frames.last(), width, player_width);
    }
}

/// The first refusal among the first `n` levels is the first among all.
proof fn lemma_first_error_stays(
    texts: Seq<Seq<u8>>,
    n: int,
    width: u32,
    height: u32,
    textures: Map<Seq<char>, Texture>,
)
    requires
        0 <= n <= texts.len(),
        first_level_error(texts.take(n), width, height, textures) is Some,
    ensures
        first_level_error(texts, width, height, textures) == first_level_error(
            texts.take(n),
            width,
            height,
            textures,
        ),
    decreases texts.len(),
{
    if n == texts.len() {
        assert(texts.take(n) =~= texts);
    } else {
        assert(texts.drop_last().take(n) =~= texts.take(n));
        lemma_first_error_stays(texts.drop_last(), n, width, height, textures);
    }
}

} // verus!
