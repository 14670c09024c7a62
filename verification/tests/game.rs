use breakout::engine::resource_manager::texture::Texture;
use breakout::engine::resource_manager::ResourceManager;
use breakout::game::tile_map::LevelError;
use breakout::game::{Game, GameError, GameState, Keys};
use breakout::math::{Color, Vec2};

const NO_KEYS: Keys = Keys { left: false, right: false, launch: false };
const LEFT: Keys = Keys { left: true, right: false, launch: false };
const RIGHT: Keys = Keys { left: false, right: true, launch: false };
const LAUNCH: Keys = Keys { left: false, right: false, launch: true };

fn textures() -> ResourceManager {
    let mut store = ResourceManager::new();
    store.load_texture(Ok(Texture::new(1)), "background").unwrap();
    store.load_texture(Ok(Texture::new(2)), "face").unwrap();
    store.load_texture(Ok(Texture::new(3)), "block").unwrap();
    store.load_texture(Ok(Texture::new(4)), "block_solid").unwrap();
    store.load_texture(Ok(Texture::new(5)), "paddle").unwrap();
    store
}

fn game_with(level: &[u8]) -> Game {
    Game::build(800, 600, textures(), vec![level.to_vec()]).unwrap()
}

fn error_of(built: Result<Game, GameError>) -> GameError {
    match built {
        Ok(_) => panic!("the game was built"),
        Err(error) => error,
    }
}

#[test]
fn game_starts_with_paddle_and_ball_at_home() {
    let game = Game::build(800, 600, textures(), vec![b"1 2\n3 0".to_vec(), b"5".to_vec()]).unwrap();
    assert_eq!(game.state, GameState::Playing);
    assert_eq!((game.width, game.height), (800, 600));
    assert_eq!(game.level, 0);
    assert_eq!(game.levels.len(), 2);
    assert_eq!(game.levels[0].bricks.len(), 3);
    assert_eq!(game.levels[1].bricks.len(), 1);
    // Levels fill the upper half of the window.
    assert_eq!(game.levels[0].bricks[0].size, Vec2::new(400_000, 150_000));
    assert_eq!(game.levels[1].bricks[0].size, Vec2::new(800_000, 300_000));

    assert_eq!(game.player.position, Vec2::new(350_000, 570_000));
    assert_eq!(game.player.size, Vec2::new(100_000, 20_000));
    assert_eq!(game.player.sprite, Some(Texture::new(5)));
    assert_eq!(game.player.velocity, Vec2::new(0, 0));

    assert_eq!(game.ball.game_object.position, Vec2::new(387_500, 545_000));
    assert_eq!(game.ball.game_object.size, Vec2::new(25_000, 25_000));
    assert_eq!(game.ball.game_object.velocity, Vec2::new(150, -450));
    assert_eq!(game.ball.game_object.sprite, Some(Texture::new(2)));
    assert_eq!(game.ball.radius, 12_500);
    assert!(game.ball.stuck);
    assert!(game.sprite_renderer.sprites().is_empty());
}

#[test]
fn game_needs_a_level() {
    assert_eq!(error_of(Game::build(800, 600, textures(), vec![])), GameError::NoLevels);
}

#[test]
fn game_passes_on_what_is_wrong_with_a_level() {
    let levels = vec![b"1 2".to_vec(), b"1 2\n3".to_vec(), b"x".to_vec()];
    assert_eq!(
        error_of(Game::build(800, 600, textures(), levels)),
        GameError::Level(LevelError::RaggedRows)
    );
    assert_eq!(
        error_of(Game::build(800, 600, textures(), vec![b"1 two".to_vec()])),
        GameError::Level(LevelError::MalformedTile)
    );
    assert_eq!(
        error_of(Game::build(800, 600, textures(), vec![b"\n".to_vec()])),
        GameError::Level(LevelError::NoTileData)
    );
    let mut store = ResourceManager::new();
    store.load_texture(Ok(Texture::new(1)), "background").unwrap();
    store.load_texture(Ok(Texture::new(2)), "face").unwrap();
    store.load_texture(Ok(Texture::new(5)), "paddle").unwrap();
    assert_eq!(
        error_of(Game::build(800, 600, store, vec![b"0 2".to_vec()])),
        GameError::Level(LevelError::TextureNotLoaded)
    );
}

#[test]
fn game_needs_its_own_textures() {
    for missing in ["background", "face", "paddle"] {
        let mut store = ResourceManager::new();
        for (id, name) in ["background", "face", "paddle", "block", "block_solid"].iter().enumerate() {
            if *name != missing {
                store.load_texture(Ok(Texture::new(id as u32)), name).unwrap();
            }
        }
        assert_eq!(
            error_of(Game::build(800, 600, store, vec![b"1 2".to_vec()])),
            GameError::TextureNotLoaded
        );
    }
}

#[test]
fn left_key_moves_the_paddle_by_speed_times_time() {
    let mut game = game_with(b"1");
    game.process_input(LEFT, 16);
    assert_eq!(game.player.position, Vec2::new(338_000, 570_000));
    game.process_input(RIGHT, 10);
    assert_eq!(game.player.position, Vec2::new(345_500, 570_000));
    game.process_input(NO_KEYS, 16);
    assert_eq!(game.player.position, Vec2::new(345_500, 570_000));
    game.process_input(Keys { left: true, right: true, launch: false }, 16);
    assert_eq!(game.player.position, Vec2::new(345_500, 570_000));
}

#[test]
fn paddle_never_passes_the_left_padding() {
    let mut game = game_with(b"1");
    for _ in 0..200 {
        game.process_input(LEFT, 16);
        assert!(game.player.position.x >= 10_000);
    }
    assert_eq!(game.player.position.x, 10_000);
    // A step that would overshoot stops at the padding.
    game.player.position.x = 15_000;
    game.process_input(LEFT, 16);
    assert_eq!(game.player.position.x, 10_000);
    game.process_input(LEFT, u32::MAX);
    assert_eq!(game.player.position.x, 10_000);
}

#[test]
fn paddle_never_passes_the_right_margin() {
    let mut game = game_with(b"1");
    for _ in 0..200 {
        game.process_input(RIGHT, 16);
        assert!(game.player.position.x <= 690_000);
    }
    assert_eq!(game.player.position.x, 690_000);
    game.player.position.x = 685_000;
    game.process_input(RIGHT, 16);
    assert_eq!(game.player.position.x, 690_000);
    game.process_input(RIGHT, u32::MAX);
    assert_eq!(game.player.position.x, 690_000);
}

#[test]
fn launch_key_frees_the_ball_only_while_playing() {
    let mut game = game_with(b"1");
    game.state = GameState::Menu;
    game.process_input(Keys { left: true, right: false, launch: true }, 16);
    assert!(game.ball.stuck);
    assert_eq!(game.player.position, Vec2::new(350_000, 570_000));
    game.state = GameState::Playing;
    game.process_input(NO_KEYS, 16);
    assert!(game.ball.stuck);
    game.process_input(LAUNCH, 16);
    assert!(!game.ball.stuck);
    game.process_input(NO_KEYS, 16);
    assert!(!game.ball.stuck);
}

#[test]
fn stuck_ball_follows_the_paddle() {
    let mut game = game_with(b"1");
    game.process_input(LEFT, 100);
    game.update(100);
    assert_eq!(game.player.position, Vec2::new(275_000, 570_000));
    assert_eq!(game.ball.game_object.position, Vec2::new(312_500, 545_000));
    assert!(game.ball.stuck);
}

#[test]
fn ball_destroys_the_brick_it_hits_and_turns_back() {
    // One row of two bricks over the upper half: each 400 by 300 pixels.
    let mut game = game_with(b"2 1");
    game.ball.stuck = false;
    game.ball.game_object.position = Vec2::new(100_000, 295_000);
    game.ball.game_object.velocity = Vec2::new(0, -450);
    game.update(10);
    // The step takes the top edge to y = 290.5 and the centre to y = 303; the
    // brick ends at y = 300. Its nearest point is 3 pixels above the centre,
    // which is a negative y: the side is Down and the overlap 9.5 pixels,
    // so the ball is moved down on screen until it only touches the brick.
    assert!(game.levels[0].bricks[0].destroyed);
    assert!(!game.levels[0].bricks[1].destroyed);
    assert_eq!(game.ball.game_object.velocity, Vec2::new(0, 450));
    assert_eq!(game.ball.game_object.position, Vec2::new(100_000, 300_000));
    // Only the solid brick is left, and it does not count.
    assert!(game.levels[0].is_completed());
}

#[test]
fn solid_brick_turns_the_ball_back_and_stays() {
    let mut game = game_with(b"2 1");
    game.ball.stuck = false;
    game.ball.game_object.position = Vec2::new(500_000, 310_000);
    game.ball.game_object.velocity = Vec2::new(0, -450);
    game.collide();
    // No hit yet: the top edge is at 310, the centre 22.5 below the brick.
    assert_eq!(game.ball.game_object.velocity, Vec2::new(0, -450));
    game.ball.game_object.position = Vec2::new(500_000, 290_000);
    game.collide();
    assert!(!game.levels[0].bricks[1].destroyed);
    assert!(!game.levels[0].bricks[0].destroyed);
    assert_eq!(game.ball.game_object.velocity, Vec2::new(0, 450));
}

#[test]
fn destroyed_brick_lets_the_ball_through() {
    let mut game = game_with(b"2 1");
    game.levels[0].bricks[0].destroyed = true;
    game.ball.stuck = false;
    game.ball.game_object.position = Vec2::new(100_000, 200_000);
    game.ball.game_object.velocity = Vec2::new(0, -450);
    game.collide();
    assert_eq!(game.ball.game_object.velocity, Vec2::new(0, -450));
    assert_eq!(game.ball.game_object.position, Vec2::new(100_000, 200_000));
}

#[test]
fn paddle_sends_the_ball_up_again() {
    let mut game = game_with(b"0 0\n0 1");
    game.process_input(LAUNCH, 16);
    game.ball.game_object.position = Vec2::new(387_500, 540_000);
    game.ball.game_object.velocity = Vec2::new(150, 450);
    game.update(16);
    // The step takes the ball to (389.9, 547.2), 2.2 pixels into the paddle.
    assert_eq!(game.ball.game_object.position, Vec2::new(389_900, 547_200));
    assert_eq!(game.ball.game_object.velocity, Vec2::new(150, -450));
    assert!(!game.ball.stuck);
}

#[test]
fn lost_ball_resets_level_paddle_and_ball() {
    let mut game = game_with(b"2 2\n1 3");
    game.process_input(LEFT, 100);
    game.process_input(LAUNCH, 0);
    game.levels[0].bricks[0].destroyed = true;
    game.levels[0].bricks[3].destroyed = true;
    game.ball.game_object.position = Vec2::new(700_000, 595_000);
    game.ball.game_object.velocity = Vec2::new(150, 450);
    game.update(16);
    // 595 + 7.2 is past the bottom edge at 600.
    assert!(game.ball.stuck);
    assert_eq!(game.ball.game_object.position, Vec2::new(387_500, 545_000));
    assert_eq!(game.ball.game_object.velocity, Vec2::new(150, 450));
    assert_eq!(game.player.position, Vec2::new(350_000, 570_000));
    assert_eq!(game.levels[0].bricks.len(), 4);
    assert!(game.levels[0].bricks.iter().all(|brick| !brick.destroyed));
}

#[test]
fn ball_just_above_the_bottom_edge_is_not_lost() {
    let mut game = game_with(b"1");
    game.process_input(LAUNCH, 0);
    game.ball.game_object.position = Vec2::new(700_000, 599_000);
    game.ball.game_object.velocity = Vec2::new(0, 1);
    game.update(999);
    assert!(!game.ball.stuck);
    assert_eq!(game.ball.game_object.position, Vec2::new(700_000, 599_999));
    game.update(1);
    assert!(game.ball.stuck);
}

#[test]
fn launched_ball_falls_in_the_end_and_comes_back_stuck() {
    let mut game = Game::build(
        800,
        600,
        textures(),
        vec![b"5 5 5 5 5 5\n4 4 4 4 4 4\n0 0 0 0 0 0\n0 1 0 0 1 0".to_vec()],
    )
    .unwrap();
    game.process_input(LAUNCH, 16);
    game.update(16);
    assert!(!game.ball.stuck);
    assert_eq!(game.ball.game_object.position, Vec2::new(389_900, 537_800));
    let mut frames = 0;
    let mut destroyed_some = false;
    while !game.ball.stuck {
        // The paddle is driven away into the left corner.
        game.process_input(LEFT, 16);
        game.update(16);
        destroyed_some = destroyed_some || game.levels[0].bricks.iter().any(|brick| brick.destroyed);
        assert!(game.ball.game_object.position.y < 600_000);
        assert!(game.ball.game_object.position.x >= -37_500);
        assert!(game.ball.game_object.position.x <= 812_500);
        frames += 1;
        assert!(frames < 1_000_000, "the ball never fell");
    }
    assert!(destroyed_some);
    assert_eq!(game.player.position, Vec2::new(350_000, 570_000));
    assert_eq!(game.ball.game_object.position, Vec2::new(387_500, 545_000));
    assert!(game.levels[0].bricks.iter().all(|brick| !brick.destroyed));
    assert_eq!(game.levels[0].bricks.len(), 14);
}

#[test]
fn reset_level_brings_all_bricks_back() {
    let mut game = game_with(b"2 3\n4 5");
    for brick in game.levels[0].bricks.iter_mut() {
        brick.destroyed = true;
    }
    assert!(game.levels[0].is_completed());
    game.reset_level();
    assert_eq!(game.levels[0].bricks.len(), 4);
    assert!(game.levels[0].bricks.iter().all(|brick| !brick.destroyed));
    assert!(!game.levels[0].is_completed());
    assert_eq!(game.levels[0].bricks[3].position, Vec2::new(400_000, 150_000));
}

#[test]
fn reset_player_keeps_the_ball_velocity() {
    let mut game = game_with(b"1");
    game.process_input(Keys { left: false, right: true, launch: true }, 50);
    game.ball.game_object.velocity = Vec2::new(-150, 450);
    game.ball.game_object.position = Vec2::new(1, 2);
    game.reset_player();
    assert!(game.ball.stuck);
    assert_eq!(game.player.position, Vec2::new(350_000, 570_000));
    assert_eq!(game.ball.game_object.position, Vec2::new(387_500, 545_000));
    assert_eq!(game.ball.game_object.velocity, Vec2::new(-150, 450));
}

#[test]
fn frame_is_background_bricks_paddle_ball() {
    let mut game = game_with(b"1 2");
    game.levels[0].bricks[1].destroyed = true;
    game.draw();
    let sprites = game.sprite_renderer.sprites();
    assert_eq!(sprites.len(), 4);
    assert_eq!(sprites[0].texture, Texture::new(1));
    assert_eq!(sprites[0].position, Vec2::new(0, 0));
    assert_eq!(sprites[0].size, Vec2::new(800_000, 600_000));
    assert_eq!(sprites[0].rotate, 0);
    assert_eq!(sprites[0].color, Color::new(1000, 1000, 1000));
    assert_eq!(sprites[1].texture, Texture::new(4));
    assert_eq!(sprites[1].size, Vec2::new(400_000, 300_000));
    assert_eq!(sprites[1].color, Color::new(800, 800, 700));
    assert_eq!(sprites[2].texture, Texture::new(5));
    assert_eq!(sprites[2].position, Vec2::new(350_000, 570_000));
    assert_eq!(sprites[3].texture, Texture::new(2));
    assert_eq!(sprites[3].position, Vec2::new(387_500, 545_000));
    // Drawing again makes the same frame, not a longer one.
    game.draw();
    assert_eq!(game.sprite_renderer.sprites().len(), 4);
    game.state = GameState::Win;
    game.draw();
    assert!(game.sprite_renderer.sprites().is_empty());
}

#[test]
fn tiny_window_still_plays() {
    let mut game = Game::build(0, 0, textures(), vec![b"1 2".to_vec()]).unwrap();
    assert_eq!(game.player.position, Vec2::new(-50_000, -30_000));
    game.process_input(Keys { left: true, right: true, launch: true }, 16);
    assert_eq!(game.player.position.x, -110_000);
    game.update(16);
    game.update(u32::MAX);
    game.draw();
    assert!(game.ball.stuck);
}

#[test]
fn long_frames_do_not_overflow() {
    let mut game = Game::build(u32::MAX, u32::MAX, textures(), vec![b"1 2".to_vec()]).unwrap();
    game.process_input(LAUNCH, u32::MAX);
    game.update(u32::MAX);
    game.process_input(RIGHT, u32::MAX);
    game.update(u32::MAX);
    game.ball.game_object.velocity = Vec2::new(150, 450);
    game.ball.stuck = false;
    let mut frames = 0;
    while !game.ball.stuck {
        game.update(u32::MAX);
        frames += 1;
        assert!(frames <= 3);
    }
    assert_eq!(game.player.position, Vec2::new(2_147_483_597_500, 4_294_967_265_000));
    assert_eq!(game.ball.game_object.position, Vec2::new(2_147_483_635_000, 4_294_967_240_000));
}

#[test]
fn nothing_moves_unless_the_game_is_played() {
    let mut game = game_with(b"2 1");
    game.process_input(LAUNCH, 16);
    game.state = GameState::Menu;
    game.update(16);
    assert_eq!(game.ball.game_object.position, Vec2::new(387_500, 545_000));
    game.state = GameState::Win;
    game.ball.game_object.position = Vec2::new(100_000, 290_000);
    game.update(16);
    assert_eq!(game.ball.game_object.position, Vec2::new(100_000, 290_000));
    assert!(!game.levels[0].bricks[0].destroyed);
    game.state = GameState::Playing;
    game.update(0);
    assert!(game.levels[0].bricks[0].destroyed);
}
