use breakout::engine::resource_manager::texture::Texture;
use breakout::game::ball_object::BallObject;
use breakout::game::game_object::GameObject;
use breakout::game::Direction;
use breakout::math::{Color, Vec2};

fn ball_at(x: i64, y: i64) -> BallObject {
    BallObject::build(Vec2::new(x, y), 12_500, Vec2::new(150, -450), Texture::new(1))
}

fn box_at(x: i64, y: i64, width: i64, height: i64) -> GameObject {
    GameObject::build(Vec2::new(x, y), Vec2::new(width, height), Texture::new(2), None, None)
}

#[test]
fn ball_is_built_around_its_radius() {
    let ball = ball_at(3, 4);
    assert_eq!(ball.radius(), 12_500);
    assert!(ball.stuck());
    assert_eq!(*ball.game_object().size(), Vec2::new(25_000, 25_000));
    assert_eq!(*ball.game_object().position(), Vec2::new(3, 4));
    assert_eq!(*ball.game_object().velocity(), Vec2::new(150, -450));
    assert_eq!(ball.game_object().color, Color::new(1000, 1000, 1000));

    let other = BallObject::build(Vec2::new(0, 0), 4_000, Vec2::new(0, 0), Texture::new(1));
    assert_eq!(other.radius(), 4_000);
    assert_eq!(*other.game_object().size(), Vec2::new(8_000, 8_000));

    let plain = BallObject::new();
    assert_eq!(plain.radius(), 12_500);
    assert!(plain.stuck());
    assert_eq!(*plain.game_object().size(), Vec2::new(25_000, 25_000));
    assert_eq!(plain.game_object().sprite, None);
}

#[test]
fn concentric_box_collides() {
    let ball = ball_at(0, 0);
    let collision = ball.collides(&box_at(0, 0, 25_000, 25_000));
    assert_eq!(collision, (true, Direction::Up, Vec2::new(0, 0)));
}

#[test]
fn tangent_box_does_not_collide() {
    let ball = ball_at(0, 0);
    // The centre is at (12.5, 12.5); the box begins exactly one radius to its right.
    let collision = ball.collides(&box_at(25_000, 0, 40_000, 25_000));
    assert_eq!(collision, (false, Direction::Up, Vec2::new(0, 0)));
    // The same below, to the left and above.
    assert!(!ball.collides(&box_at(0, 25_000, 25_000, 10_000)).0);
    assert!(!ball.collides(&box_at(-10_000, 0, 10_000, 25_000)).0);
    assert!(!ball.collides(&box_at(0, -10_000, 25_000, 10_000)).0);
}

#[test]
fn overlapping_box_collides_on_the_side_it_lies() {
    let ball = ball_at(0, 0);
    assert_eq!(
        ball.collides(&box_at(24_999, 0, 40_000, 25_000)),
        (true, Direction::Right, Vec2::new(12_499, 0))
    );
    assert_eq!(
        ball.collides(&box_at(-10_000, 0, 10_001, 25_000)),
        (true, Direction::Left, Vec2::new(-12_499, 0))
    );
    assert_eq!(
        ball.collides(&box_at(0, 20_000, 25_000, 10_000)),
        (true, Direction::Up, Vec2::new(0, 7_500))
    );
    assert_eq!(
        ball.collides(&box_at(0, -10_000, 25_000, 15_000)),
        (true, Direction::Down, Vec2::new(0, -7_500))
    );
}

#[test]
fn corner_counts_by_distance_not_by_box() {
    let ball = ball_at(0, 0);
    // Corner at (22.5, 22.5): 10 to the right and 10 below the centre, 14.1 away.
    assert!(!ball.collides(&box_at(22_500, 22_500, 5_000, 5_000)).0);
    // Corner at (20, 20): 7.5 and 7.5 away, 10.6 in all.
    assert_eq!(
        ball.collides(&box_at(20_000, 20_000, 5_000, 5_000)),
        (true, Direction::Up, Vec2::new(7_500, 7_500))
    );
    // Corner at (21.5, 20): 9 and 7.5 away; squares 81 + 56.25 < 156.25.
    assert_eq!(
        ball.collides(&box_at(21_500, 20_000, 5_000, 5_000)),
        (true, Direction::Right, Vec2::new(9_000, 7_500))
    );
}

#[test]
fn ball_without_radius_collides_with_nothing() {
    let ball = BallObject::build(Vec2::new(0, 0), 0, Vec2::new(0, 0), Texture::new(1));
    assert!(!ball.collides(&box_at(0, 0, 10, 10)).0);
}

#[test]
fn collision_at_the_far_ends_of_the_plane() {
    let ball = BallObject::build(
        Vec2::new(i64::MAX, i64::MIN),
        12_500,
        Vec2::new(0, 0),
        Texture::new(1),
    );
    assert!(!ball.collides(&box_at(i64::MIN, i64::MAX, 5, 5)).0);
    assert!(ball.collides(&box_at(i64::MAX, i64::MIN, i64::MAX, i64::MAX)).0);
}

#[test]
fn cardinal_vectors_name_their_direction() {
    let ball = BallObject::new();
    assert_eq!(ball.vector_direction(Vec2::new(0, 1)), Direction::Up);
    assert_eq!(ball.vector_direction(Vec2::new(1, 0)), Direction::Right);
    assert_eq!(ball.vector_direction(Vec2::new(0, -1)), Direction::Down);
    assert_eq!(ball.vector_direction(Vec2::new(-1, 0)), Direction::Left);
    assert_eq!(ball.vector_direction(Vec2::new(0, 9_000)), Direction::Up);
    assert_eq!(ball.vector_direction(Vec2::new(i64::MIN, 0)), Direction::Left);
    assert_eq!(ball.vector_direction(Vec2::new(0, i64::MIN)), Direction::Down);
}

#[test]
fn direction_is_the_same_every_time() {
    let ball = BallObject::new();
    let target = Vec2::new(-37, 12);
    let first = ball.vector_direction(target);
    assert_eq!(first, Direction::Left);
    for _ in 0..10 {
        assert_eq!(ball.vector_direction(target), first);
    }
}

#[test]
fn ties_go_to_the_first_direction() {
    let ball = BallObject::new();
    assert_eq!(ball.vector_direction(Vec2::new(5, 5)), Direction::Up);
    assert_eq!(ball.vector_direction(Vec2::new(-5, 5)), Direction::Up);
    assert_eq!(ball.vector_direction(Vec2::new(5, -5)), Direction::Right);
    assert_eq!(ball.vector_direction(Vec2::new(-5, -5)), Direction::Down);
    assert_eq!(ball.vector_direction(Vec2::new(0, 0)), Direction::Up);
}

#[test]
fn left_wall_turns_the_ball_back() {
    let mut ball = ball_at(1_000, 300_000);
    ball.set_stuck(false);
    ball.mut_game_object().mut_velocity().x = -150;
    ball.update(800, &GameObject::new(), 16);
    assert_eq!(ball.game_object().position().x, 0);
    assert_eq!(ball.game_object().velocity().x, 150);
    assert_eq!(ball.game_object().position().y, 300_000 - 450 * 16);
    assert_eq!(ball.game_object().velocity().y, -450);

    // Reaching the wall exactly counts as well.
    let mut ball = ball_at(2_400, 300_000);
    ball.set_stuck(false);
    ball.mut_game_object().mut_velocity().x = -150;
    ball.update(800, &GameObject::new(), 16);
    assert_eq!(ball.game_object().position().x, 0);
    assert_eq!(ball.game_object().velocity().x, 150);
}

#[test]
fn right_wall_turns_the_ball_back() {
    let mut ball = ball_at(774_000, 300_000);
    ball.set_stuck(false);
    ball.update(800, &GameObject::new(), 16);
    assert_eq!(ball.game_object().position().x, 775_000);
    assert_eq!(ball.game_object().velocity().x, -150);
}

#[test]
fn top_wall_turns_the_ball_back() {
    let mut ball = ball_at(400_000, 100);
    ball.set_stuck(false);
    ball.update(800, &GameObject::new(), 16);
    assert_eq!(*ball.game_object().position(), Vec2::new(402_400, 0));
    assert_eq!(*ball.game_object().velocity(), Vec2::new(150, 450));
}

#[test]
fn free_ball_moves_by_velocity_times_time() {
    let mut ball = ball_at(400_000, 300_000);
    ball.set_stuck(false);
    ball.update(800, &GameObject::new(), 16);
    assert_eq!(*ball.game_object().position(), Vec2::new(402_400, 292_800));
    assert_eq!(*ball.game_object().velocity(), Vec2::new(150, -450));
    ball.update(800, &GameObject::new(), 0);
    assert_eq!(*ball.game_object().position(), Vec2::new(402_400, 292_800));
}

#[test]
fn there_is_no_bottom_wall() {
    let mut ball = ball_at(400_000, 590_000);
    ball.set_stuck(false);
    ball.mut_game_object().mut_velocity().y = 450;
    ball.update(800, &GameObject::new(), 100);
    assert_eq!(ball.game_object().position().y, 635_000);
    assert_eq!(ball.game_object().velocity().y, 450);
}

#[test]
fn stuck_ball_rides_on_the_paddle() {
    let mut ball = ball_at(0, 0);
    let paddle = box_at(350_000, 570_000, 100_000, 20_000);
    ball.update(800, &paddle, 16);
    assert_eq!(*ball.game_object().position(), Vec2::new(387_500, 545_000));
    assert_eq!(*ball.game_object().velocity(), Vec2::new(150, -450));
    assert!(ball.stuck());
}

#[test]
fn reset_puts_the_ball_back() {
    let mut ball = ball_at(0, 0);
    ball.set_stuck(false);
    ball.reset(Vec2::new(5, 6), Vec2::new(7, 8));
    assert!(ball.stuck());
    assert_eq!(*ball.game_object().position(), Vec2::new(5, 6));
    assert_eq!(*ball.game_object().velocity(), Vec2::new(7, 8));
    assert_eq!(ball.radius(), 12_500);
}

#[test]
fn bounce_moves_the_ball_out_and_turns_it() {
    let mut ball = ball_at(100_000, 100_000);
    ball.bounce(Direction::Up, Vec2::new(0, 7_500));
    assert_eq!(*ball.game_object().position(), Vec2::new(100_000, 95_000));
    assert_eq!(*ball.game_object().velocity(), Vec2::new(150, 450));

    let mut ball = ball_at(100_000, 100_000);
    ball.bounce(Direction::Down, Vec2::new(0, -7_500));
    assert_eq!(*ball.game_object().position(), Vec2::new(100_000, 105_000));
    assert_eq!(*ball.game_object().velocity(), Vec2::new(150, 450));

    let mut ball = ball_at(100_000, 100_000);
    ball.bounce(Direction::Left, Vec2::new(-12_000, 3));
    assert_eq!(*ball.game_object().position(), Vec2::new(100_500, 100_000));
    assert_eq!(*ball.game_object().velocity(), Vec2::new(-150, -450));

    let mut ball = ball_at(100_000, 100_000);
    ball.bounce(Direction::Right, Vec2::new(12_000, 3));
    assert_eq!(*ball.game_object().position(), Vec2::new(99_500, 100_000));
    assert_eq!(*ball.game_object().velocity(), Vec2::new(-150, -450));
}

#[test]
fn paddle_sends_a_free_ball_upward() {
    let paddle = box_at(350_000, 570_000, 100_000, 20_000);

    let mut falling = ball_at(387_500, 550_000);
    falling.set_stuck(false);
    falling.mut_game_object().mut_velocity().y = 450;
    falling.catch(&paddle);
    assert_eq!(*falling.game_object().velocity(), Vec2::new(150, -450));
    assert_eq!(*falling.game_object().position(), Vec2::new(387_500, 550_000));

    let mut rising = ball_at(387_500, 550_000);
    rising.set_stuck(false);
    rising.catch(&paddle);
    assert_eq!(*rising.game_object().velocity(), Vec2::new(150, -450));

    let mut stuck = ball_at(387_500, 550_000);
    stuck.mut_game_object().mut_velocity().y = 450;
    stuck.catch(&paddle);
    assert_eq!(stuck.game_object().velocity().y, 450);

    let mut away = ball_at(0, 0);
    away.set_stuck(false);
    away.mut_game_object().mut_velocity().y = 450;
    away.catch(&paddle);
    assert_eq!(away.game_object().velocity().y, 450);
}

#[test]
fn boxes_collide_when_they_touch() {
    let a = box_at(0, 0, 10, 10);
    assert!(a.collides(&box_at(5, 5, 10, 10)));
    assert!(a.collides(&box_at(10, 10, 10, 10)));
    assert!(!a.collides(&box_at(11, 0, 10, 10)));
    assert!(!a.collides(&box_at(0, 11, 10, 10)));
    assert!(a.collides(&box_at(-10, -10, 10, 10)));
    assert!(!box_at(i64::MAX, 0, i64::MAX, 1).collides(&box_at(i64::MIN, 0, 1, 1)));
}

#[test]
fn new_object_is_a_white_pixel_at_rest() {
    let obj = GameObject::new();
    assert_eq!(*obj.position(), Vec2::new(0, 0));
    assert_eq!(*obj.size(), Vec2::new(1_000, 1_000));
    assert_eq!(*obj.velocity(), Vec2::new(0, 0));
    assert_eq!(obj.color, Color::new(1000, 1000, 1000));
    assert_eq!(obj.rotation, 0);
    assert!(!*obj.is_solid());
    assert!(!*obj.destroyed());
    assert_eq!(obj.sprite, None);
}

#[test]
fn built_object_takes_colour_and_velocity_when_given() {
    let obj = GameObject::build(
        Vec2::new(1, 2),
        Vec2::new(3, 4),
        Texture::new(9),
        Some(Color::new(1, 2, 3)),
        Some(Vec2::new(5, 6)),
    );
    assert_eq!(obj.color, Color::new(1, 2, 3));
    assert_eq!(*obj.velocity(), Vec2::new(5, 6));
    assert_eq!(obj.sprite, Some(Texture::new(9)));
    let mut obj = box_at(1, 2, 3, 4);
    assert_eq!(obj.color, Color::new(1000, 1000, 1000));
    assert_eq!(*obj.velocity(), Vec2::new(0, 0));
    obj.set_is_solid(true);
    obj.set_destroyed(true);
    *obj.mut_position() = Vec2::new(7, 8);
    assert!(*obj.is_solid());
    assert!(*obj.destroyed());
    assert_eq!(*obj.position(), Vec2::new(7, 8));
}

#[test]
fn pixels_are_a_thousand_units() {
    assert_eq!(Vec2::from_pixels(100, -20), Vec2::new(100_000, -20_000));
    assert_eq!(breakout::math::to_units(800), 800_000);
    assert_eq!(breakout::math::to_units(u32::MAX), 4_294_967_295_000);
}
