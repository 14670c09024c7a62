use breakout::engine::renderer::{Frame, Renderer, Rgb};
use breakout::engine::resource_manager::shader::Shader;
use breakout::engine::resource_manager::texture::Texture;
use breakout::engine::resource_manager::ResourceManager;
use breakout::engine::sprite_renderer::{Sprite, SpriteRenderer};
use breakout::math::{Color, Vec2};

#[test]
fn empty_store_finds_nothing() {
    let store = ResourceManager::new();
    assert_eq!(store.get_texture("face"), None);
    assert_eq!(store.get_shader("sprite"), None);
}

#[test]
fn loaded_handles_are_found_by_name() {
    let mut store = ResourceManager::new();
    assert_eq!(store.load_texture(Ok(Texture::new(3)), "face"), Ok(Texture::new(3)));
    assert_eq!(store.load_shader(Ok(Shader::new(4)), "sprite"), Ok(Shader::new(4)));
    assert_eq!(store.get_texture("face"), Some(Texture::new(3)));
    assert_eq!(store.get_shader("sprite"), Some(Shader::new(4)));
    assert_eq!(store.get_texture("sprite"), None);
    assert_eq!(store.get_shader("face"), None);
    assert_eq!(store.get_texture("Face"), None);
    assert_eq!(Texture::new(3).id(), 3);
    assert_eq!(Shader::new(4).program_id(), 4);
}

#[test]
fn last_load_under_a_name_wins() {
    let mut store = ResourceManager::new();
    store.load_texture(Ok(Texture::new(1)), "block").unwrap();
    assert_eq!(store.load_texture(Ok(Texture::new(2)), "block"), Ok(Texture::new(2)));
    assert_eq!(store.get_texture("block"), Some(Texture::new(2)));
    store.load_shader(Ok(Shader::new(1)), "sprite").unwrap();
    store.load_shader(Ok(Shader::new(2)), "sprite").unwrap();
    assert_eq!(store.get_shader("sprite"), Some(Shader::new(2)));
}

#[test]
fn failed_load_leaves_the_store_alone() {
    let mut store = ResourceManager::new();
    store.load_texture(Ok(Texture::new(1)), "block").unwrap();
    assert_eq!(
        store.load_texture(Err(String::from("no such file")), "block"),
        Err(String::from("no such file"))
    );
    assert_eq!(store.get_texture("block"), Some(Texture::new(1)));
    assert_eq!(
        store.load_texture(Err(String::from("bad image")), "face"),
        Err(String::from("bad image"))
    );
    assert_eq!(store.get_texture("face"), None);
    assert_eq!(
        store.load_shader(Err(String::from("0:1: syntax error")), "sprite"),
        Err(String::from("0:1: syntax error"))
    );
    assert_eq!(store.get_shader("sprite"), None);
}

#[test]
fn renderer_starts_at_sixty_frames_and_black() {
    let renderer = Renderer::build();
    assert_eq!(renderer.max_fps, 60);
    assert_eq!(renderer.buffer_color, Rgb { r: 0, g: 0, b: 0 });
    assert_eq!(renderer.limit_to_max_fps(), 16_666_666);
}

#[test]
fn frame_budget_is_a_second_over_the_cap() {
    let mut renderer = Renderer::build();
    renderer.set_max_fps(120);
    assert_eq!(renderer.limit_to_max_fps(), 8_333_333);
    renderer.set_max_fps(1);
    assert_eq!(renderer.limit_to_max_fps(), 1_000_000_000);
    renderer.set_max_fps(u32::MAX);
    assert_eq!(renderer.limit_to_max_fps(), 0);
}

#[test]
fn frames_get_the_time_of_the_frame_before() {
    let mut renderer = Renderer::build();
    renderer.set_color(150, 150, 150);
    renderer.set_max_fps(120);
    let grey = Rgb { r: 150, g: 150, b: 150 };
    assert_eq!(
        renderer.next_frame(100, false),
        Frame::Run { clear_color: grey, delta_time: 0, pause_nanos: 8_333_333 }
    );
    assert_eq!(
        renderer.next_frame(116, false),
        Frame::Run { clear_color: grey, delta_time: 100, pause_nanos: 8_333_333 }
    );
    assert_eq!(
        renderer.next_frame(133, false),
        Frame::Run { clear_color: grey, delta_time: 16, pause_nanos: 8_333_333 }
    );
    assert_eq!(
        renderer.next_frame(133, false),
        Frame::Run { clear_color: grey, delta_time: 17, pause_nanos: 8_333_333 }
    );
    assert_eq!(
        renderer.next_frame(150, false),
        Frame::Run { clear_color: grey, delta_time: 0, pause_nanos: 8_333_333 }
    );
}

#[test]
fn close_request_ends_the_loop_and_changes_nothing() {
    let mut renderer = Renderer::build();
    renderer.next_frame(40, false);
    let before = renderer;
    assert_eq!(renderer.next_frame(90, true), Frame::Quit);
    assert_eq!(renderer, before);
}

#[test]
fn clock_wraps_without_a_jump() {
    let mut renderer = Renderer::build();
    renderer.next_frame(u32::MAX - 5, false);
    renderer.next_frame(10, false);
    assert_eq!(renderer.delta_time, 16);
    assert_eq!(renderer.last_frame, 10);
}

#[test]
fn sprites_are_kept_in_drawing_order() {
    let mut frame = SpriteRenderer::new(800, 600);
    assert!(frame.sprites().is_empty());
    frame.draw_sprite(
        Texture::new(1),
        Vec2::new(0, 0),
        Vec2::new(800_000, 600_000),
        0,
        Color::new(1000, 1000, 1000),
    );
    frame.draw_sprite(
        Texture::new(2),
        Vec2::new(5, 6),
        Vec2::new(7, 8),
        90_000,
        Color::new(1, 2, 3),
    );
    assert_eq!(frame.sprites().len(), 2);
    assert_eq!(frame.sprites()[0].texture, Texture::new(1));
    assert_eq!(
        frame.sprites()[1],
        Sprite {
            texture: Texture::new(2),
            position: Vec2::new(5, 6),
            size: Vec2::new(7, 8),
            rotate: 90_000,
            color: Color::new(1, 2, 3),
        }
    );
    frame.clear();
    assert!(frame.sprites().is_empty());
    assert_eq!((frame.width, frame.height), (800, 600));
}
