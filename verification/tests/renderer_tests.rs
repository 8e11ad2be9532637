use abc_game_engine::camera::Camera;
use abc_game_engine::physics::{collision_response, ColliderProperties, CollisionResponse};
use abc_game_engine::renderer::{
    advance_animation, load_spritesheet, pixel_character, scale_pixel_grid, step_animation_frame,
    update_animation,
    Animation, Color, Image, SceneParams, Texture,
};
use std::time::{Duration, Instant};

fn color(v: u8) -> Color {
    Color { r: v, g: v, b: v, a_bits: 1.0f32.to_bits() }
}

fn numbered_texture(width: usize, height: usize) -> Texture {
    let mut pixels = vec![];
    for y in 0..height {
        let mut row = vec![];
        for x in 0..width {
            row.push(color((y * width + x) as u8));
        }
        pixels.push(row);
    }
    Texture { pixels }
}

fn animation(frames: usize, loop_animation: bool) -> Animation {
    Animation {
        frames: vec![Image { texture: numbered_texture(1, 1) }; frames],
        current_frame: 0,
        frame_time: Duration::from_millis(0),
        current_frame_start_time: Instant::now(),
        loop_animation,
        finished: false,
    }
}

#[test]
fn camera_new_and_default() {
    let camera = Camera::new(30, 40);
    assert_eq!((camera.width(), camera.height(), camera.is_active()), (30, 40, true));
    let mut camera = Camera::default();
    assert_eq!((camera.width(), camera.height()), (160, 160));
    camera.set_size(100, 50);
    camera.set_active(false);
    assert_eq!((camera.width(), camera.height(), camera.is_active()), (100, 50, false));
}

#[test]
fn collider_properties() {
    assert!(ColliderProperties::new(true).is_static());
    assert!(!ColliderProperties::default().is_static());
}

#[test]
fn collision_responses() {
    let fixed = ColliderProperties::new(true);
    let moving = ColliderProperties::new(false);
    assert_eq!(collision_response(&fixed, &fixed), CollisionResponse::Ignore);
    assert_eq!(collision_response(&fixed, &moving), CollisionResponse::MoveSecond);
    assert_eq!(collision_response(&moving, &fixed), CollisionResponse::MoveFirst);
    assert_eq!(collision_response(&moving, &moving), CollisionResponse::MoveBoth);
}

#[test]
fn spritesheet_cells() {
    // 4 wide, 2 high, cut into 2 columns and 2 rows of 2 x 1 cells
    let texture = numbered_texture(4, 2);
    let sheets = load_spritesheet(2, 2, 50, &texture);
    assert_eq!(sheets.len(), 2);
    for sheet in sheets.iter() {
        assert_eq!(sheet.frames.len(), 2);
        assert_eq!(sheet.current_frame, 0);
        assert_eq!(sheet.frame_time, Duration::from_millis(50));
        assert!(sheet.loop_animation);
        assert!(!sheet.finished);
    }
    assert_eq!(sheets[0].frames[0].texture.pixels, vec![vec![color(0), color(1)]]);
    assert_eq!(sheets[0].frames[1].texture.pixels, vec![vec![color(2), color(3)]]);
    assert_eq!(sheets[1].frames[0].texture.pixels, vec![vec![color(4), color(5)]]);
    assert_eq!(sheets[1].frames[1].texture.pixels, vec![vec![color(6), color(7)]]);
}

#[test]
fn spritesheet_drops_remainder() {
    // 5 x 3 cut into 2 x 1 cells of 2 x 3: the last column is not used
    let texture = numbered_texture(5, 3);
    let sheets = load_spritesheet(2, 1, 10, &texture);
    assert_eq!(sheets.len(), 1);
    assert_eq!(
        sheets[0].frames[1].texture.pixels,
        vec![
            vec![color(2), color(3)],
            vec![color(7), color(8)],
            vec![color(12), color(13)]
        ]
    );
}

#[test]
fn scaling_a_pixel_grid() {
    let grid = vec![vec![color(1), color(2)]];
    let scaled = scale_pixel_grid(&grid, 3, 2, 2);
    assert_eq!(scaled.len(), 4);
    let t = Color::default();
    assert_eq!(scaled[0], vec![color(1), color(1), color(2), color(2), t, t]);
    assert_eq!(scaled[1], vec![color(1), color(1), color(2), color(2), t, t]);
    assert_eq!(scaled[2], vec![t; 6]);
    assert_eq!(scaled[3], vec![t; 6]);
}

#[test]
fn default_color_is_transparent_black() {
    assert_eq!(Color::default(), Color { r: 0, g: 0, b: 0, a_bits: 0 });
    assert_eq!(f32::from_bits(Color::default().a_bits), 0.0);
}

#[test]
fn looping_animation_wraps() {
    let mut a = animation(3, true);
    step_animation_frame(&mut a);
    step_animation_frame(&mut a);
    assert_eq!(a.current_frame, 2);
    step_animation_frame(&mut a);
    assert_eq!(a.current_frame, 0);
    assert!(!a.finished);
}

#[test]
fn animation_without_loop_finishes() {
    let mut a = animation(2, false);
    step_animation_frame(&mut a);
    step_animation_frame(&mut a);
    assert_eq!(a.current_frame, 2);
    assert!(a.finished);
    // a finished animation does not move on
    update_animation(&mut a);
    assert_eq!(a.current_frame, 2);
}

#[test]
fn animation_moves_on_after_its_frame_time() {
    let mut a = animation(4, true);
    // the frame time is zero, so it has always passed
    update_animation(&mut a);
    assert_eq!(a.current_frame, 1);
    let mut b = animation(4, true);
    b.frame_time = Duration::from_secs(3600);
    update_animation(&mut b);
    assert_eq!(b.current_frame, 0);
}

#[test]
fn pixel_characters() {
    let mut params = SceneParams {
        background_color: Color::default(),
        is_random_chars: false,
        character: '=',
    };
    assert_eq!(pixel_character(&params), '=');
    params.is_random_chars = true;
    for _ in 0..200 {
        let c = pixel_character(&params) as u32;
        assert!((33..126).contains(&c));
    }
}

#[test]
fn animation_advances_by_the_elapsed_time() {
    let mut a = animation(3, false);
    a.frame_time = Duration::from_millis(100);
    assert!(!advance_animation(&mut a, &Duration::from_millis(99)));
    assert_eq!(a.current_frame, 0);
    assert!(advance_animation(&mut a, &Duration::from_millis(100)));
    assert_eq!(a.current_frame, 1);
    assert!(advance_animation(&mut a, &Duration::from_secs(2)));
    assert!(advance_animation(&mut a, &Duration::from_secs(2)));
    assert_eq!(a.current_frame, 3);
    assert!(a.finished);
    // a finished animation stays where it is
    assert!(!advance_animation(&mut a, &Duration::from_secs(2)));
    assert_eq!(a.current_frame, 3);
}
