use splat::animation::Animation;
use splat::input::{Button, Input, InputEvent, Key, KeyAction, MouseAction, MouseButton};
use splat::player::{Player, PLAYER_CHAR};
use splat::ray::Ray;
use splat::stage::Stage;
use splat::ui::{UiButtons, UiState};
use splat::logger::Logger;
use splat::pos::{Pos, ScreenPos};
use splat::render::{Border, Camera, Drawable, Renderer};
use splat::timer::{decimal_digits, Timer};

fn camera() -> Camera {
    Camera { pos: Pos::new(0, 0), frame_pos: ScreenPos::new(1, 1), width: 4, height: 3 }
}

#[test]
fn renderer_paints_inside_only() {
    let mut r = Renderer::new(3, 2);
    assert_eq!(r.width(), 3);
    assert_eq!(r.height(), 2);
    r.paint(1, 1, 'x');
    r.paint(3, 0, 'y');
    assert_eq!(r.frame()[1][1], 'x');
    assert_eq!(r.frame()[0], vec![' ', ' ', ' ']);
    r.clear();
    assert_eq!(r.frame()[1][1], ' ');
}

#[test]
fn renderer_keeps_debug_lines() {
    let mut r = Renderer::new(1, 1);
    r.debug("a".to_string());
    r.debug("b".to_string());
    assert_eq!(r.take_messages(), vec!["a".to_string(), "b".to_string()]);
    assert!(r.take_messages().is_empty());
}

#[test]
fn camera_paints_dot_in_window() {
    let cam = camera();
    let mut r = Renderer::new(8, 8);
    cam.paint_dot('o', Pos::new(2000, 2000), &mut r);
    assert_eq!(r.frame()[2][3], 'o');
    cam.paint_dot('z', Pos::new(4000, 0), &mut r);
    cam.paint_dot('z', Pos::new(-1000, 0), &mut r);
    for row in r.frame() {
        assert!(!row.contains(&'z'));
    }
}

#[test]
fn camera_clips_sprite_to_window() {
    let cam = camera();
    let mut r = Renderer::new(8, 8);
    let sprite = vec![vec!['a', 'b', 'c'], vec!['d', 'e', 'f'], vec!['g']];
    cam.paint_sprite(&sprite, Pos::new(2000, 2000), &mut r);
    assert_eq!(r.frame()[2][3], 'a');
    assert_eq!(r.frame()[2][4], 'b');
    assert_eq!(r.frame()[2][5], ' ');
    assert_eq!(r.frame()[3][3], 'd');
    assert_eq!(r.frame()[3][4], 'e');
    assert_eq!(r.frame()[4][3], ' ');
    let mut r = Renderer::new(8, 8);
    cam.paint_sprite(&sprite, Pos::new(-1000, -2000), &mut r);
    assert_eq!(r.frame()[1][1], 'e');
    assert_eq!(r.frame()[1][2], 'f');
    assert_eq!(r.frame()[2][1], ' ');
}

#[test]
fn border_surrounds_window() {
    let cam = camera();
    let mut r = Renderer::new(8, 8);
    Border.draw(&cam, &mut r);
    assert_eq!(r.frame()[0][0], '\u{250c}');
    assert_eq!(r.frame()[0][5], '\u{2510}');
    assert_eq!(r.frame()[4][5], '\u{2518}');
    assert_eq!(r.frame()[4][0], '\u{2514}');
    assert_eq!(r.frame()[2][0], '\u{2502}');
    assert_eq!(r.frame()[0][2], '\u{2500}');
    assert_eq!(r.frame()[2][2], ' ');
}

#[test]
fn timer_shows_whole_seconds() {
    let mut t = Timer::new();
    assert_eq!(t.text(), vec!['0']);
    t.advance(12_500_000);
    assert_eq!(t.seconds(), 12);
    let mut r = Renderer::new(5, 2);
    t.draw(&camera(), &mut r);
    assert_eq!(r.frame()[1], vec![' ', ' ', ' ', '1', '2']);
    assert_eq!(decimal_digits(9070), vec!['9', '0', '7', '0']);
}

#[test]
fn animation_advances_and_finishes() {
    let mut a = Animation::new(vec![vec![vec!['a']], vec![vec!['b']]], 20_000, true);
    assert_eq!(a.get_frame(), &vec![vec!['a']]);
    a.update();
    a.update();
    assert_eq!(a.get_frame(), &vec![vec!['a']]);
    a.update();
    assert_eq!(a.get_frame(), &vec![vec!['b']]);
    assert!(a.done());
    a.reset();
    assert!(!a.done());
    a.pause();
    for _ in 0..10 {
        a.update();
    }
    assert!(!a.done());
}

#[test]
fn looping_animation_starts_over() {
    let mut a = Animation::new(vec![vec![vec!['a']], vec![vec!['b']]], 0, false);
    a.update();
    assert_eq!(a.get_frame(), &vec![vec!['b']]);
    a.update();
    assert_eq!(a.get_frame(), &vec![vec!['a']]);
    assert!(!a.done());
}

#[test]
fn keys_map_to_buttons() {
    assert_eq!(Button::from_key(Key::Esc, false), Some(Button::Quit));
    assert_eq!(Button::from_key(Key::Char('c'), true), Some(Button::Quit));
    assert_eq!(Button::from_key(Key::Char('c'), false), None);
    assert_eq!(Button::from_key(Key::Char('w'), false), Some(Button::Up));
    assert_eq!(Button::from_key(Key::Char(' '), false), Some(Button::Jump));
    assert_eq!(Button::from_key(Key::Left, false), Some(Button::Left));
    assert_eq!(Button::from_mouse(MouseButton::Middle), None);
    let mut input = Input::new();
    input.handle(
        InputEvent::Key { key: Key::Char('d'), ctrl: false, action: KeyAction::Press },
        &camera(),
    );
    assert!(input.pressed_this_frame(Button::Right));
    input.handle(
        InputEvent::Key { key: Key::Char('d'), ctrl: false, action: KeyAction::Release },
        &camera(),
    );
    assert!(input.released_this_frame(Button::Right));
}

#[test]
fn mouse_position_follows_camera() {
    let mut input = Input::new();
    let cam = Camera { pos: Pos::new(5000, 4000), frame_pos: ScreenPos::new(1, 1), width: 10, height: 10 };
    input.handle(InputEvent::Mouse { column: 3, row: 2, kind: MouseAction::Other }, &cam);
    assert_eq!(input.mouse_screen_pos, ScreenPos::new(2, 1));
    assert_eq!(input.mouse_pos, Pos::new(7000, 6000));
}

#[test]
fn logger_drains_in_order() {
    let mut l = Logger::setup();
    l.log("one".to_string());
    l.log("two".to_string());
    assert_eq!(l.drain(), vec!["one".to_string(), "two".to_string()]);
    assert!(l.drain().is_empty());
}

#[test]
fn camera_follows_player() {
    let player = Player::new(Pos::new(20000, 10000));
    let mut cam = Camera { pos: Pos::new(0, 0), frame_pos: ScreenPos::new(1, 1), width: 10, height: 6 };
    cam.update(&player);
    assert_eq!(cam.pos, Pos::new(15000, 4000));
}

#[test]
fn ui_button_hover_click_and_press() {
    let mut buttons = UiButtons::new();
    let mut cam = Camera { pos: Pos::new(0, 0), frame_pos: ScreenPos::new(0, 0), width: 40, height: 20 };
    let mut input = Input::new();
    input.handle(InputEvent::Mouse { column: 11, row: 6, kind: MouseAction::Other }, &cam);
    assert_eq!(buttons.update(&input, &mut cam), None);
    assert_eq!(buttons.msg_button.state, UiState::Hovered);
    assert_eq!(buttons.left_button.state, UiState::Normal);
    input.handle(
        InputEvent::Mouse { column: 11, row: 6, kind: MouseAction::Down(MouseButton::Left) },
        &cam,
    );
    assert_eq!(buttons.update(&input, &mut cam), Some(0));
    assert_eq!(buttons.msg_button.state, UiState::ClickedThisFrame);
    input.next_frame();
    assert_eq!(buttons.update(&input, &mut cam), None);
    assert_eq!(buttons.msg_button.state, UiState::Pressed);
    assert_eq!(buttons.msg_button_counter, 1);
}

#[test]
fn ui_arrows_pan_camera() {
    let mut buttons = UiButtons::new();
    let mut cam = Camera { pos: Pos::new(0, 0), frame_pos: ScreenPos::new(0, 0), width: 40, height: 20 };
    let mut input = Input::new();
    input.handle(
        InputEvent::Mouse { column: 5, row: 5, kind: MouseAction::Down(MouseButton::Left) },
        &cam,
    );
    buttons.update(&input, &mut cam);
    assert_eq!(cam.pos, Pos::new(10_000, 0));
    let mut input = Input::new();
    input.handle(
        InputEvent::Mouse { column: 10, row: 9, kind: MouseAction::Down(MouseButton::Left) },
        &Camera { pos: Pos::new(0, 0), frame_pos: ScreenPos::new(0, 0), width: 40, height: 20 },
    );
    buttons.update(&input, &mut cam);
    assert_eq!(cam.pos, Pos::new(10_000, -5_000));
}

#[test]
fn ui_button_draws_its_look() {
    let buttons = UiButtons::new();
    let cam = Camera { pos: Pos::new(0, 0), frame_pos: ScreenPos::new(0, 0), width: 40, height: 20 };
    let mut r = Renderer::new(40, 20);
    buttons.draw(&cam, &mut r);
    assert_eq!(r.frame()[5][10], '\u{250c}');
    assert_eq!(r.frame()[6][12], '?');
    assert_eq!(r.frame()[6][6], '\u{25c0}');
}

#[test]
fn player_and_chain_draw() {
    let player = Player::new(Pos::new(3000, 4000));
    let cam = Camera { pos: Pos::new(0, 0), frame_pos: ScreenPos::new(1, 1), width: 10, height: 10 };
    let mut r = Renderer::new(12, 12);
    player.draw(&cam, &mut r);
    assert_eq!(r.frame()[3][4], PLAYER_CHAR);
}

#[test]
fn ray_draws_each_step() {
    let cam = Camera { pos: Pos::new(0, 0), frame_pos: ScreenPos::new(0, 0), width: 10, height: 10 };
    let mut r = Renderer::new(10, 10);
    Ray { start: Pos::new(0, 0), end: Pos::new(3000, 0) }.draw(&cam, &mut r);
    assert_eq!(r.frame()[0][..5], ['*', '*', '*', '*', ' ']);
}

#[test]
fn stage_draws_map_at_origin() {
    let stage = Stage::new(vec!["#  ~".chars().collect(), " ^".chars().collect()]);
    let cam = Camera { pos: Pos::new(1000, 0), frame_pos: ScreenPos::new(0, 0), width: 3, height: 3 };
    let mut r = Renderer::new(4, 4);
    stage.draw(&cam, &mut r);
    assert_eq!(r.frame()[0], vec![' ', ' ', '~', ' ']);
    assert_eq!(r.frame()[1], vec!['^', ' ', ' ', ' ']);
}
