use splat::chain::{Chain, ChainState};
use splat::input::{Button, ButtonState, Input, InputEvent, MouseAction, MouseButton};
use splat::physics::{cast_tether, spring_bounce, Tuning};
use splat::player::Player;
use splat::pos::{Pos, ScreenPos};
use splat::ray::Ray;
use splat::render::Camera;
use splat::stage::{Stage, Tile};

fn stage_of(lines: &[&str]) -> Stage {
    Stage::new(lines.iter().map(|l| l.chars().collect()).collect())
}

fn camera() -> Camera {
    Camera { pos: Pos::new(0, 0), frame_pos: ScreenPos::new(0, 0), width: 80, height: 24 }
}

fn click(input: &mut Input, button: MouseButton, column: u16, row: u16) {
    input.handle(
        InputEvent::Mouse { column, row, kind: MouseAction::Down(button) },
        &camera(),
    );
}

#[test]
fn chain_deploys_fully_after_enough_ticks() {
    let mut chain = Chain::new(Ray { start: Pos::new(0, 0), end: Pos::new(10000, 0) });
    assert!(!chain.deployed());
    chain.deploy();
    assert!(chain.deployed());
    assert!(chain.just_deployed());
    chain.update();
    assert!(!chain.just_deployed());
    assert_eq!(chain.links_out(), 2);
    for _ in 0..5 {
        chain.update();
    }
    assert_eq!(chain.state(), ChainState::Deployed);
    assert!(chain.deployed());
    assert!(!chain.just_deployed());
    assert_eq!(chain.links_out(), 11);
}

#[test]
fn chain_retracts_to_nothing() {
    let mut chain = Chain::new(Ray { start: Pos::new(0, 0), end: Pos::new(4000, 0) });
    chain.deploy();
    for _ in 0..4 {
        chain.update();
    }
    assert_eq!(chain.state(), ChainState::Deployed);
    chain.retract();
    assert!(!chain.deployed());
    chain.update();
    assert_eq!(chain.state(), ChainState::Retracting);
    assert_eq!(chain.links_out(), 3);
    chain.update();
    chain.update();
    assert_eq!(chain.state(), ChainState::Retracted);
    assert_eq!(chain.links_out(), 0);
}

#[test]
fn chain_tangent_is_quarter_turn() {
    let chain = Chain::new(Ray { start: Pos::new(0, 0), end: Pos::new(3000, 4000) });
    assert_eq!(chain.direction(), Pos::new(600, 800));
    assert_eq!(chain.tangent(), Pos::new(800, -600));
}

#[test]
fn spring_bounce_speeds_up_and_turns_over() {
    let t = Tuning::standard();
    assert_eq!(spring_bounce(100_000, &t), -120_000);
    assert_eq!(spring_bounce(-100_000, &t), 120_000);
    assert_eq!(spring_bounce(10_000, &t), -50_000);
    assert_eq!(spring_bounce(-10_000, &t), 50_000);
    assert_eq!(spring_bounce(0, &t), -50_000);
    assert_eq!(spring_bounce(1_000_000, &t), -1_000_000);
}

#[test]
fn launch_sets_jump_velocity() {
    let stage = stage_of(&[]);
    let mut player = Player::new(Pos::new(0, 0));
    let mut input = Input::new();
    click(&mut input, MouseButton::Right, 10, 0);
    assert_eq!(input.mouse_pos, Pos::new(10000, 0));
    assert!(player.anchored());
    player.jump(&input);
    assert_eq!(player.vel(), Pos::new(60_000, 0));
    assert!(!player.anchored());

    let mut player = Player::new(Pos::new(0, 0));
    player.update(&input, &stage);
    assert!(!player.anchored());
    // drag takes 60000^2 / 100000 / 100 = 360; gravity adds 100000 / 100 = 1000
    assert_eq!(player.vel(), Pos::new(59_640, 1000));
    assert_eq!(player.pos, Pos::new(596, 10));
}

#[test]
fn tether_anchors_before_solid_tile() {
    let stage = stage_of(&["", "", "", "", "", "     #"]);
    assert_eq!(stage.check_pos(Pos::new(5000, 10000)), Tile::Something);
    let anchor = cast_tether(&stage, Pos::new(0, 10000), Pos::new(20000, 10000));
    assert_eq!(anchor, Some(Pos::new(4000, 10000)));
    assert_eq!(anchor.unwrap().to_cell(), ScreenPos::new(4, 5));
}

#[test]
fn thrown_tether_deploys_chain_at_anchor() {
    let stage = stage_of(&["", "", "", "", "", "     #"]);
    let mut player = Player::new(Pos::new(0, 10000));
    let mut input = Input::new();
    click(&mut input, MouseButton::Left, 20, 5);
    player.update(&input, &stage);
    assert!(!player.anchored());
    assert!(player.chain().deployed());
    assert_eq!(player.chain().ray.end, Pos::new(4000, 10000));
    assert_eq!(player.chain().ray.start, player.pos);
}

#[test]
fn release_retracts_chain() {
    let stage = stage_of(&["", "", "", "", "", "     #"]);
    let mut player = Player::new(Pos::new(0, 10000));
    let mut input = Input::new();
    click(&mut input, MouseButton::Left, 20, 5);
    player.update(&input, &stage);
    input.next_frame();
    input.handle(
        InputEvent::Mouse { column: 20, row: 5, kind: MouseAction::Up(MouseButton::Left) },
        &camera(),
    );
    player.update(&input, &stage);
    assert!(!player.chain().deployed());
}

#[test]
fn free_fall_speeds_up_each_tick() {
    let stage = stage_of(&[]);
    let mut player = Player::new(Pos::new(0, 0));
    let mut input = Input::new();
    click(&mut input, MouseButton::Right, 0, 10);
    player.update(&input, &stage);
    input.next_frame();
    assert!(!player.anchored());
    let mut prev = player.vel().y;
    let mut ticks = 0;
    while prev < 99_000 {
        player.update(&input, &stage);
        let vy = player.vel().y;
        assert!(vy > prev);
        assert_eq!(player.vel().x, 0);
        prev = vy;
        ticks += 1;
        assert!(ticks < 1000);
    }
    for _ in 0..200 {
        player.update(&input, &stage);
    }
    assert!(player.vel().y <= 100_000);
    assert!(player.vel().y >= 99_900);
}

#[test]
fn solid_tile_stops_and_anchors() {
    let stage = stage_of(&["", "", "", "#"]);
    let mut player = Player::new(Pos::new(0, 0));
    let mut input = Input::new();
    click(&mut input, MouseButton::Right, 0, 10);
    player.update(&input, &stage);
    input.next_frame();
    let mut ticks = 0;
    while !player.anchored() {
        player.update(&input, &stage);
        ticks += 1;
        assert!(ticks < 100);
    }
    assert_eq!(player.vel(), Pos::new(0, 0));
    assert!(player.pos.to_cell().y < 3);
    let resting = player.pos;
    player.update(&input, &stage);
    assert_eq!(player.pos, resting);
}

#[test]
fn spring_tile_throws_player_up() {
    let stage = stage_of(&["", "", "~"]);
    let mut player = Player::new(Pos::new(0, 0));
    let mut input = Input::new();
    click(&mut input, MouseButton::Right, 0, 10);
    player.update(&input, &stage);
    input.next_frame();
    let mut ticks = 0;
    while player.vel().y > 0 {
        player.update(&input, &stage);
        ticks += 1;
        assert!(ticks < 100);
    }
    assert!(player.vel().y <= -50_000);
    assert!(!player.anchored());
}

#[test]
fn death_returns_to_checkpoint() {
    let stage = stage_of(&[" !^"]);
    let mut player = Player::new(Pos::new(0, 0));
    let mut input = Input::new();
    click(&mut input, MouseButton::Right, 10, 0);
    let mut ticks = 0;
    while !player.dying() {
        player.update(&input, &stage);
        input.next_frame();
        ticks += 1;
        assert!(ticks < 20);
    }
    assert_eq!(player.checkpoint(), Pos::new(1000, 0));
    let frozen = player.pos;
    player.update(&input, &stage);
    assert_eq!(player.pos, frozen);
    while player.dying() {
        player.update(&input, &stage);
        ticks += 1;
        assert!(ticks < 500);
    }
    assert_eq!(player.pos, Pos::new(1000, 0));
    assert_eq!(player.pos, ScreenPos::new(1, 0).to_world());
    assert_eq!(player.vel(), Pos::new(0, 0));
    assert!(player.anchored());
    assert!(!player.chain().deployed());
}

#[test]
fn stage_tiles_from_characters() {
    assert_eq!(Tile::from(' '), Tile::Nothing);
    assert_eq!(Tile::from('~'), Tile::Spring);
    assert_eq!(Tile::from('^'), Tile::Spike);
    assert_eq!(Tile::from('!'), Tile::Checkpoint);
    assert_eq!(Tile::from('#'), Tile::Something);
}

#[test]
fn stage_outside_map_is_out_of_bounds() {
    let stage = stage_of(&["# ", "#"]);
    assert_eq!(stage.check_pos(Pos::new(0, 0)), Tile::Something);
    assert_eq!(stage.check_pos(Pos::new(1000, 0)), Tile::Nothing);
    assert_eq!(stage.check_pos(Pos::new(1000, 2000)), Tile::OutOfBounds);
    assert_eq!(stage.check_pos(Pos::new(-1000, 0)), Tile::OutOfBounds);
    assert_eq!(stage.check_pos(Pos::new(0, 4000)), Tile::OutOfBounds);
}

#[test]
fn input_states_age_each_frame() {
    let mut input = Input::new();
    assert_eq!(input.button_state(Button::LeftMouse), ButtonState::Released);
    click(&mut input, MouseButton::Left, 3, 4);
    assert!(input.pressed_this_frame(Button::LeftMouse));
    assert!(input.pressed(Button::LeftMouse));
    input.next_frame();
    assert!(!input.pressed_this_frame(Button::LeftMouse));
    assert_eq!(input.button_state(Button::LeftMouse), ButtonState::Pressed);
    input.handle(
        InputEvent::Mouse { column: 3, row: 4, kind: MouseAction::Up(MouseButton::Left) },
        &camera(),
    );
    assert!(input.released_this_frame(Button::LeftMouse));
    input.next_frame();
    assert!(input.released(Button::LeftMouse));
    assert!(!input.released_this_frame(Button::LeftMouse));
}

#[test]
fn swinging_keeps_tether_length() {
    let stage = stage_of(&["     #", "      ", "      ", "      ", "      ", "      "]);
    let mut player = Player::new(Pos::new(0, 10000));
    let anchor = cast_tether(&stage, Pos::new(0, 10000), Pos::new(5000, 0));
    assert_eq!(anchor, Some(Pos::new(4470, 1060)));
    let mut input = Input::new();
    click(&mut input, MouseButton::Left, 5, 0);
    player.update(&input, &stage);
    input.next_frame();
    assert!(player.chain().deployed());
    let length = player.chain().ray.length();
    let mut lowest = player.pos.y;
    for _ in 0..200 {
        player.update(&input, &stage);
        let now = player.chain().ray.length();
        assert!(now * 10 >= length * 9 && now * 10 <= length * 11, "{} vs {}", now, length);
        lowest = lowest.max(player.pos.y);
    }
    assert!(player.chain().deployed());
    assert!(lowest > 10000);
}

#[test]
fn input_update_ages_then_applies_events() {
    let mut input = Input::new();
    click(&mut input, MouseButton::Left, 3, 4);
    let events = vec![
        InputEvent::Mouse { column: 7, row: 2, kind: MouseAction::Down(MouseButton::Right) },
        InputEvent::Mouse { column: 8, row: 1, kind: MouseAction::Other },
    ];
    input.update(&events, &camera());
    assert_eq!(input.button_state(Button::LeftMouse), ButtonState::Pressed);
    assert_eq!(input.button_state(Button::RightMouse), ButtonState::PressedThisFrame);
    assert_eq!(input.mouse_pos, Pos::new(8000, 2000));
    input.update(&Vec::new(), &camera());
    assert_eq!(input.button_state(Button::RightMouse), ButtonState::Pressed);
}

#[test]
fn throw_into_open_space_finds_no_anchor() {
    let empty = stage_of(&[]);
    assert_eq!(cast_tether(&empty, Pos::new(0, 0), Pos::new(10000, 0)), None);
    let open = stage_of(&["     "]);
    assert_eq!(cast_tether(&open, Pos::new(0, 0), Pos::new(10000, 0)), Some(Pos::new(4000, 0)));
}

#[test]
fn throw_blocked_at_first_step_finds_no_anchor() {
    let stage = stage_of(&["", "", "", "", "", "     ##  "]);
    assert_eq!(cast_tether(&stage, Pos::new(4000, 10000), Pos::new(10000, 10000)), None);
    let mut player = Player::new(Pos::new(4000, 10000));
    let mut input = Input::new();
    click(&mut input, MouseButton::Left, 10, 5);
    player.update(&input, &stage);
    assert!(!player.chain().deployed());
    assert!(player.anchored());
}

#[test]
fn throw_at_own_position_finds_no_anchor() {
    let stage = stage_of(&["   "]);
    assert_eq!(cast_tether(&stage, Pos::new(1000, 0), Pos::new(1000, 0)), None);
}

#[test]
fn tether_starts_at_player_after_each_tick() {
    let stage = stage_of(&["     #", "      ", "      ", "      ", "      ", "      "]);
    let mut player = Player::new(Pos::new(0, 10000));
    let mut input = Input::new();
    click(&mut input, MouseButton::Left, 5, 0);
    for _ in 0..50 {
        player.update(&input, &stage);
        input.next_frame();
        assert_eq!(player.chain().ray.start, player.pos);
    }
}
