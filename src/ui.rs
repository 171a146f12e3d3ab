use vstd::prelude::*;

use crate::input::{Button, ButtonState, Input};
use crate::pos::{clamp_coord, clamp_world, world_of, Pos, ScreenPos};
use crate::render::{rows_of, Camera, Drawable, Renderer, Sprite};

verus! {

/// How a button on the screen looks and reacts.
#[derive(Clone, Copy, Debug, PartialEq, Eq, Structural)]
pub enum UiState {
    Normal,
    Hovered,
    ClickedThisFrame,
    Pressed,
}

/// The state of a button whose area, from `pos`, spans `width` by `height` cells (both
/// ends included), with the mouse at `mouse` and the left button in `left`.
pub open spec fn ui_state(
    pos: ScreenPos,
    width: int,
    height: int,
    mouse: ScreenPos,
    left: ButtonState,
) -> UiState {
    let ox = mouse.x - pos.x;
    let oy = mouse.y - pos.y;
    if 0 <= ox <= width && 0 <= oy <= height {
        if left == ButtonState::PressedThisFrame {
            UiState::ClickedThisFrame
        } else if left == ButtonState::Pressed {
            UiState::Pressed
        } else {
            UiState::Hovered
        }
    } else {
        UiState::Normal
    }
}

/// The state of button `b` after it looks at `input`; a button whose span is empty
/// stays as it is.
pub open spec fn ui_after(b: UiButton, input: Input) -> UiState {
    if b.span().0 == 0 || b.span().1 == 0 {
        b.state
    } else {
        ui_state(b.screen_pos, b.span().0, b.span().1, input.mouse_screen_pos, input.state_of(Button::LeftMouse))
    }
}

/// A clickable button on the screen, with a picture for each look.
pub struct UiButton {
    pub screen_pos: ScreenPos,
    pub sprite: Sprite,
    pub hover_sprite: Sprite,
    pub press_sprite: Sprite,
    pub state: UiState,
}

impl UiButton {
    /// The button lies on the world's cells.
    pub open spec fn wf(&self) -> bool {
        self.screen_pos.wf()
    }

    /// The button's span: as many cells across as its picture has rows, and half as many
    /// down as the first row has characters.
    pub open spec fn span(&self) -> (int, int) {
        let w = self.sprite@.len() as int;
        let h = if w == 0 { 0 } else { self.sprite@[0]@.len() as int / 2 };
        (w, h)
    }

    /// Looks at the mouse: a button whose span is empty stays as it is.
    pub fn update(&mut self, input: &Input)
        requires
            old(self).wf(),
            input.wf(),
        ensures
            final(self).wf(),
            final(self).screen_pos == old(self).screen_pos,
            final(self).sprite == old(self).sprite,
            final(self).hover_sprite == old(self).hover_sprite,
            final(self).press_sprite == old(self).press_sprite,
            final(self).state == ui_after(*old(self), *input),
    {
        if self.sprite.len() == 0 {
            return;
        }
        let width: i64 = if self.sprite.len() > 4_000_000 { 4_000_000 } else { self.sprite.len() as i64 };
        let first = self.sprite[0].len();
        if first / 2 == 0 {
            return;
        }
        let height: i64 = if first / 2 > 4_000_000 { 4_000_000 } else { (first / 2) as i64 };
        let offset = input.mouse_screen_pos.minus(self.screen_pos);
        if 0 <= offset.x && offset.x <= width && 0 <= offset.y && offset.y <= height {
            if input.pressed_this_frame(Button::LeftMouse) {
                self.state = UiState::ClickedThisFrame;
            } else if input.pressed(Button::LeftMouse) {
                self.state = UiState::Pressed;
            } else {
                self.state = UiState::Hovered;
            }
        } else {
            self.state = UiState::Normal;
        }
    }

    /// Whether the button was clicked on this frame.
    pub fn clicked_this_frame(&self) -> (r: bool)
        ensures
            r == (self.state == UiState::ClickedThisFrame),
    {
        match self.state {
            UiState::ClickedThisFrame => true,
            _ => false,
        }
    }

    /// The picture for the button's look.
    pub fn current_sprite(&self) -> (r: &Sprite)
        ensures
            *r == match self.state {
                UiState::Normal => self.sprite,
                UiState::Hovered => self.hover_sprite,
                _ => self.press_sprite,
            },
    {
        match self.state {
            UiState::Normal => &self.sprite,
            UiState::Hovered => &self.hover_sprite,
            UiState::ClickedThisFrame | UiState::Pressed => &self.press_sprite,
        }
    }
}

impl Drawable for UiButton {
    open spec fn drawable(&self) -> bool {
        self.wf()
    }

    /// Paints the picture for the button's look at its place.
    fn draw(&self, camera: &Camera, renderer: &mut Renderer)
        ensures
            final(renderer)@.len() == old(renderer)@.len(),
            forall|fy: int, fx: int|
                0 <= fy < old(renderer)@.len() && 0 <= fx < old(renderer)@[fy].len()
                    ==> #[trigger] final(renderer)@[fy][fx] == match camera.sprite_dot(
                    rows_of(
                        match self.state {
                            UiState::Normal => self.sprite,
                            UiState::Hovered => self.hover_sprite,
                            _ => self.press_sprite,
                        }@,
                    ),
                    world_of(self.screen_pos),
                    fx,
                    fy,
                ) {
                    Some(ch) => ch,
                    None => old(renderer)@[fy][fx],
                },
    {
        camera.paint_sprite(self.current_sprite(), self.screen_pos.to_world(), renderer);
    }
}

/// A box of three rows with `mid` in the middle, drawn with the given border characters:
/// corners (top-left, top-right, bottom-left, bottom-right), then horizontal and vertical.
fn framed(mid: char, corners: [char; 4], horizontal: char, vertical: char) -> (r: Sprite)
    ensures
        r@.len() == 3,
        r@[0]@.len() == 5,
{
    vec![
        vec![corners[0], horizontal, horizontal, horizontal, corners[1]],
        vec![vertical, ' ', mid, ' ', vertical],
        vec![corners[2], horizontal, horizontal, horizontal, corners[3]],
    ]
}

fn button_at(pos: ScreenPos, mid: char) -> (r: UiButton)
    requires
        pos.wf(),
    ensures
        r.wf(),
        r.screen_pos == pos,
        r.state == UiState::Normal,
        r.span() == (3int, 2int),
{
    UiButton {
        screen_pos: pos,
        sprite: framed(mid, ['\u{250c}', '\u{2510}', '\u{2514}', '\u{2518}'], '\u{2500}', '\u{2502}'),
        hover_sprite: framed(mid, ['\u{250f}', '\u{2513}', '\u{2517}', '\u{251b}'], '\u{2501}', '\u{2503}'),
        press_sprite: framed(mid, ['\u{2554}', '\u{2557}', '\u{255a}', '\u{255d}'], '\u{2550}', '\u{2551}'),
        state: UiState::Normal,
    }
}

/// How far one click on an arrow button moves the camera across, in sub-units.
pub const PAN_X: i64 = 10_000;

/// How far one click on an arrow button moves the camera up or down, in sub-units.
pub const PAN_Y: i64 = 5_000;

/// The camera position after panning by `(dx, dy)`, kept in the world.
pub open spec fn panned(p: Pos, dx: int, dy: int) -> Pos {
    Pos { x: clamp_world(p.x + dx) as i64, y: clamp_world(p.y + dy) as i64 }
}

/// Four arrow buttons that pan the camera, around a button that asks for a message.
pub struct UiButtons {
    pub left_button: UiButton,
    pub right_button: UiButton,
    pub up_button: UiButton,
    pub down_button: UiButton,
    pub msg_button: UiButton,
    pub msg_button_counter: usize,
}

impl UiButtons {
    pub open spec fn wf(&self) -> bool {
        &&& self.left_button.wf()
        &&& self.right_button.wf()
        &&& self.up_button.wf()
        &&& self.down_button.wf()
        &&& self.msg_button.wf()
    }

    /// The buttons around cell `(10, 5)`.
    pub fn new() -> (r: UiButtons)
        ensures
            r.wf(),
            r.msg_button_counter == 0,
            r.msg_button.screen_pos == (ScreenPos { x: 10, y: 5 }),
            r.left_button.screen_pos == (ScreenPos { x: 4, y: 5 }),
            r.right_button.screen_pos == (ScreenPos { x: 16, y: 5 }),
            r.up_button.screen_pos == (ScreenPos { x: 10, y: 2 }),
            r.down_button.screen_pos == (ScreenPos { x: 10, y: 8 }),
    {
        let base = ScreenPos::new(10, 5);
        UiButtons {
            left_button: button_at(base.plus(ScreenPos::new(-6, 0)), '\u{25c0}'),
            right_button: button_at(base.plus(ScreenPos::new(6, 0)), '\u{25b6}'),
            up_button: button_at(base.plus(ScreenPos::new(0, -3)), '\u{25b2}'),
            down_button: button_at(base.plus(ScreenPos::new(0, 3)), '\u{25bc}'),
            msg_button: button_at(base, '?'),
            msg_button_counter: 0,
        }
    }

    /// Looks at the mouse with every button, then pans the camera for each arrow clicked.
    /// Returns how many times the message button had been clicked before, if it was
    /// clicked now.
    pub fn update(&mut self, input: &Input, camera: &mut Camera) -> (r: Option<usize>)
        requires
            old(self).wf(),
            input.wf(),
            old(camera).wf(),
        ensures
            final(self).wf(),
            final(camera).wf(),
            final(camera).frame_pos == old(camera).frame_pos,
            final(camera).width == old(camera).width,
            final(camera).height == old(camera).height,
            final(self).left_button.state == ui_after(old(self).left_button, *input),
            final(self).right_button.state == ui_after(old(self).right_button, *input),
            final(self).up_button.state == ui_after(old(self).up_button, *input),
            final(self).down_button.state == ui_after(old(self).down_button, *input),
            final(self).msg_button.state == ui_after(old(self).msg_button, *input),
            ({
                let dx: int = (if final(self).left_button.state == UiState::ClickedThisFrame {
                    PAN_X as int
                } else {
                    0
                }) - (if final(self).right_button.state == UiState::ClickedThisFrame {
                    PAN_X as int
                } else {
                    0
                });
                let dy: int = (if final(self).up_button.state == UiState::ClickedThisFrame {
                    PAN_Y as int
                } else {
                    0
                }) - (if final(self).down_button.state == UiState::ClickedThisFrame {
                    PAN_Y as int
                } else {
                    0
                });
                final(camera).pos == panned(old(camera).pos, dx, dy)
            }),
            final(self).msg_button.state == UiState::ClickedThisFrame && old(self).msg_button_counter
                < usize::MAX ==> r == Some(old(self).msg_button_counter) && final(self).msg_button_counter
                == old(self).msg_button_counter + 1,
            !(final(self).msg_button.state == UiState::ClickedThisFrame && old(self).msg_button_counter
                < usize::MAX) ==> r.is_none() && final(self).msg_button_counter
                == old(self).msg_button_counter,
    {
        self.left_button.update(input);
        self.right_button.update(input);
        self.up_button.update(input);
        self.down_button.update(input);
        self.msg_button.update(input);
        let mut dx: i64 = 0;
        let mut dy: i64 = 0;
        if self.left_button.clicked_this_frame() {
            dx = dx + PAN_X;
        }
        if self.right_button.clicked_this_frame() {
            dx = dx - PAN_X;
        }
        if self.up_button.clicked_this_frame() {
            dy = dy + PAN_Y;
        }
        if self.down_button.clicked_this_frame() {
            dy = dy - PAN_Y;
        }
        camera.pos = Pos::new(clamp_coord(camera.pos.x + dx), clamp_coord(camera.pos.y + dy));
        if self.msg_button.clicked_this_frame() && self.msg_button_counter < usize::MAX {
            let before = self.msg_button_counter;
            self.msg_button_counter = before + 1;
            Some(before)
        } else {
            None
        }
    }
}

impl Drawable for UiButtons {
    open spec fn drawable(&self) -> bool {
        self.wf()
    }

    fn draw(&self, camera: &Camera, renderer: &mut Renderer) {
        self.left_button.draw(camera, renderer);
        self.right_button.draw(camera, renderer);
        self.up_button.draw(camera, renderer);
        self.down_button.draw(camera, renderer);
        self.msg_button.draw(camera, renderer);
    }
}

} // verus!
