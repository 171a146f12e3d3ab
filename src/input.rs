use vstd::prelude::*;

use crate::pos::{clamp_coord, clamp_world, Pos, ScreenPos, UNIT};
use crate::render::Camera;

verus! {

/// A control of the game. Only the mouse buttons report releases; keys toggle between
/// pressed this frame and pressed.
#[derive(Clone, Copy, Debug, PartialEq, Eq, Hash, Structural)]
pub enum Button {
    Quit,
    Up,
    Down,
    Left,
    Right,
    Jump,
    LeftMouse,
    RightMouse,
}

/// The number of buttons.
pub const NUM_BUTTONS: usize = 8;

/// The slot of a button in the state table.
pub open spec fn button_index(b: Button) -> int {
    match b {
        Button::Quit => 0,
        Button::Up => 1,
        Button::Down => 2,
        Button::Left => 3,
        Button::Right => 4,
        Button::Jump => 5,
        Button::LeftMouse => 6,
        Button::RightMouse => 7,
    }
}

/// A key of the keyboard, as far as the game tells them apart.
#[derive(Clone, Copy, Debug, PartialEq, Eq)]
pub enum Key {
    Esc,
    Char(char),
    Up,
    Down,
    Left,
    Right,
    Other,
}

/// A button of the mouse.
#[derive(Clone, Copy, Debug, PartialEq, Eq)]
pub enum MouseButton {
    Left,
    Right,
    Middle,
}

/// What happened to a key.
#[derive(Clone, Copy, Debug, PartialEq, Eq)]
pub enum KeyAction {
    Press,
    Release,
    Repeat,
}

/// What happened to the mouse.
#[derive(Clone, Copy, Debug, PartialEq, Eq)]
pub enum MouseAction {
    Down(MouseButton),
    Up(MouseButton),
    Other,
}

/// One event from the terminal.
#[derive(Clone, Copy, Debug, PartialEq, Eq)]
pub enum InputEvent {
    Key { key: Key, ctrl: bool, action: KeyAction },
    Mouse { column: u16, row: u16, kind: MouseAction },
    Other,
}

/// The button that a key stands for: Esc or Ctrl-C quit, `wasd` and the arrows move,
/// space jumps.
pub open spec fn key_button(key: Key, ctrl: bool) -> Option<Button> {
    match key {
        Key::Esc => Some(Button::Quit),
        Key::Char(c) => if c == 'c' {
            if ctrl {
                Some(Button::Quit)
            } else {
                None
            }
        } else if c == 'w' {
            Some(Button::Up)
        } else if c == 'a' {
            Some(Button::Left)
        } else if c == 's' {
            Some(Button::Down)
        } else if c == 'd' {
            Some(Button::Right)
        } else if c == ' ' {
            Some(Button::Jump)
        } else {
            None
        },
        Key::Up => Some(Button::Up),
        Key::Down => Some(Button::Down),
        Key::Left => Some(Button::Left),
        Key::Right => Some(Button::Right),
        Key::Other => None,
    }
}

/// The button that a mouse button stands for.
pub open spec fn mouse_button(b: MouseButton) -> Option<Button> {
    match b {
        MouseButton::Left => Some(Button::LeftMouse),
        MouseButton::Right => Some(Button::RightMouse),
        MouseButton::Middle => None,
    }
}

impl Button {
    pub fn from_key(key: Key, ctrl: bool) -> (r: Option<Button>)
        ensures
            r == key_button(key, ctrl),
    {
        match key {
            Key::Esc => Some(Button::Quit),
            Key::Char(c) => {
                if c == 'c' {
                    if ctrl {
                        Some(Button::Quit)
                    } else {
                        None
                    }
                } else if c == 'w' {
                    Some(Button::Up)
                } else if c == 'a' {
                    Some(Button::Left)
                } else if c == 's' {
                    Some(Button::Down)
                } else if c == 'd' {
                    Some(Button::Right)
                } else if c == ' ' {
                    Some(Button::Jump)
                } else {
                    None
                }
            },
            Key::Up => Some(Button::Up),
            Key::Down => Some(Button::Down),
            Key::Left => Some(Button::Left),
            Key::Right => Some(Button::Right),
            Key::Other => None,
        }
    }

    pub fn from_mouse(button: MouseButton) -> (r: Option<Button>)
        ensures
            r == mouse_button(button),
    {
        match button {
            MouseButton::Left => Some(Button::LeftMouse),
            MouseButton::Right => Some(Button::RightMouse),
            MouseButton::Middle => None,
        }
    }

    fn index(self) -> (r: usize)
        ensures
            r == button_index(self),
            r < NUM_BUTTONS,
    {
        match self {
            Button::Quit => 0,
            Button::Up => 1,
            Button::Down => 2,
            Button::Left => 3,
            Button::Right => 4,
            Button::Jump => 5,
            Button::LeftMouse => 6,
            Button::RightMouse => 7,
        }
    }
}

/// Where a button is in its press / release cycle.
#[derive(Clone, Copy, Debug, PartialEq, Eq, Structural)]
pub enum ButtonState {
    PressedThisFrame,
    Pressed,
    ReleasedThisFrame,
    Released,
}

/// A state one frame later: the marks of this frame wear off.
pub open spec fn aged(s: ButtonState) -> ButtonState {
    match s {
        ButtonState::PressedThisFrame => ButtonState::Pressed,
        ButtonState::ReleasedThisFrame => ButtonState::Released,
        _ => s,
    }
}

/// The world position under the mouse at `(column, row)` of the output grid, moved into
/// the world if it lies outside.
pub open spec fn mouse_world(camera: Camera, column: int, row: int) -> Pos {
    Pos {
        x: clamp_world(camera.pos.x + (column - camera.frame_pos.x) * UNIT) as i64,
        y: clamp_world(camera.pos.y + (row - camera.frame_pos.y) * 2 * UNIT) as i64,
    }
}

/// What an input state holds: where the mouse is and each button's state.
pub struct InputView {
    pub mouse_pos: Pos,
    pub mouse_screen_pos: ScreenPos,
    pub states: Seq<ButtonState>,
}

/// The states after `button` gets `state`, if there is such a button.
pub open spec fn set_button(states: Seq<ButtonState>, button: Option<Button>, state: ButtonState) -> Seq<
    ButtonState,
> {
    match button {
        Some(b) => states.update(button_index(b), state),
        None => states,
    }
}

/// The input state after one terminal event: a key or mouse button changes its button's
/// state, and a mouse event moves the mouse position.
pub open spec fn after_event(v: InputView, event: InputEvent, camera: Camera) -> InputView {
    match event {
        InputEvent::Key { key, ctrl, action } => InputView {
            states: match action {
                KeyAction::Press => set_button(
                    v.states,
                    key_button(key, ctrl),
                    ButtonState::PressedThisFrame,
                ),
                KeyAction::Release => set_button(
                    v.states,
                    key_button(key, ctrl),
                    ButtonState::ReleasedThisFrame,
                ),
                KeyAction::Repeat => v.states,
            },
            ..v
        },
        InputEvent::Mouse { column, row, kind } => InputView {
            mouse_pos: mouse_world(camera, column as int, row as int),
            mouse_screen_pos: ScreenPos {
                x: (column - camera.frame_pos.x) as i64,
                y: (row - camera.frame_pos.y) as i64,
            },
            states: match kind {
                MouseAction::Down(mb) => set_button(
                    v.states,
                    mouse_button(mb),
                    ButtonState::PressedThisFrame,
                ),
                MouseAction::Up(mb) => set_button(
                    v.states,
                    mouse_button(mb),
                    ButtonState::ReleasedThisFrame,
                ),
                MouseAction::Other => v.states,
            },
        },
        InputEvent::Other => v,
    }
}

/// The input state after a frame begins and then `events` come in, in order.
pub open spec fn after_events(v: InputView, events: Seq<InputEvent>, camera: Camera) -> InputView
    decreases events.len(),
{
    if events.len() == 0 {
        v
    } else {
        after_event(after_events(v, events.drop_last(), camera), events.last(), camera)
    }
}

/// The state of each button, by its slot.
pub struct ButtonTable {
    state: Vec<ButtonState>,
}

impl ButtonTable {
    pub closed spec fn states(&self) -> Seq<ButtonState> {
        self.state@
    }
}

/// The state of the controls: each button's state and where the mouse points.
pub struct Input {
    /// The world position under the mouse.
    pub mouse_pos: Pos,
    /// The cell under the mouse, relative to the camera's frame.
    pub mouse_screen_pos: ScreenPos,
    pub buttons: ButtonTable,
}

impl Input {
    /// The state of each button, by its slot.
    pub open spec fn states(&self) -> Seq<ButtonState> {
        self.buttons.states()
    }

    pub open spec fn state_of(&self, b: Button) -> ButtonState {
        self.states()[button_index(b)]
    }

    pub open spec fn wf(&self) -> bool {
        &&& self.states().len() == NUM_BUTTONS
        &&& self.mouse_pos.wf()
        &&& -65536 <= self.mouse_screen_pos.x <= 65536
        &&& -65536 <= self.mouse_screen_pos.y <= 65536
    }

    /// Every button released, the mouse at the origin.
    pub fn new() -> (r: Input)
        ensures
            r.wf(),
            forall|b: Button| #[trigger] r.state_of(b) == ButtonState::Released,
            r.mouse_pos == (Pos { x: 0, y: 0 }),
    {
        let mut state: Vec<ButtonState> = Vec::new();
        let mut i: usize = 0;
        while i < NUM_BUTTONS
            invariant
                0 <= i <= NUM_BUTTONS,
                state@.len() == i,
                forall|j: int| 0 <= j < i ==> #[trigger] state@[j] == ButtonState::Released,
            decreases NUM_BUTTONS - i,
        {
            state.push(ButtonState::Released);
            i = i + 1;
        }
        let buttons = ButtonTable { state };
        assert(buttons.states() == state@);
        Input { mouse_pos: Pos { x: 0, y: 0 }, mouse_screen_pos: ScreenPos { x: 0, y: 0 }, buttons }
    }

    pub fn button_state(&self, button: Button) -> (r: ButtonState)
        requires
            self.wf(),
        ensures
            r == self.state_of(button),
    {
        self.buttons.state[button.index()]
    }

    pub fn pressed(&self, button: Button) -> (r: bool)
        requires
            self.wf(),
        ensures
            r == (self.state_of(button) == ButtonState::PressedThisFrame || self.state_of(button)
                == ButtonState::Pressed),
    {
        match self.button_state(button) {
            ButtonState::PressedThisFrame | ButtonState::Pressed => true,
            _ => false,
        }
    }

    pub fn pressed_this_frame(&self, button: Button) -> (r: bool)
        requires
            self.wf(),
        ensures
            r == (self.state_of(button) == ButtonState::PressedThisFrame),
    {
        match self.button_state(button) {
            ButtonState::PressedThisFrame => true,
            _ => false,
        }
    }

    pub fn released(&self, button: Button) -> (r: bool)
        requires
            self.wf(),
        ensures
            r == (self.state_of(button) == ButtonState::ReleasedThisFrame || self.state_of(button)
                == ButtonState::Released),
    {
        match self.button_state(button) {
            ButtonState::ReleasedThisFrame | ButtonState::Released => true,
            _ => false,
        }
    }

    pub fn released_this_frame(&self, button: Button) -> (r: bool)
        requires
            self.wf(),
        ensures
            r == (self.state_of(button) == ButtonState::ReleasedThisFrame),
    {
        match self.button_state(button) {
            ButtonState::ReleasedThisFrame => true,
            _ => false,
        }
    }

    /// Sets a button's state.
    pub fn set_state(&mut self, button: Button, state: ButtonState)
        requires
            old(self).wf(),
        ensures
            final(self).wf(),
            final(self).mouse_pos == old(self).mouse_pos,
            final(self).mouse_screen_pos == old(self).mouse_screen_pos,
            final(self).states() == old(self).states().update(button_index(button), state),
    {
        let i = button.index();
        self.buttons.state.set(i, state);
    }

    /// Starts a new frame: presses and releases of the last frame become plain states.
    pub fn next_frame(&mut self)
        requires
            old(self).wf(),
        ensures
            final(self).wf(),
            final(self).mouse_pos == old(self).mouse_pos,
            final(self).mouse_screen_pos == old(self).mouse_screen_pos,
            final(self).states() == old(self).states().map_values(|s: ButtonState| aged(s)),
    {
        let mut i: usize = 0;
        while i < NUM_BUTTONS
            invariant
                self.wf(),
                0 <= i <= NUM_BUTTONS,
                self.mouse_pos == old(self).mouse_pos,
                self.mouse_screen_pos == old(self).mouse_screen_pos,
                forall|j: int| 0 <= j < i ==> #[trigger] self.states()[j] == aged(old(self).states()[j]),
                forall|j: int| i <= j < NUM_BUTTONS ==> #[trigger] self.states()[j] == old(self).states()[j],
            decreases NUM_BUTTONS - i,
        {
            let s = self.buttons.state[i];
            let next = match s {
                ButtonState::PressedThisFrame => ButtonState::Pressed,
                ButtonState::ReleasedThisFrame => ButtonState::Released,
                _ => s,
            };
            self.buttons.state.set(i, next);
            i = i + 1;
        }
        assert(self.states() =~= old(self).states().map_values(|s: ButtonState| aged(s)));
    }

    pub open spec fn view(&self) -> InputView {
        InputView {
            mouse_pos: self.mouse_pos,
            mouse_screen_pos: self.mouse_screen_pos,
            states: self.states(),
        }
    }

    /// Takes one terminal event into account: a key or mouse button changes its button's
    /// state, and a mouse event moves the mouse position.
    pub fn handle(&mut self, event: InputEvent, camera: &Camera)
        requires
            old(self).wf(),
            camera.wf(),
        ensures
            final(self).wf(),
            final(self).view() == after_event(old(self).view(), event, *camera),
    {
        match event {
            InputEvent::Key { key, ctrl, action } => {
                if let Some(button) = Button::from_key(key, ctrl) {
                    match action {
                        KeyAction::Press => self.set_state(button, ButtonState::PressedThisFrame),
                        KeyAction::Release => self.set_state(
                            button,
                            ButtonState::ReleasedThisFrame,
                        ),
                        KeyAction::Repeat => {},
                    }
                }
            },
            InputEvent::Mouse { column, row, kind } => {
                let rel = ScreenPos::new(column as i64, row as i64).minus(camera.frame_pos);
                self.mouse_screen_pos = rel;
                let offset = rel.to_world();
                self.mouse_pos = Pos::new(
                    clamp_coord(camera.pos.x + offset.x),
                    clamp_coord(camera.pos.y + offset.y),
                );
                match kind {
                    MouseAction::Down(mb) => {
                        if let Some(button) = Button::from_mouse(mb) {
                            self.set_state(button, ButtonState::PressedThisFrame);
                        }
                    },
                    MouseAction::Up(mb) => {
                        if let Some(button) = Button::from_mouse(mb) {
                            self.set_state(button, ButtonState::ReleasedThisFrame);
                        }
                    },
                    MouseAction::Other => {},
                }
            },
            InputEvent::Other => {},
        }
    }

    /// Starts a new frame, then takes in the terminal's events of that frame, in order.
    pub fn update(&mut self, events: &Vec<InputEvent>, camera: &Camera)
        requires
            old(self).wf(),
            camera.wf(),
        ensures
            final(self).wf(),
            final(self).view() == after_events(
                InputView {
                    states: old(self).states().map_values(|s: ButtonState| aged(s)),
                    ..old(self).view()
                },
                events@,
                *camera,
            ),
    {
        self.next_frame();
        let ghost start = self.view();
        let mut i: usize = 0;
        while i < events.len()
            invariant
                self.wf(),
                camera.wf(),
                0 <= i <= events@.len(),
                self.view() == after_events(start, events@.take(i as int), *camera),
            decreases events@.len() - i,
        {
            self.handle(events[i], camera);
            i = i + 1;
            assert(events@.take(i as int).drop_last() =~= events@.take(i - 1));
        }
        assert(events@.take(events@.len() as int) =~= events@);
    }
}

} // verus!
