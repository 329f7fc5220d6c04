//! What the window reports of keyboard and mouse, and what becomes of it.

use crate::pipeline::Extent2D;
use crate::program::TickResult;
use vstd::prelude::*;

verus! {

/// Two clicks that are at most this many milliseconds apart make a double click.
pub const DOUBLE_CLICK_MS: u32 = 200;

/// The number of keys whose state is kept.
pub const KEY_COUNT: usize = 255;

/// The key code of the space bar: the first key whose state is kept.
pub const KEY_SPACE: i32 = 32;

/// The key code of the grave accent: the first key code after those whose
/// state is kept.
pub const KEY_GRAVE_ACCENT: i32 = 96;

/// The key code of the escape key.
pub const KEY_ESCAPE: i32 = 256;

/// The key code of the left shift key.
pub const KEY_LEFT_SHIFT: i32 = 340;

/// The key code of the left control key.
pub const KEY_LEFT_CONTROL: i32 = 341;

/// The key code of the left alt key.
pub const KEY_LEFT_ALT: i32 = 342;

/// A pair of whole numbers: a position or a distance in pixels.
#[derive(Copy, Clone, Debug, PartialEq, Eq, Structural)]
pub struct Vector2 {
    pub x: i32,
    pub y: i32,
}

/// What a key or a button did.
#[derive(Copy, Clone, Debug, PartialEq, Eq, Structural)]
pub enum Action {
    Release,
    Press,
    Repeat,
}

/// A button of the mouse.
#[derive(Copy, Clone, Debug, PartialEq, Eq, Structural)]
pub enum MouseButton {
    /// The left button.
    Button1,
    /// The right button.
    Button2,
    /// The middle button.
    Button3,
    /// Any further button.
    Other,
}

/// What the window reported.
#[derive(Copy, Clone, Debug, PartialEq, Eq, Structural)]
pub enum WindowEvent {
    /// A key, by its key code.
    Key { key: i32, action: Action },
    /// The window has a new size.
    Size { width: i32, height: i32 },
    /// The window's contents have to be drawn anew.
    Refresh,
    /// The wheel was turned by this many steps.
    Scroll { y: i32 },
    MouseButton { button: MouseButton, action: Action },
    /// The cursor is here now.
    CursorPos { x: i32, y: i32 },
    /// Anything else.
    Other,
}

/// What an event asks of the window and the scene.
#[derive(Copy, Clone, Debug, PartialEq, Eq, Structural)]
pub enum WindowRequest {
    Nothing,
    /// Close the window.
    Close,
    /// Replace the swapchain; with an extent, the window has that size now.
    Resize { extent: Option<Extent2D> },
}

/// What to do about one event.
#[derive(Copy, Clone, Debug, PartialEq, Eq, Structural)]
pub struct EventOutcome {
    pub result: TickResult,
    pub request: WindowRequest,
}

/// The state of the mouse.
#[derive(Copy, Clone, Debug)]
pub struct MouseState {
    pub position: Vector2,
    pub position_delta: Vector2,
    pub scroll_delta: i32,
    pub left: bool,
    pub middle: bool,
    pub right: bool,
    /// When the left button was last released.
    pub last_left: std::time::Instant,
}

/// The state of keyboard and mouse.
#[derive(Debug)]
pub struct InputState {
    pub mouse: MouseState,
    /// For each key code below `KEY_COUNT`, whether the key is held down.
    pub down_keys: Vec<bool>,
    pub shift: bool,
    pub control: bool,
    pub alt: bool,
}

/// The state of keyboard and mouse as a mathematical value.
pub ghost struct InputStateView {
    pub mouse: MouseState,
    pub down_keys: Seq<bool>,
    pub shift: bool,
    pub control: bool,
    pub alt: bool,
}

/// Whether a key's state is kept in `down_keys`.
pub open spec fn is_tracked_key(key: i32) -> bool {
    KEY_SPACE <= key < KEY_GRAVE_ACCENT
}

/// A held state after a key or button did something: down on a press, up on
/// a release, as before on a repeat.
pub open spec fn held_after(held: bool, action: Action) -> bool {
    match action {
        Action::Press => true,
        Action::Release => false,
        Action::Repeat => held,
    }
}

/// What the event loop does after an event: leave on a press of escape,
/// else go on.
pub open spec fn result_of(event: WindowEvent) -> TickResult {
    match event {
        WindowEvent::Key { key, action } => if key == KEY_ESCAPE && action is Press {
            TickResult::EXIT
        } else {
            TickResult::CONTINUE
        },
        _ => TickResult::CONTINUE,
    }
}

/// What an event asks for: a press of escape closes the window, a new size
/// or a refresh replaces the swapchain.
pub open spec fn request_of(event: WindowEvent) -> WindowRequest {
    match event {
        WindowEvent::Key { key, action } => if key == KEY_ESCAPE && action is Press {
            WindowRequest::Close
        } else {
            WindowRequest::Nothing
        },
        WindowEvent::Size { width, height } => WindowRequest::Resize {
            extent: Some(Extent2D { width: width as u32, height: height as u32 }),
        },
        WindowEvent::Refresh => WindowRequest::Resize { extent: None },
        _ => WindowRequest::Nothing,
    }
}

/// The state after an event that came at time `at`.
pub open spec fn state_after(
    state: InputStateView,
    event: WindowEvent,
    at: std::time::Instant,
) -> InputStateView {
    match event {
        WindowEvent::Key { key, action } => if key == KEY_ESCAPE && action is Press {
            state
        } else if is_tracked_key(key) {
            InputStateView {
                down_keys: state.down_keys.update(
                    key as int,
                    held_after(state.down_keys[key as int], action),
                ),
                ..state
            }
        } else if key == KEY_LEFT_SHIFT {
            InputStateView { shift: held_after(state.shift, action), ..state }
        } else if key == KEY_LEFT_CONTROL {
            InputStateView { control: held_after(state.control, action), ..state }
        } else if key == KEY_LEFT_ALT {
            InputStateView { alt: held_after(state.alt, action), ..state }
        } else {
            state
        },
        WindowEvent::Scroll { y } => InputStateView {
            mouse: MouseState { scroll_delta: y, ..state.mouse },
            ..state
        },
        WindowEvent::MouseButton { button, action } => match button {
            MouseButton::Button1 => InputStateView {
                mouse: MouseState {
                    left: held_after(state.mouse.left, action),
                    last_left: if action is Release {
                        at
                    } else {
                        state.mouse.last_left
                    },
                    ..state.mouse
                },
                ..state
            },
            MouseButton::Button2 => InputStateView {
                mouse: MouseState { right: held_after(state.mouse.right, action), ..state.mouse },
                ..state
            },
            MouseButton::Button3 => InputStateView {
                mouse: MouseState { middle: held_after(state.mouse.middle, action), ..state.mouse },
                ..state
            },
            MouseButton::Other => state,
        },
        WindowEvent::CursorPos { x, y } => InputStateView {
            mouse: MouseState { position: Vector2 { x, y }, ..state.mouse },
            ..state
        },
        _ => state,
    }
}

/// The state after a run of events that all came at time `at`.
pub open spec fn state_after_all(
    state: InputStateView,
    events: Seq<WindowEvent>,
    at: std::time::Instant,
) -> InputStateView
    decreases events.len(),
{
    if events.len() == 0 {
        state
    } else {
        state_after(state_after_all(state, events.drop_last(), at), events.last(), at)
    }
}

/// The size of the window after a run of events: that of the last event
/// that reported a size, or the size before.
pub open spec fn extent_after_all(extent: Extent2D, events: Seq<WindowEvent>) -> Extent2D
    decreases events.len(),
{
    if events.len() == 0 {
        extent
    } else {
        match request_of(events.last()) {
            WindowRequest::Resize { extent: Some(reported) } => reported,
            _ => extent_after_all(extent, events.drop_last()),
        }
    }
}

/// What a run of events asks for, event by event.
pub open spec fn requests_of(events: Seq<WindowEvent>) -> Seq<WindowRequest> {
    Seq::new(events.len(), |i: int| request_of(events[i]))
}

/// A held state after a key or button did something.
fn held(before: bool, action: Action) -> (r: bool)
    ensures
        r == held_after(before, action),
{
    match action {
        Action::Press => true,
        Action::Release => false,
        Action::Repeat => before,
    }
}

impl View for InputState {
    type V = InputStateView;

    open spec fn view(&self) -> InputStateView {
        InputStateView {
            mouse: self.mouse,
            down_keys: self.down_keys@,
            shift: self.shift,
            control: self.control,
            alt: self.alt,
        }
    }
}

impl MouseState {
    /// A mouse at rest in the window's corner, last released at time `at`.
    pub open spec fn resting(at: std::time::Instant) -> MouseState {
        MouseState {
            position: Vector2 { x: 0, y: 0 },
            position_delta: Vector2 { x: 0, y: 0 },
            scroll_delta: 0,
            left: false,
            middle: false,
            right: false,
            last_left: at,
        }
    }

    /// A mouse at rest in the window's corner, last released at time `at`.
    pub fn at_rest(at: std::time::Instant) -> (r: Self)
        ensures
            r == Self::resting(at),
    {
        MouseState {
            position: Vector2 { x: 0, y: 0 },
            position_delta: Vector2 { x: 0, y: 0 },
            scroll_delta: 0,
            left: false,
            middle: false,
            right: false,
            last_left: at,
        }
    }
}

impl Default for MouseState {
    /// A mouse at rest, last released now.
    fn default() -> (r: Self)
        ensures
            exists|at: std::time::Instant| r == MouseState::resting(at),
    {
        let at = std::time::Instant::now();
        let r = MouseState::at_rest(at);
        assert(r == MouseState::resting(at));
        r
    }
}

impl InputState {
    /// There is a state for each of the `KEY_COUNT` key codes.
    pub open spec fn wf(&self) -> bool {
        self.down_keys@.len() == KEY_COUNT
    }

    /// Whether no key and no button is held down, and the mouse is at rest.
    pub open spec fn is_fresh(&self) -> bool {
        &&& self.wf()
        &&& forall|k: int| 0 <= k < KEY_COUNT ==> !#[trigger] self.down_keys@[k]
        &&& !self.shift && !self.control && !self.alt
        &&& exists|at: std::time::Instant| self.mouse == MouseState::resting(at)
    }

    /// No key and no button is held down.
    pub fn new() -> (r: Self)
        ensures
            r.is_fresh(),
    {
        let mut down_keys: Vec<bool> = Vec::with_capacity(KEY_COUNT);
        let mut k: usize = 0;
        while k < KEY_COUNT
            invariant
                k <= KEY_COUNT,
                down_keys@.len() == k,
                forall|j: int| 0 <= j < k ==> !#[trigger] down_keys@[j],
            decreases KEY_COUNT - k,
        {
            down_keys.push(false);
            k += 1;
        }
        InputState {
            mouse: MouseState::default(),
            down_keys,
            shift: false,
            control: false,
            alt: false,
        }
    }

    /// Takes in one event that came at time `at`.
    pub fn tick_event_at(&mut self, event: WindowEvent, at: std::time::Instant) -> (outcome:
        EventOutcome)
        requires
            old(self).wf(),
        ensures
            final(self).wf(),
            final(self)@ == state_after(old(self)@, event, at),
            outcome.result == result_of(event),
            outcome.request == request_of(event),
    {
        let mut request = WindowRequest::Nothing;
        let mut result = TickResult::CONTINUE;
        match event {
            WindowEvent::Key { key, action } => {
                let pressed = match action {
                    Action::Press => true,
                    _ => false,
                };
                if key == KEY_ESCAPE && pressed {
                    request = WindowRequest::Close;
                    result = TickResult::EXIT;
                } else if key >= KEY_SPACE && key < KEY_GRAVE_ACCENT {
                    let at_key: usize = key as usize;
                    let down = held(self.down_keys[at_key], action);
                    self.down_keys.set(at_key, down);
                } else if key == KEY_LEFT_SHIFT {
                    self.shift = held(self.shift, action);
                } else if key == KEY_LEFT_CONTROL {
                    self.control = held(self.control, action);
                } else if key == KEY_LEFT_ALT {
                    self.alt = held(self.alt, action);
                }
            },
            WindowEvent::Size { width, height } => {
                request = WindowRequest::Resize {
                    extent: Some(
                        Extent2D {
                            width: #[verifier::truncate]
                            (width as u32),
                            height: #[verifier::truncate]
                            (height as u32),
                        },
                    ),
                };
            },
            WindowEvent::Refresh => {
                request = WindowRequest::Resize { extent: None };
            },
            WindowEvent::Scroll { y } => {
                self.mouse.scroll_delta = y;
            },
            WindowEvent::MouseButton { button, action } => {
                match button {
                    MouseButton::Button1 => {
                        self.mouse.left = held(self.mouse.left, action);
                        match action {
                            Action::Release => {
                                self.mouse.last_left = at;
                            },
                            _ => {},
                        }
                    },
                    MouseButton::Button2 => {
                        self.mouse.right = held(self.mouse.right, action);
                    },
                    MouseButton::Button3 => {
                        self.mouse.middle = held(self.mouse.middle, action);
                    },
                    MouseButton::Other => {},
                }
            },
            WindowEvent::CursorPos { x, y } => {
                self.mouse.position = Vector2 { x, y };
            },
            WindowEvent::Other => {},
        }
        assert(self@.down_keys =~= state_after(old(self)@, event, at).down_keys);
        EventOutcome { result, request }
    }

    /// Takes in one event that comes now.
    pub fn tick_event(&mut self, event: WindowEvent) -> (outcome: EventOutcome)
        requires
            old(self).wf(),
        ensures
            final(self).wf(),
            exists|at: std::time::Instant| final(self)@ == state_after(old(self)@, event, at),
            outcome.result == result_of(event),
            outcome.request == request_of(event),
    {
        let at = std::time::Instant::now();
        let outcome = self.tick_event_at(event, at);
        assert(self@ == state_after(old(self)@, event, at));
        outcome
    }
}

} // verus!
