//! What a frame is given: the platform's readings, taken once before the
//! frame is computed, and the input events that arrived since the last one.

use vstd::prelude::*;

verus! {

/// A cell of the character grid.
#[derive(Clone, Copy, Debug, PartialEq, Eq, Structural)]
pub struct Point {
    pub x: i32,
    pub y: i32,
}

/// The size of the display, in cells.
#[derive(Clone, Copy, Debug, PartialEq, Eq, Structural)]
pub struct Size {
    pub width: i32,
    pub height: i32,
}

/// The keys that the game tells apart. The left mouse button counts as a key.
#[derive(Clone, Copy, Debug, PartialEq, Eq, Structural)]
pub enum KeyCode {
    MouseLeft,
    Escape,
    R,
    Other,
}

/// One input event of a frame.
#[derive(Clone, Copy, Debug, PartialEq, Eq, Structural)]
pub enum Event {
    KeyPressed { key: KeyCode, ctrl: bool, shift: bool },
    KeyReleased { key: KeyCode, ctrl: bool, shift: bool },
    Close,
}

/// How a new game's random stream is seeded.
#[derive(Clone, Copy, Debug, PartialEq, Eq, Structural)]
pub enum Start {
    /// Always the same seed, and no title screen: every game replays alike.
    Fixed,
    /// Seeded from a time stamp in seconds, and opening on the title screen.
    Timed(u64),
}

/// The platform's readings for one frame.
#[derive(Clone, Copy, Debug, PartialEq, Eq, Structural)]
pub struct Platform {
    /// Size of the display.
    pub size: Size,
    /// Where the pointer is.
    pub mouse_position: Point,
    /// Whether the left mouse button is held down.
    pub mouse_left_down: bool,
    /// How a game that is started during this frame is seeded.
    pub start: Start,
}

impl Start {
    /// Whether a game started this way opens on the title screen.
    pub open spec fn shows_title(self) -> bool {
        self is Timed
    }
}

impl Event {
    /// Whether the event ends the program: a close request, or escape
    /// pressed.
    pub open spec fn is_quit(self) -> bool {
        match self {
            Event::Close => true,
            Event::KeyPressed { key: KeyCode::Escape, .. } => true,
            _ => false,
        }
    }

    /// Whether the event is the reset chord: R pressed with ctrl held.
    pub open spec fn is_reset(self) -> bool {
        match self {
            Event::KeyPressed { key: KeyCode::R, ctrl: true, .. } => true,
            _ => false,
        }
    }

    /// Whether the event is the left mouse button going down.
    pub open spec fn is_mouse_press(self) -> bool {
        match self {
            Event::KeyPressed { key: KeyCode::MouseLeft, .. } => true,
            _ => false,
        }
    }

    /// Whether the event is the left mouse button coming up.
    pub open spec fn is_mouse_release(self) -> bool {
        match self {
            Event::KeyReleased { key: KeyCode::MouseLeft, .. } => true,
            _ => false,
        }
    }

    /// Whether the event is any key going down.
    pub open spec fn is_key_press(self) -> bool {
        self is KeyPressed
    }
}

} // verus!
