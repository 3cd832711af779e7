//! Platform events as plain values, and the two events that ask the game to end.

use vstd::prelude::*;

verus! {

/// The key code of the escape key.
pub const KEYCODE_ESCAPE: i32 = 27;

/// An event of the platform, with the fields that the windowing library reports.
///
/// Key codes, scan codes and modifier bits are the library's own numbers.
#[derive(Clone, Copy, Debug, PartialEq, Eq)]
pub enum Event {
    /// The application is asked to quit.
    Quit { timestamp: u32 },
    /// A key went down, or repeats while it is held.
    KeyDown {
        timestamp: u32,
        window_id: u32,
        keycode: Option<i32>,
        scancode: Option<i32>,
        keymod: u32,
        repeat: bool,
    },
    /// A key went up.
    KeyUp {
        timestamp: u32,
        window_id: u32,
        keycode: Option<i32>,
        scancode: Option<i32>,
        keymod: u32,
        repeat: bool,
    },
    /// The mouse moved.
    MouseMotion {
        timestamp: u32,
        window_id: u32,
        which: u32,
        buttons: u32,
        x: i32,
        y: i32,
        xrel: i32,
        yrel: i32,
    },
    /// A mouse button went down.
    MouseButtonDown { timestamp: u32, window_id: u32, which: u32, button: u8, x: i32, y: i32 },
    /// A mouse button went up.
    MouseButtonUp { timestamp: u32, window_id: u32, which: u32, button: u8, x: i32, y: i32 },
    /// The mouse wheel turned.
    MouseWheel { timestamp: u32, window_id: u32, which: u32, x: i32, y: i32 },
    /// Any other event.
    Other { timestamp: u32 },
}

/// Why the game is asked to end.
#[derive(Clone, Copy, Debug, PartialEq, Eq, Structural)]
pub enum QuitReason {
    /// The application was asked to quit, as when its window is closed.
    Requested,
    /// The escape key was pressed.
    Escape,
}

impl Event {
    /// The reason to end the game that this event carries, if it carries one:
    /// a quit event does, and so does a key-down event of the escape key.
    pub open spec fn quit_reason(self) -> Option<QuitReason> {
        match self {
            Event::Quit { .. } => Some(QuitReason::Requested),
            Event::KeyDown { keycode, .. } => if keycode == Some(KEYCODE_ESCAPE) {
                Some(QuitReason::Escape)
            } else {
                None
            },
            _ => None,
        }
    }

    /// Tells whether this event asks the game to end, and why.
    pub fn classify(&self) -> (reason: Option<QuitReason>)
        ensures
            reason == self.quit_reason(),
    {
        match self {
            Event::Quit { .. } => Some(QuitReason::Requested),
            Event::KeyDown { keycode: Some(key), .. } => if *key == KEYCODE_ESCAPE {
                Some(QuitReason::Escape)
            } else {
                None
            },
            _ => None,
        }
    }
}

} // verus!
