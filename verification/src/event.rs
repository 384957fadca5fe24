//! Events that the interface hands to its components: keys, mouse, camera
//! frames and picked photos.  Positions and scroll distances are floating
//! point; the caller keeps them beside these values.

use vstd::prelude::*;

verus! {

/// A key of the keyboard.
#[derive(Clone, Debug, PartialEq, Eq)]
pub enum Key {
    Escape,
    Enter,
    Tab,
    Space,
    Up,
    Down,
    Left,
    Right,
    Delete,
    Backspace,
    Home,
    End,
    Shift,
    Control,
    Alt,
    SuperMeta,
    CapsLock,
    NumLock,
    ScrollLock,
    Character(String),
}

/// What happened to a key.
#[derive(Clone, Copy, Debug, PartialEq, Eq)]
pub enum KeyboardState {
    Pressed,
    Repeated,
    Released,
}

/// Which modifier keys were held.
#[derive(Clone, Copy, Debug, PartialEq, Eq)]
pub struct Modifiers {
    pub shift: bool,
    pub control: bool,
    pub alt: bool,
    pub supermeta: bool,
}

/// A mouse button.
#[derive(Clone, Copy, Debug, PartialEq, Eq)]
pub enum MouseButton {
    Left,
    Middle,
    Right,
}

/// What the mouse did.  The distances of a scroll stay with the caller.
#[derive(Clone, Copy, Debug, PartialEq, Eq)]
pub enum MouseState {
    Pressed(MouseButton),
    Released(MouseButton),
    Moved,
    Scroll,
}

/// A key event.
#[derive(Clone, Debug, PartialEq, Eq)]
pub struct KeyboardEvent {
    pub key: Key,
    pub state: KeyboardState,
    pub modifiers: Modifiers,
}

/// A mouse event.  Its position, where it has one, stays with the caller.
#[derive(Clone, Copy, Debug, PartialEq, Eq)]
pub struct MouseEvent {
    pub state: MouseState,
    /// Whether the event has a position.  The application gives every mouse
    /// event one; a component reacts to a click only where it has one.
    pub positioned: bool,
}

/// An event for the components of the interface.
#[derive(Clone, Debug, PartialEq, Eq)]
pub enum Event {
    Keyboard(KeyboardEvent),
    Mouse(MouseEvent),
    /// A frame from the camera (the image stays with the caller).
    CameraFrame,
    /// A photo that the user picked (the image stays with the caller).
    PickedPhoto,
    /// Time passed.
    Tick,
}

impl Event {
    /// Whether this is the release of the left mouse button, with a position.
    pub open spec fn is_left_release(self) -> bool {
        self matches Event::Mouse(
            MouseEvent { state: MouseState::Released(MouseButton::Left), positioned: true },
        )
    }

    /// Whether this is the release of the left mouse button, with a position.
    pub fn left_release(&self) -> (r: bool)
        ensures
            r == self.is_left_release(),
    {
        match self {
            Event::Mouse(
                MouseEvent { state: MouseState::Released(MouseButton::Left), positioned: true },
            ) => true,
            _ => false,
        }
    }
}

} // verus!
