//! Input from the window system, as the platform layer reports it.
//! Positions, scroll distances and images stay with the caller.

use vstd::prelude::*;

verus! {

/// A key of the keyboard, as the platform names it.
#[derive(Clone, Debug, PartialEq, Eq)]
pub enum Key {
    Escape,
    Enter,
    Tab,
    Space,
    Up,
    Down,
    Left,
    Right,
    Delete,
    Backspace,
    Home,
    End,
    Shift,
    Control,
    Alt,
    SuperMeta,
    CapsLock,
    NumLock,
    ScrollLock,
    Character(String),
}

/// What happened to a key.
#[derive(Clone, Copy, Debug, PartialEq, Eq)]
pub enum KeyboardState {
    Pressed,
    Repeated,
    Released,
}

/// Which modifier keys were held.
#[derive(Clone, Copy, Debug, PartialEq, Eq)]
pub struct Modifiers {
    pub shift: bool,
    pub control: bool,
    pub alt: bool,
    pub supermeta: bool,
}

/// A mouse button.
#[derive(Clone, Copy, Debug, PartialEq, Eq)]
pub enum MouseButton {
    Left,
    Middle,
    Right,
}

/// What the mouse did; the distances of a scroll stay with the caller.
#[derive(Clone, Copy, Debug, PartialEq, Eq)]
pub enum MouseState {
    Pressed(MouseButton),
    Released(MouseButton),
    Moved,
    Scroll,
}

/// Input from a device.
#[derive(Clone, Debug, PartialEq, Eq)]
pub enum DeviceInput {
    Keyboard(Key, KeyboardState, Modifiers),
    /// The mouse (its position stays with the caller).
    Mouse(MouseState),
    /// Any other device input.
    Other,
}

/// Input to the application.
#[derive(Clone, Debug, PartialEq, Eq)]
pub enum Input {
    Tick,
    Resized,
    CameraFrame,
    SelectedPhoto,
    Device(DeviceInput),
    /// Any other input.
    Other,
}

} // verus!
