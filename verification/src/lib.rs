//! The RAMP application runtime: it turns the window system's input into what
//! the application does next (draw a frame, follow a resize, or hand an event
//! to the interface), and hosts the AIR contracts and demo components of the
//! stack.

use vstd::prelude::*;


pub mod air;
pub mod canvas;
pub mod demo;
pub mod event;
pub mod names;
pub mod text;
pub mod window;

verus! {

/// The interface's key for a key of the window system.
pub open spec fn key_of(k: window::Key) -> event::Key {
    match k {
        window::Key::Escape => event::Key::Escape,
        window::Key::Enter => event::Key::Enter,
        window::Key::Tab => event::Key::Tab,
        window::Key::Space => event::Key::Space,
        window::Key::Up => event::Key::Up,
        window::Key::Down => event::Key::Down,
        window::Key::Left => event::Key::Left,
        window::Key::Right => event::Key::Right,
        window::Key::Delete => event::Key::Delete,
        window::Key::Backspace => event::Key::Backspace,
        window::Key::Home => event::Key::Home,
        window::Key::End => event::Key::End,
        window::Key::Shift => event::Key::Shift,
        window::Key::Control => event::Key::Control,
        window::Key::Alt => event::Key::Alt,
        window::Key::SuperMeta => event::Key::SuperMeta,
        window::Key::CapsLock => event::Key::CapsLock,
        window::Key::NumLock => event::Key::NumLock,
        window::Key::ScrollLock => event::Key::ScrollLock,
        window::Key::Character(c) => event::Key::Character(c),
    }
}

/// The interface's key state for a key state of the window system.
pub open spec fn keyboard_state_of(s: window::KeyboardState) -> event::KeyboardState {
    match s {
        window::KeyboardState::Pressed => event::KeyboardState::Pressed,
        window::KeyboardState::Repeated => event::KeyboardState::Repeated,
        window::KeyboardState::Released => event::KeyboardState::Released,
    }
}

/// The interface's mouse button for a button of the window system.
pub open spec fn mouse_button_of(b: window::MouseButton) -> event::MouseButton {
    match b {
        window::MouseButton::Left => event::MouseButton::Left,
        window::MouseButton::Middle => event::MouseButton::Middle,
        window::MouseButton::Right => event::MouseButton::Right,
    }
}

/// The interface's mouse state for a mouse state of the window system.
pub open spec fn mouse_state_of(s: window::MouseState) -> event::MouseState {
    match s {
        window::MouseState::Pressed(b) => event::MouseState::Pressed(mouse_button_of(b)),
        window::MouseState::Released(b) => event::MouseState::Released(mouse_button_of(b)),
        window::MouseState::Moved => event::MouseState::Moved,
        window::MouseState::Scroll => event::MouseState::Scroll,
    }
}

/// What the application does with an input.
#[derive(Clone, Debug, PartialEq, Eq)]
pub enum Reaction {
    /// Lay out and draw the interface again.
    Draw,
    /// Read the window's new size and scale and resize the interface.
    Resize,
    /// Hand the event to the interface.
    Emit(event::Event),
    /// Nothing.
    Ignore,
}

/// What the application does with an input: draw on a tick, resize on a
/// resize, pass camera frames, picked photos, keys and mouse input on to the
/// interface, and ignore the rest.
pub open spec fn reaction_to(input: window::Input) -> Reaction {
    match input {
        window::Input::Tick => Reaction::Draw,
        window::Input::Resized => Reaction::Resize,
        window::Input::CameraFrame => Reaction::Emit(event::Event::CameraFrame),
        window::Input::SelectedPhoto => Reaction::Emit(event::Event::PickedPhoto),
        window::Input::Device(window::DeviceInput::Keyboard(k, s, m)) => Reaction::Emit(
            event::Event::Keyboard(
                event::KeyboardEvent {
                    key: key_of(k),
                    state: keyboard_state_of(s),
                    modifiers: event::Modifiers {
                        shift: m.shift,
                        control: m.control,
                        alt: m.alt,
                        supermeta: m.supermeta,
                    },
                },
            ),
        ),
        window::Input::Device(window::DeviceInput::Mouse(s)) => Reaction::Emit(
            event::Event::Mouse(event::MouseEvent { state: mouse_state_of(s), positioned: true }),
        ),
        window::Input::Device(window::DeviceInput::Other) => Reaction::Ignore,
        window::Input::Other => Reaction::Ignore,
    }
}

fn key_from(k: window::Key) -> (r: event::Key)
    ensures
        r == key_of(k),
{
    match k {
        window::Key::Escape => event::Key::Escape,
        window::Key::Enter => event::Key::Enter,
        window::Key::Tab => event::Key::Tab,
        window::Key::Space => event::Key::Space,
        window::Key::Up => event::Key::Up,
        window::Key::Down => event::Key::Down,
        window::Key::Left => event::Key::Left,
        window::Key::Right => event::Key::Right,
        window::Key::Delete => event::Key::Delete,
        window::Key::Backspace => event::Key::Backspace,
        window::Key::Home => event::Key::Home,
        window::Key::End => event::Key::End,
        window::Key::Shift => event::Key::Shift,
        window::Key::Control => event::Key::Control,
        window::Key::Alt => event::Key::Alt,
        window::Key::SuperMeta => event::Key::SuperMeta,
        window::Key::CapsLock => event::Key::CapsLock,
        window::Key::NumLock => event::Key::NumLock,
        window::Key::ScrollLock => event::Key::ScrollLock,
        window::Key::Character(c) => event::Key::Character(c),
    }
}

fn button_from(b: window::MouseButton) -> (r: event::MouseButton)
    ensures
        r == mouse_button_of(b),
{
    match b {
        window::MouseButton::Left => event::MouseButton::Left,
        window::MouseButton::Middle => event::MouseButton::Middle,
        window::MouseButton::Right => event::MouseButton::Right,
    }
}

/// What the application does with an input.
pub fn on_input(input: window::Input) -> (r: Reaction)
    ensures
        r == reaction_to(input),
{
    match input {
        window::Input::Tick => Reaction::Draw,
        window::Input::Resized => Reaction::Resize,
        window::Input::CameraFrame => Reaction::Emit(event::Event::CameraFrame),
        window::Input::SelectedPhoto => Reaction::Emit(event::Event::PickedPhoto),
        window::Input::Device(device) => match device {
            window::DeviceInput::Keyboard(key, state, modifiers) => Reaction::Emit(
                event::Event::Keyboard(
                    event::KeyboardEvent {
                        key: key_from(key),
                        state: match state {
                            window::KeyboardState::Pressed => event::KeyboardState::Pressed,
                            window::KeyboardState::Repeated => event::KeyboardState::Repeated,
                            window::KeyboardState::Released => event::KeyboardState::Released,
                        },
                        modifiers: event::Modifiers {
                            shift: modifiers.shift,
                            control: modifiers.control,
                            alt: modifiers.alt,
                            supermeta: modifiers.supermeta,
                        },
                    },
                ),
            ),
            window::DeviceInput::Mouse(state) => Reaction::Emit(
                event::Event::Mouse(
                    event::MouseEvent {
                        state: match state {
                            window::MouseState::Pressed(b) => event::MouseState::Pressed(
                                button_from(b),
                            ),
                            window::MouseState::Released(b) => event::MouseState::Released(
                                button_from(b),
                            ),
                            window::MouseState::Moved => event::MouseState::Moved,
                            window::MouseState::Scroll => event::MouseState::Scroll,
                        },
                        positioned: true,
                    },
                ),
            ),
            window::DeviceInput::Other => Reaction::Ignore,
        },
        window::Input::Other => Reaction::Ignore,
    }
}

/// Distinct keys of the window system stay distinct in the interface.
pub proof fn lemma_keys_stay_distinct(a: window::Key, b: window::Key)
    requires
        a != b,
    ensures
        key_of(a) != key_of(b),
{
}

/// Distinct inputs that the application passes on reach the interface as
/// distinct events.
pub proof fn lemma_emitted_inputs_stay_distinct(a: window::Input, b: window::Input)
    requires
        a != b,
        reaction_to(a) is Emit,
        reaction_to(b) is Emit,
    ensures
        reaction_to(a) != reaction_to(b),
{
}

/// Whether a key of the window system and a key of the interface are the
/// same key: of the same name, or characters of the same text.
pub open spec fn same_key(w: window::Key, e: event::Key) -> bool {
    match (w, e) {
        (window::Key::Escape, event::Key::Escape) => true,
        (window::Key::Enter, event::Key::Enter) => true,
        (window::Key::Tab, event::Key::Tab) => true,
        (window::Key::Space, event::Key::Space) => true,
        (window::Key::Up, event::Key::Up) => true,
        (window::Key::Down, event::Key::Down) => true,
        (window::Key::Left, event::Key::Left) => true,
        (window::Key::Right, event::Key::Right) => true,
        (window::Key::Delete, event::Key::Delete) => true,
        (window::Key::Backspace, event::Key::Backspace) => true,
        (window::Key::Home, event::Key::Home) => true,
        (window::Key::End, event::Key::End) => true,
        (window::Key::Shift, event::Key::Shift) => true,
        (window::Key::Control, event::Key::Control) => true,
        (window::Key::Alt, event::Key::Alt) => true,
        (window::Key::SuperMeta, event::Key::SuperMeta) => true,
        (window::Key::CapsLock, event::Key::CapsLock) => true,
        (window::Key::NumLock, event::Key::NumLock) => true,
        (window::Key::ScrollLock, event::Key::ScrollLock) => true,
        (window::Key::Character(a), event::Key::Character(b)) => a == b,
        _ => false,
    }
}

/// Whether a key state of the window system and one of the interface have
/// the same name.
pub open spec fn same_key_state(w: window::KeyboardState, e: event::KeyboardState) -> bool {
    match (w, e) {
        (window::KeyboardState::Pressed, event::KeyboardState::Pressed) => true,
        (window::KeyboardState::Repeated, event::KeyboardState::Repeated) => true,
        (window::KeyboardState::Released, event::KeyboardState::Released) => true,
        _ => false,
    }
}

/// Every key input reaches the interface as the same key, in the same state,
/// with the same modifiers: a pressed Up arrives as a pressed Up, a
/// character as that character.
pub proof fn lemma_keys_arrive_as_themselves(k: window::Key, s: window::KeyboardState, m: window::Modifiers)
    ensures
        reaction_to(window::Input::Device(window::DeviceInput::Keyboard(k, s, m))) matches Reaction::Emit(
            event::Event::Keyboard(ev),
        ) && same_key(k, ev.key) && same_key_state(s, ev.state) && ev.modifiers.shift == m.shift
            && ev.modifiers.control == m.control && ev.modifiers.alt == m.alt && ev.modifiers.supermeta
            == m.supermeta,
{
}

/// Whether a mouse button of the window system and one of the interface have
/// the same name.
pub open spec fn same_button(w: window::MouseButton, e: event::MouseButton) -> bool {
    match (w, e) {
        (window::MouseButton::Left, event::MouseButton::Left) => true,
        (window::MouseButton::Middle, event::MouseButton::Middle) => true,
        (window::MouseButton::Right, event::MouseButton::Right) => true,
        _ => false,
    }
}

/// Every mouse input reaches the interface as the same action of the same
/// button, with a position: a press stays a press, a release a release, a
/// move a move and a scroll a scroll.
pub proof fn lemma_mouse_arrives_as_itself(s: window::MouseState)
    ensures
        reaction_to(window::Input::Device(window::DeviceInput::Mouse(s))) matches Reaction::Emit(
            event::Event::Mouse(ev),
        ) && ev.positioned && match (s, ev.state) {
            (window::MouseState::Pressed(a), event::MouseState::Pressed(b)) => same_button(a, b),
            (window::MouseState::Released(a), event::MouseState::Released(b)) => same_button(a, b),
            (window::MouseState::Moved, event::MouseState::Moved) => true,
            (window::MouseState::Scroll, event::MouseState::Scroll) => true,
            _ => false,
        },
{
}

/// A tick draws, a resize resizes, a camera frame and a picked photo reach
/// the interface as such, and other input is ignored.
pub proof fn lemma_other_inputs()
    ensures
        reaction_to(window::Input::Tick) == Reaction::Draw,
        reaction_to(window::Input::Resized) == Reaction::Resize,
        reaction_to(window::Input::CameraFrame) == Reaction::Emit(event::Event::CameraFrame),
        reaction_to(window::Input::SelectedPhoto) == Reaction::Emit(event::Event::PickedPhoto),
        reaction_to(window::Input::Other) == Reaction::Ignore,
        reaction_to(window::Input::Device(window::DeviceInput::Other)) == Reaction::Ignore,
{
}

} // verus!
