use ramp::event;
use ramp::window;
use ramp::{on_input, Reaction};

#[test]
fn ticks_draw_and_resizes_resize() {
    assert_eq!(on_input(window::Input::Tick), Reaction::Draw);
    assert_eq!(on_input(window::Input::Resized), Reaction::Resize);
    assert_eq!(on_input(window::Input::Other), Reaction::Ignore);
    assert_eq!(on_input(window::Input::Device(window::DeviceInput::Other)), Reaction::Ignore);
}

#[test]
fn media_is_passed_on() {
    assert_eq!(on_input(window::Input::CameraFrame), Reaction::Emit(event::Event::CameraFrame));
    assert_eq!(on_input(window::Input::SelectedPhoto), Reaction::Emit(event::Event::PickedPhoto));
}

#[test]
fn keys_are_mapped() {
    let modifiers = window::Modifiers { shift: true, control: false, alt: true, supermeta: false };
    let r = on_input(window::Input::Device(window::DeviceInput::Keyboard(
        window::Key::Character("q".to_string()),
        window::KeyboardState::Repeated,
        modifiers,
    )));
    assert_eq!(
        r,
        Reaction::Emit(event::Event::Keyboard(event::KeyboardEvent {
            key: event::Key::Character("q".to_string()),
            state: event::KeyboardState::Repeated,
            modifiers: event::Modifiers { shift: true, control: false, alt: true, supermeta: false },
        }))
    );
    let pairs = vec![
        (window::Key::Escape, event::Key::Escape),
        (window::Key::SuperMeta, event::Key::SuperMeta),
        (window::Key::ScrollLock, event::Key::ScrollLock),
        (window::Key::Backspace, event::Key::Backspace),
    ];
    for (w, e) in pairs {
        match on_input(window::Input::Device(window::DeviceInput::Keyboard(
            w,
            window::KeyboardState::Pressed,
            modifiers,
        ))) {
            Reaction::Emit(event::Event::Keyboard(k)) => {
                assert_eq!(k.key, e);
                assert_eq!(k.state, event::KeyboardState::Pressed);
            },
            other => panic!("unexpected {:?}", other),
        }
    }
}

#[test]
fn mouse_is_mapped() {
    assert_eq!(
        on_input(window::Input::Device(window::DeviceInput::Mouse(window::MouseState::Pressed(
            window::MouseButton::Middle
        )))),
        Reaction::Emit(event::Event::Mouse(event::MouseEvent {
            state: event::MouseState::Pressed(event::MouseButton::Middle),
            positioned: true,
        }))
    );
    assert_eq!(
        on_input(window::Input::Device(window::DeviceInput::Mouse(window::MouseState::Released(
            window::MouseButton::Left
        )))),
        Reaction::Emit(event::Event::Mouse(event::MouseEvent {
            state: event::MouseState::Released(event::MouseButton::Left),
            positioned: true,
        }))
    );
    assert_eq!(
        on_input(window::Input::Device(window::DeviceInput::Mouse(window::MouseState::Scroll))),
        Reaction::Emit(event::Event::Mouse(event::MouseEvent { state: event::MouseState::Scroll, positioned: true }))
    );
}
