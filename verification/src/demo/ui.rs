//! Interface pieces: media panels, a status bar and toggle buttons.  Sizes
//! and fonts are floating point or outside values and stay with the caller;
//! this module decides texts, colors and states.

use vstd::prelude::*;

use crate::canvas::Color;
use crate::demo::hardware::{accent_act, accent_dim, btn_bg, photo_border, surface, white_dim, white_hi};
use crate::event::{Event, MouseEvent, MouseState};

verus! {

/// What a media panel shows.
#[derive(Clone, Copy, Debug, PartialEq, Eq, Structural)]
pub enum MediaPanelKind {
    Camera,
    Photo,
}

/// The state of a media panel: its kind and border, whether it still shows
/// its placeholder, and whether it shows an image (which the caller holds).
#[derive(Clone, Copy, Debug, PartialEq, Eq, Structural)]
pub struct MediaPanel {
    pub kind: MediaPanelKind,
    pub border: Color,
    /// The color of the placeholder, while it is shown.
    pub placeholder: Option<Color>,
    pub showing: bool,
}

impl MediaPanel {
    /// An empty panel for camera frames.
    pub fn camera() -> (p: MediaPanel)
        ensures
            p == (MediaPanel {
                kind: MediaPanelKind::Camera,
                border: accent_dim(),
                placeholder: Some(surface()),
                showing: false,
            }),
    {
        MediaPanel {
            kind: MediaPanelKind::Camera,
            border: accent_dim(),
            placeholder: Some(surface()),
            showing: false,
        }
    }

    /// An empty panel for picked photos.
    pub fn photo() -> (p: MediaPanel)
        ensures
            p == (MediaPanel {
                kind: MediaPanelKind::Photo,
                border: photo_border(),
                placeholder: Some(surface()),
                showing: false,
            }),
    {
        MediaPanel {
            kind: MediaPanelKind::Photo,
            border: photo_border(),
            placeholder: Some(surface()),
            showing: false,
        }
    }

    /// Takes an event; returns whether the panel now shows the event's image:
    /// camera panels show camera frames, photo panels picked photos.
    pub fn on_event(&mut self, event: &Event) -> (shown: bool)
        ensures
            shown == (match old(self).kind {
                MediaPanelKind::Camera => *event is CameraFrame,
                MediaPanelKind::Photo => *event is PickedPhoto,
            }),
            shown ==> *final(self) == (MediaPanel { placeholder: None, showing: true, ..*old(self) }),
            !shown ==> *final(self) == *old(self),
    {
        let shown = match self.kind {
            MediaPanelKind::Camera => match event {
                Event::CameraFrame => true,
                _ => false,
            },
            MediaPanelKind::Photo => match event {
                Event::PickedPhoto => true,
                _ => false,
            },
        };
        if shown {
            self.placeholder = None;
            self.showing = true;
        }
        shown
    }
}

/// The color of a message that reports success.
#[verifier::allow_in_spec]
pub fn ok_color() -> Color
    returns
        Color(134, 239, 172, 230),
{
    Color(134, 239, 172, 230)
}

/// The color of a warning.
#[verifier::allow_in_spec]
pub fn warn_color() -> Color
    returns
        Color(251, 191, 36, 230),
{
    Color(251, 191, 36, 230)
}

/// The text of the status bar and its color.
#[derive(Clone, Debug, PartialEq, Eq)]
pub struct StatusBar {
    pub text: String,
    pub color: Color,
}

impl StatusBar {
    /// The status bar at rest: "Ready", dim.
    pub fn new() -> (s: StatusBar)
        ensures
            s.text@ == "Ready"@,
            s.color == white_dim(),
    {
        StatusBar { text: String::from_str("Ready"), color: white_dim() }
    }

    /// Shows a message, bright.
    pub fn set_message(&mut self, msg: String)
        ensures
            final(self).text == msg,
            final(self).color == white_hi(),
    {
        self.text = msg;
        self.color = white_hi();
    }

    /// Shows a message of success.
    pub fn set_ok(&mut self, msg: String)
        ensures
            final(self).text == msg,
            final(self).color == ok_color(),
    {
        self.text = msg;
        self.color = ok_color();
    }

    /// Shows a warning.
    pub fn set_warn(&mut self, msg: String)
        ensures
            final(self).text == msg,
            final(self).color == warn_color(),
    {
        self.text = msg;
        self.color = warn_color();
    }

    /// Returns to rest.
    pub fn reset(&mut self)
        ensures
            final(self).text@ == "Ready"@,
            final(self).color == white_dim(),
    {
        self.text = String::from_str("Ready");
        self.color = white_dim();
    }
}

/// Whether the event is the release of a mouse button, with a position.
pub open spec fn is_release(event: Event) -> bool {
    event matches Event::Mouse(MouseEvent { state: MouseState::Released(_), positioned: true })
}

/// The state of a button: whether it is on, and whether presses toggle it.
#[derive(Clone, Copy, Debug, PartialEq, Eq, Structural)]
pub struct Btn {
    pub active: bool,
    pub toggle: bool,
}

/// What a press asks of the caller: the argument for the button's action and
/// the background to draw.  The caller then triggers the haptic feedback.
#[derive(Clone, Copy, Debug, PartialEq, Eq, Structural)]
pub struct Press {
    pub argument: bool,
    pub background: Color,
}

/// The background of a button.
pub open spec fn spec_background(active: bool) -> Color {
    if active {
        accent_act()
    } else {
        btn_bg()
    }
}

/// A button after a press: flipped if it toggles.
pub open spec fn pressed_state(b: Btn) -> Btn {
    Btn { active: b.active != b.toggle, toggle: b.toggle }
}

/// Pressing a button twice leaves it as it was.
pub proof fn lemma_press_twice(b: Btn)
    ensures
        pressed_state(pressed_state(b)) == b,
{
}

impl Btn {
    /// A button, off.
    pub fn new(toggle: bool) -> (b: Btn)
        ensures
            b == (Btn { active: false, toggle }),
    {
        Btn { active: false, toggle }
    }

    /// Takes an event: a released mouse button, with a position, presses the
    /// button, which flips if it toggles, and passes its state to its action.
    pub fn on_event(&mut self, event: &Event) -> (press: Option<Press>)
        ensures
            is_release(*event) ==> {
                &&& *final(self) == pressed_state(*old(self))
                &&& press == Some(
                    Press {
                        argument: final(self).active,
                        background: spec_background(final(self).active),
                    },
                )
            },
            !is_release(*event) ==> press is None && *final(self) == *old(self),
    {
        match event {
            Event::Mouse(MouseEvent { state: MouseState::Released(_), positioned: true }) => {
                if self.toggle {
                    self.active = !self.active;
                }
                let background = if self.active {
                    accent_act()
                } else {
                    btn_bg()
                };
                Some(Press { argument: self.active, background })
            },
            _ => None,
        }
    }
}

} // verus!
