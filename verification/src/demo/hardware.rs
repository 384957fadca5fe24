//! The hardware showcase: panels that show camera frames and picked photos,
//! buttons that drive the camera and other device features, and rows that
//! copy and paste through the clipboard.  Sizes are floating point and stay
//! with the caller; this module decides states, colors and actions.

use vstd::prelude::*;

use crate::canvas::Color;
use crate::event::Event;

verus! {

/// The color of a panel's surface.
#[verifier::allow_in_spec]
pub fn surface() -> Color
    returns
        Color(22, 22, 32, 255),
{
    Color(22, 22, 32, 255)
}

/// The dim accent, for the border of a camera panel.
#[verifier::allow_in_spec]
pub fn accent_dim() -> Color
    returns
        Color(99, 102, 241, 60),
{
    Color(99, 102, 241, 60)
}

/// The accent of an active button.
#[verifier::allow_in_spec]
pub fn accent_act() -> Color
    returns
        Color(99, 102, 241, 200),
{
    Color(99, 102, 241, 200)
}

/// Bright text.
#[verifier::allow_in_spec]
pub fn white_hi() -> Color
    returns
        Color(255, 255, 255, 230),
{
    Color(255, 255, 255, 230)
}

/// Dim text.
#[verifier::allow_in_spec]
pub fn white_dim() -> Color
    returns
        Color(255, 255, 255, 80),
{
    Color(255, 255, 255, 80)
}

/// Text of middle brightness.
#[verifier::allow_in_spec]
pub fn white_mid() -> Color
    returns
        Color(255, 255, 255, 160),
{
    Color(255, 255, 255, 160)
}

/// The background of an inactive button.
#[verifier::allow_in_spec]
pub fn btn_bg() -> Color
    returns
        Color(30, 30, 46, 255),
{
    Color(30, 30, 46, 255)
}

/// The border of a photo panel.
#[verifier::allow_in_spec]
pub fn photo_border() -> Color
    returns
        Color(255, 255, 255, 14),
{
    Color(255, 255, 255, 14)
}

/// A shared callback: clones share the same function.
pub struct Cb<F: ?Sized>(pub std::sync::Arc<F>);

impl<F: ?Sized> Clone for Cb<F> {
    fn clone(&self) -> (r: Cb<F>)
        ensures
            r.0 == self.0,
    {
        Cb(std::sync::Arc::clone(&self.0))
    }
}

impl<F: ?Sized> std::ops::Deref for Cb<F> {
    type Target = F;

    fn deref(&self) -> (f: &F)
        ensures
            f == &*self.0,
    {
        &self.0
    }
}

/// What a media panel shows.
#[derive(Clone, Copy, Debug, PartialEq, Eq, Structural)]
pub enum MediaPanelKind {
    Camera,
    Photo,
}

impl MediaPanelKind {
    /// Whether a panel of this kind shows the image of an event: camera
    /// panels show camera frames, photo panels show picked photos.
    pub open spec fn shows(self, event: Event) -> bool {
        match self {
            MediaPanelKind::Camera => event is CameraFrame,
            MediaPanelKind::Photo => event is PickedPhoto,
        }
    }

    /// The color of the border of a panel of this kind.
    pub open spec fn spec_border(self) -> Color {
        match self {
            MediaPanelKind::Camera => accent_dim(),
            MediaPanelKind::Photo => photo_border(),
        }
    }
}

/// The state of a media panel: its kind and border, whether it still shows
/// its placeholder, and whether it shows an image (which the caller holds).
#[derive(Clone, Copy, Debug, PartialEq, Eq, Structural)]
pub struct MediaPanel {
    pub kind: MediaPanelKind,
    pub border: Color,
    /// The color of the placeholder, while it is shown.
    pub placeholder: Option<Color>,
    pub showing: bool,
}

impl MediaPanel {
    /// An empty panel of a kind, with its placeholder.
    pub open spec fn spec_new(kind: MediaPanelKind) -> MediaPanel {
        MediaPanel { kind, border: kind.spec_border(), placeholder: Some(surface()), showing: false }
    }

    /// An empty panel of a kind, with its placeholder.
    pub fn new(kind: MediaPanelKind) -> (p: MediaPanel)
        ensures
            p == MediaPanel::spec_new(kind),
    {
        let border = match kind {
            MediaPanelKind::Camera => accent_dim(),
            MediaPanelKind::Photo => photo_border(),
        };
        MediaPanel { kind, border, placeholder: Some(surface()), showing: false }
    }

    /// Takes an event; returns whether the panel now shows the event's image
    /// (then the placeholder is gone).
    pub fn on_event(&mut self, event: &Event) -> (shown: bool)
        ensures
            shown == old(self).kind.shows(*event),
            shown ==> *final(self) == (MediaPanel { placeholder: None, showing: true, ..*old(self) }),
            !shown ==> *final(self) == *old(self),
    {
        let shown = match self.kind {
            MediaPanelKind::Camera => match event {
                Event::CameraFrame => true,
                _ => false,
            },
            MediaPanelKind::Photo => match event {
                Event::PickedPhoto => true,
                _ => false,
            },
        };
        if shown {
            self.placeholder = None;
            self.showing = true;
        }
        shown
    }
}

/// What a button does when pressed.
#[derive(Clone, Copy, Debug, PartialEq, Eq, Structural)]
pub enum BtnMode {
    /// Runs its action each time.
    Impulse,
    /// Turns the camera on and off.
    Camera,
}

/// What to do with the camera.
#[derive(Clone, Copy, Debug, PartialEq, Eq, Structural)]
pub enum CameraCommand {
    Start,
    Stop,
    Keep,
}

/// What a press of a button asks of the caller: a camera command, the
/// argument for the button's action, and the new background.  The caller
/// then triggers the haptic feedback.
#[derive(Clone, Copy, Debug, PartialEq, Eq, Structural)]
pub struct Press {
    pub camera: CameraCommand,
    pub argument: bool,
    pub background: Color,
}

/// The background of a button.
pub open spec fn spec_background(active: bool) -> Color {
    if active {
        accent_act()
    } else {
        btn_bg()
    }
}

/// The background of a button.
pub fn background(active: bool) -> (c: Color)
    ensures
        c == spec_background(active),
{
    if active {
        accent_act()
    } else {
        btn_bg()
    }
}

/// The state of a button.
#[derive(Clone, Copy, Debug, PartialEq, Eq, Structural)]
pub struct Btn {
    pub active: bool,
    pub mode: BtnMode,
}

/// What pressing a button in a state does: a camera button flips, starting
/// the camera when it turns on and stopping it when it turns off, and passes
/// its new state to its action; an impulse button passes `false`.
pub open spec fn press_of(b: Btn) -> (Btn, Press) {
    match b.mode {
        BtnMode::Camera => {
            let active = !b.active;
            (
                Btn { active, mode: b.mode },
                Press {
                    camera: if active {
                        CameraCommand::Start
                    } else {
                        CameraCommand::Stop
                    },
                    argument: active,
                    background: spec_background(active),
                },
            )
        },
        BtnMode::Impulse => (
            b,
            Press {
                camera: CameraCommand::Keep,
                argument: false,
                background: spec_background(b.active),
            },
        ),
    }
}

impl Btn {
    /// A button, not active.
    pub fn new(mode: BtnMode) -> (b: Btn)
        ensures
            b == (Btn { active: false, mode }),
    {
        Btn { active: false, mode }
    }

    /// A button that turns the camera on and off.
    pub fn camera() -> (b: Btn)
        ensures
            b == (Btn { active: false, mode: BtnMode::Camera }),
    {
        Btn::new(BtnMode::Camera)
    }

    /// A button that runs its action on each press.
    pub fn impulse() -> (b: Btn)
        ensures
            b == (Btn { active: false, mode: BtnMode::Impulse }),
    {
        Btn::new(BtnMode::Impulse)
    }

    /// Whether the button keeps a camera handle: camera buttons do.
    pub fn has_camera(&self) -> (r: bool)
        ensures
            r == (self.mode == BtnMode::Camera),
    {
        match self.mode {
            BtnMode::Camera => true,
            BtnMode::Impulse => false,
        }
    }

    /// Takes an event: a release of the left mouse button, with a position,
    /// presses the button; anything else does nothing.
    pub fn on_event(&mut self, event: &Event) -> (press: Option<Press>)
        ensures
            event.is_left_release() ==> press == Some(press_of(*old(self)).1) && *final(self)
                == press_of(*old(self)).0,
            !event.is_left_release() ==> press is None && *final(self) == *old(self),
    {
        if !event.left_release() {
            return None;
        }
        match self.mode {
            BtnMode::Camera => {
                self.active = !self.active;
                let camera = if self.active {
                    CameraCommand::Start
                } else {
                    CameraCommand::Stop
                };
                Some(Press { camera, argument: self.active, background: background(self.active) })
            },
            BtnMode::Impulse => Some(
                Press {
                    camera: CameraCommand::Keep,
                    argument: false,
                    background: background(self.active),
                },
            ),
        }
    }
}

/// Pressing a camera button twice turns the camera on and off again (or off
/// and on) and leaves the button as it was.
pub proof fn lemma_camera_press_twice(b: Btn)
    requires
        b.mode == BtnMode::Camera,
    ensures
        press_of(press_of(b).0).0 == b,
        press_of(b).1.camera != press_of(press_of(b).0).1.camera,
        press_of(b).1.camera != CameraCommand::Keep,
{
}

/// An impulse button never changes.
pub proof fn lemma_impulse_unchanged(b: Btn)
    requires
        b.mode == BtnMode::Impulse,
    ensures
        press_of(b).0 == b,
        press_of(b).1.argument == false,
{
}

/// The color of a row's value: dim for the dash that stands for no value.
pub open spec fn spec_value_color(value: Seq<char>) -> Color {
    if value == "—"@ {
        white_dim()
    } else {
        white_hi()
    }
}

/// The color of a row's value: dim for the dash that stands for no value.
pub fn value_color(value: &str) -> (c: Color)
    ensures
        c == spec_value_color(value@),
{
    proof {
        reveal_strlit("—");
    }
    if value.unicode_len() == 1 && value.get_char(0) == '—' {
        assert(value@ =~= "—"@);
        white_dim()
    } else {
        white_hi()
    }
}

/// What an action row shows: an icon, a label and a value, with their
/// colors, on a background.
#[derive(Clone, Debug, PartialEq, Eq)]
pub struct ActionRow {
    /// The icon, a glyph of the icon font.
    pub icon: String,
    pub icon_color: Color,
    pub label: String,
    pub label_color: Color,
    pub value: String,
    pub value_color: Color,
    pub background: Color,
}

/// The row that shows an action's new label and value, and keeps its icon
/// and background.
pub open spec fn shown_row(row: ActionRow, label: String, value: String) -> ActionRow {
    ActionRow { label, label_color: white_mid(), value, value_color: white_hi(), ..row }
}

impl ActionRow {
    /// A row showing an icon, a label and a value on the background of a
    /// button.
    pub fn new(icon: &str, label: &str, value: &str) -> (t: ActionRow)
        ensures
            t.icon@ == icon@,
            t.icon_color == white_mid(),
            t.label@ == label@,
            t.label_color == white_mid(),
            t.value@ == value@,
            t.value_color == spec_value_color(value@),
            t.background == btn_bg(),
    {
        ActionRow {
            icon: String::from_str(icon),
            icon_color: white_mid(),
            label: String::from_str(label),
            label_color: white_mid(),
            value: String::from_str(value),
            value_color: value_color(value),
            background: btn_bg(),
        }
    }

    /// Shows what the row's action returned: a new label and value, if any.
    pub fn show(&mut self, result: Option<(String, String)>)
        ensures
            result matches Some((l, v)) ==> *final(self) == shown_row(*old(self), l, v),
            result is None ==> *final(self) == *old(self),
    {
        match result {
            Some((label, value)) => {
                self.label = label;
                self.label_color = white_mid();
                self.value = value;
                self.value_color = white_hi();
            },
            None => {},
        }
    }

    /// Takes an event: a release of the left mouse button, with a position,
    /// runs the row's action; anything else does nothing.  Returns whether
    /// the caller runs the action (then it triggers the haptic feedback and
    /// hands what the action returned to `show`).
    pub fn on_event(&self, event: &Event) -> (run: bool)
        ensures
            run == event.is_left_release(),
    {
        event.left_release()
    }
}

/// The rows that copy a text to the clipboard and paste from it.
#[derive(Clone, Debug, PartialEq, Eq)]
pub struct CopyPastePanel {
    /// The text to copy.
    pub copy_text: String,
    pub copy: ActionRow,
    pub paste: ActionRow,
}

/// Whether a row is a fresh row of an icon, a label and a value.
pub open spec fn is_fresh_row(r: ActionRow, icon: Seq<char>, label: Seq<char>, value: Seq<char>) -> bool {
    &&& r.icon@ == icon
    &&& r.icon_color == white_mid()
    &&& r.label@ == label
    &&& r.label_color == white_mid()
    &&& r.value@ == value
    &&& r.value_color == spec_value_color(value)
    &&& r.background == btn_bg()
}

impl CopyPastePanel {
    /// Whether these are the fresh rows for a text: the copy glyph, "Copy: "
    /// and the text; and the paste glyph, "Paste: " and a dash.
    pub open spec fn is_fresh(self, copy_text: Seq<char>) -> bool {
        &&& self.copy_text@ == copy_text
        &&& is_fresh_row(self.copy, "\u{f0c5}"@, "Copy: "@, copy_text)
        &&& is_fresh_row(self.paste, "\u{f0ea}"@, "Paste: "@, "—"@)
    }
}

impl CopyPastePanel {
    /// The rows for a text: the copy glyph, "Copy: " and the text; and the
    /// paste glyph, "Paste: " and a dash for no value yet.
    pub fn new(copy_text: &str) -> (p: CopyPastePanel)
        ensures
            p.is_fresh(copy_text@),
    {
        let paste = ActionRow::new("\u{f0ea}", "Paste: ", "—");
        proof {
            reveal_strlit("—");
        }
        CopyPastePanel {
            copy_text: String::from_str(copy_text),
            copy: ActionRow::new("\u{f0c5}", "Copy: ", copy_text),
            paste,
        }
    }

    /// A press of the copy row: the text to put on the clipboard.  The row
    /// itself does not change.
    pub fn copy_pressed(&self) -> (text: String)
        ensures
            text == self.copy_text,
    {
        self.copy_text.clone()
    }

    /// A press of the paste row, with what the clipboard held: the row shows
    /// the pasted text, if there was any.
    pub fn paste_pressed(&mut self, clipboard: Option<String>)
        ensures
            final(self).copy_text == old(self).copy_text,
            final(self).copy == old(self).copy,
            clipboard is None ==> final(self).paste == old(self).paste,
            clipboard matches Some(t) ==> {
                &&& final(self).paste.label@ == "Pasted: "@
                &&& final(self).paste.value == t
                &&& final(self).paste.value_color == white_hi()
                &&& final(self).paste.label_color == white_mid()
                &&& final(self).paste.icon == old(self).paste.icon
                &&& final(self).paste.icon_color == old(self).paste.icon_color
                &&& final(self).paste.background == old(self).paste.background
            },
    {
        self.paste.show(pasted(clipboard));
    }
}

/// What the paste row shows for what the clipboard held: the pasted text,
/// labelled; nothing for an empty clipboard.
pub fn pasted(clipboard: Option<String>) -> (shown: Option<(String, String)>)
    ensures
        clipboard is None ==> shown is None,
        clipboard matches Some(t) ==> shown matches Some((l, v)) && l@ == "Pasted: "@ && v == t,
{
    match clipboard {
        Some(text) => Some((String::from_str("Pasted: "), text)),
        None => None,
    }
}

/// What a button shows: a glyph of the icon font over a label, in a color.
#[derive(Clone, Debug, PartialEq, Eq)]
pub struct BtnContent {
    pub glyph: String,
    pub label: String,
    pub color: Color,
}

impl BtnContent {
    /// A glyph over a label, in a color.
    pub fn new(glyph: &str, label: &str, color: Color) -> (c: BtnContent)
        ensures
            c.glyph@ == glyph@,
            c.label@ == label@,
            c.color == color,
    {
        BtnContent { glyph: String::from_str(glyph), label: String::from_str(label), color }
    }
}

/// What a button of the toolbar asks of the device when pressed, besides
/// what its mode does.
#[derive(Clone, Debug, PartialEq, Eq)]
pub enum BtnAction {
    /// Nothing more.
    Nothing,
    /// Let the user pick a photo.
    PickPhoto,
    /// Share a text on social media.
    ShareSocial(String),
}

/// A button of the toolbar: what it shows, its state, and its action.
#[derive(Clone, Debug, PartialEq, Eq)]
pub struct ToolbarButton {
    pub content: BtnContent,
    pub state: Btn,
    pub action: BtnAction,
}

/// The toolbar: the camera button, then the other buttons.
#[derive(Clone, Debug, PartialEq, Eq)]
pub struct Toolbar {
    pub camera: ToolbarButton,
    pub buttons: Vec<ToolbarButton>,
}

impl Toolbar {
    /// A toolbar of a camera button and other buttons.
    pub fn new(camera: ToolbarButton, buttons: Vec<ToolbarButton>) -> (t: Toolbar)
        ensures
            t == (Toolbar { camera, buttons }),
    {
        Toolbar { camera, buttons }
    }
}

/// The two media panels, side by side: the camera's and the photo's.
#[derive(Clone, Copy, Debug, PartialEq, Eq, Structural)]
pub struct MediaPanels {
    pub camera: MediaPanel,
    pub photo: MediaPanel,
}

impl Default for MediaPanels {
    fn default() -> (p: MediaPanels)
        ensures
            p.camera == MediaPanel::spec_new(MediaPanelKind::Camera),
            p.photo == MediaPanel::spec_new(MediaPanelKind::Photo),
    {
        MediaPanels {
            camera: MediaPanel::new(MediaPanelKind::Camera),
            photo: MediaPanel::new(MediaPanelKind::Photo),
        }
    }
}

/// Whether a button shows a glyph and a label in the middle white, in the
/// state of a fresh button of a mode, with an action.
pub open spec fn is_tool(b: ToolbarButton, glyph: Seq<char>, label: Seq<char>, mode: BtnMode, action: BtnAction) -> bool {
    &&& b.content.glyph@ == glyph
    &&& b.content.label@ == label
    &&& b.content.color == white_mid()
    &&& b.state == (Btn { active: false, mode })
    &&& b.action == action
}

/// The hardware showcase: the media panels, the toolbar, and the rows that
/// copy and paste.
#[derive(Clone, Debug, PartialEq, Eq)]
pub struct App {
    pub panels: MediaPanels,
    pub toolbar: Toolbar,
    pub copy_paste: CopyPastePanel,
}

impl App {
    /// The showcase: empty camera and photo panels; a camera button, and
    /// buttons that pick a photo and share the demo's text; and rows that
    /// copy that text and paste.
    pub fn new() -> (a: App)
        ensures
            a.panels.camera == MediaPanel::spec_new(MediaPanelKind::Camera),
            a.panels.photo == MediaPanel::spec_new(MediaPanelKind::Photo),
            is_tool(a.toolbar.camera, "\u{f03d}"@, "Camera"@, BtnMode::Camera, BtnAction::Nothing),
            a.toolbar.buttons@.len() == 2,
            is_tool(a.toolbar.buttons@[0], "\u{f03e}"@, "Photo"@, BtnMode::Impulse, BtnAction::PickPhoto),
            a.toolbar.buttons@[1].action matches BtnAction::ShareSocial(t) && t@ == "RAMP DEMO CHECK IT!"@,
            is_tool(a.toolbar.buttons@[1], "\u{f1e0}"@, "Share"@, BtnMode::Impulse, a.toolbar.buttons@[1].action),
            a.copy_paste.is_fresh("RAMP DEMO CHECK IT!"@),
    {
        let camera = ToolbarButton {
            content: BtnContent::new("\u{f03d}", "Camera", white_mid()),
            state: Btn::camera(),
            action: BtnAction::Nothing,
        };
        let photo = ToolbarButton {
            content: BtnContent::new("\u{f03e}", "Photo", white_mid()),
            state: Btn::impulse(),
            action: BtnAction::PickPhoto,
        };
        let share = ToolbarButton {
            content: BtnContent::new("\u{f1e0}", "Share", white_mid()),
            state: Btn::impulse(),
            action: BtnAction::ShareSocial(String::from_str("RAMP DEMO CHECK IT!")),
        };
        let mut buttons: Vec<ToolbarButton> = Vec::new();
        buttons.push(photo);
        buttons.push(share);
        App {
            panels: MediaPanels::default(),
            toolbar: Toolbar::new(camera, buttons),
            copy_paste: CopyPastePanel::new("RAMP DEMO CHECK IT!"),
        }
    }
}

/// A camera panel shows only camera frames, and a photo panel only picked
/// photos: any other event leaves a panel as it was.
pub proof fn lemma_panels_show_only_their_images(kind: MediaPanelKind, event: Event)
    ensures
        kind == MediaPanelKind::Camera ==> (kind.shows(event) <==> event is CameraFrame),
        kind == MediaPanelKind::Photo ==> (kind.shows(event) <==> event is PickedPhoto),
        !(event is CameraFrame) && !(event is PickedPhoto) ==> !kind.shows(event),
{
}

} // verus!
