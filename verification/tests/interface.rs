use ramp::canvas::Color;
use ramp::demo::hardware::{
    self, accent_act, accent_dim, btn_bg, pasted, photo_border, value_color, white_dim, white_hi, white_mid,
    ActionRow, Btn, BtnMode, CameraCommand, Cb, MediaPanel, MediaPanelKind,
};
use ramp::demo::ui;
use ramp::demo::App;
use ramp::event::{Event, Key, KeyboardEvent, KeyboardState, Modifiers, MouseButton, MouseEvent, MouseState};

fn release(button: MouseButton) -> Event {
    Event::Mouse(MouseEvent { state: MouseState::Released(button), positioned: true })
}

fn release_elsewhere(button: MouseButton) -> Event {
    Event::Mouse(MouseEvent { state: MouseState::Released(button), positioned: false })
}

fn pressed(key: Key) -> Event {
    Event::Keyboard(KeyboardEvent {
        key,
        state: KeyboardState::Pressed,
        modifiers: Modifiers { shift: false, control: false, alt: false, supermeta: false },
    })
}

#[test]
fn colors() {
    assert_eq!(hardware::surface(), Color(22, 22, 32, 255));
    assert_eq!(accent_dim(), Color(99, 102, 241, 60));
    assert_eq!(accent_act(), Color(99, 102, 241, 200));
    assert_eq!(white_hi(), Color(255, 255, 255, 230));
    assert_eq!(white_dim(), Color(255, 255, 255, 80));
    assert_eq!(white_mid(), Color(255, 255, 255, 160));
    assert_eq!(btn_bg(), Color(30, 30, 46, 255));
    assert_eq!(photo_border(), Color(255, 255, 255, 14));
}

#[test]
fn media_panels_show_their_kind() {
    let mut camera = MediaPanel::new(MediaPanelKind::Camera);
    assert_eq!(camera.border, accent_dim());
    assert_eq!(camera.placeholder, Some(hardware::surface()));
    assert!(!camera.showing);
    assert!(!camera.on_event(&Event::PickedPhoto));
    assert_eq!(camera.placeholder, Some(Color(22, 22, 32, 255)));
    assert!(camera.on_event(&Event::CameraFrame));
    assert!(camera.placeholder.is_none() && camera.showing);
    let mut photo = MediaPanel::new(MediaPanelKind::Photo);
    assert_eq!(photo.border, photo_border());
    assert!(!photo.on_event(&Event::CameraFrame));
    assert!(photo.on_event(&Event::PickedPhoto));
    assert!(photo.showing);
}

#[test]
fn camera_button_toggles_camera() {
    let mut b = Btn::new(BtnMode::Camera);
    assert!(b.has_camera());
    assert!(b.on_event(&release(MouseButton::Right)).is_none());
    assert!(b.on_event(&release_elsewhere(MouseButton::Left)).is_none());
    assert!(!b.active);
    let first = b.on_event(&release(MouseButton::Left)).unwrap();
    assert_eq!(first.camera, CameraCommand::Start);
    assert!(first.argument);
    assert_eq!(first.background, accent_act());
    assert!(b.active);
    let second = b.on_event(&release(MouseButton::Left)).unwrap();
    assert_eq!(second.camera, CameraCommand::Stop);
    assert!(!second.argument);
    assert_eq!(second.background, btn_bg());
    assert_eq!(b, Btn::new(BtnMode::Camera));
}

#[test]
fn impulse_button_fires() {
    let mut b = Btn::new(BtnMode::Impulse);
    assert!(!b.has_camera());
    let p = b.on_event(&release(MouseButton::Left)).unwrap();
    assert_eq!(p.camera, CameraCommand::Keep);
    assert!(!p.argument);
    assert_eq!(p.background, btn_bg());
    assert!(!b.active);
    assert!(b.on_event(&Event::Tick).is_none());
}

#[test]
fn action_rows_and_paste() {
    assert_eq!(value_color("—"), white_dim());
    assert_eq!(value_color("RAMP DEMO CHECK IT!"), white_hi());
    assert_eq!(value_color("-"), white_hi());
    let mut row = ActionRow::new("\u{f0ea}", "Paste: ", "—");
    assert_eq!(row.value_color, white_dim());
    assert_eq!(row.label_color, white_mid());
    assert_eq!(row.icon, "\u{f0ea}");
    assert_eq!(row.icon_color, Color(255, 255, 255, 160));
    assert_eq!(row.background, Color(30, 30, 46, 255));
    assert!(row.on_event(&release(MouseButton::Left)));
    assert!(!row.on_event(&release(MouseButton::Right)));
    assert!(!row.on_event(&release_elsewhere(MouseButton::Left)));
    assert!(!row.on_event(&Event::Tick));
    row.show(None);
    assert_eq!(row.value, "—");
    row.show(pasted(Some("clip".to_string())));
    assert_eq!(row.label, "Pasted: ");
    assert_eq!(row.value, "clip");
    assert_eq!(row.value_color, white_hi());
    assert_eq!(row.icon, "\u{f0ea}");
    assert_eq!(row.background, btn_bg());
    assert!(pasted(None).is_none());
}

#[test]
fn shared_callbacks() {
    let cb: Cb<dyn Fn(u32) -> u32> = Cb(std::sync::Arc::new(|x| x + 1));
    let other = cb.clone();
    assert_eq!((*other)(1), 2);
    assert!(std::sync::Arc::ptr_eq(&cb.0, &other.0));
}

#[test]
fn ui_panels_and_status() {
    let mut c = ui::MediaPanel::camera();
    assert_eq!(c.kind, ui::MediaPanelKind::Camera);
    assert_eq!(c.border, accent_dim());
    assert_eq!(c.placeholder, Some(hardware::surface()));
    assert!(c.on_event(&Event::CameraFrame));
    assert!(c.placeholder.is_none());
    let p = ui::MediaPanel::photo();
    assert_eq!(p.border, Color(255, 255, 255, 14));
    let mut s = ui::StatusBar::new();
    assert_eq!(s.text, "Ready");
    assert_eq!(s.color, white_dim());
    s.set_message("Copied".to_string());
    assert_eq!(s.color, white_hi());
    s.set_ok("Done".to_string());
    assert_eq!((s.text.as_str(), s.color), ("Done", Color(134, 239, 172, 230)));
    s.set_warn("Careful".to_string());
    assert_eq!(s.color, Color(251, 191, 36, 230));
    s.reset();
    assert_eq!(s, ui::StatusBar::new());
}

#[test]
fn ui_buttons() {
    let mut t = ui::Btn::new(true);
    let p = t.on_event(&release(MouseButton::Middle)).unwrap();
    assert!(p.argument && t.active);
    assert_eq!(p.background, accent_act());
    let mut plain = ui::Btn::new(false);
    let q = plain.on_event(&release(MouseButton::Left)).unwrap();
    assert!(!q.argument && !plain.active);
    assert!(plain.on_event(&Event::Tick).is_none());
    assert!(t.on_event(&release_elsewhere(MouseButton::Left)).is_none());
    assert!(t.active);
}

#[test]
fn switcher_cycles() {
    let mut app = App { names: vec!["hardware".to_string(), "chat".to_string()], current: 0 };
    assert_eq!(app.on_event(&pressed(Key::Right)), Some(1));
    assert_eq!(app.on_event(&pressed(Key::Left)), Some(0));
    assert_eq!(app.on_event(&pressed(Key::Up)), None);
    assert_eq!(app.current, 0);
    assert_eq!(app.on_event(&Event::Tick), None);
}

#[test]
fn copy_paste_panel() {
    let mut panel = hardware::CopyPastePanel::new("RAMP DEMO CHECK IT!");
    assert_eq!(panel.copy.icon, "\u{f0c5}");
    assert_eq!(panel.paste.icon, "\u{f0ea}");
    assert_eq!(panel.copy.background, btn_bg());
    assert_eq!(panel.paste.background, btn_bg());
    assert_eq!(panel.copy.label, "Copy: ");
    assert_eq!(panel.copy.value, "RAMP DEMO CHECK IT!");
    assert_eq!(panel.copy.value_color, white_hi());
    assert_eq!(panel.paste.label, "Paste: ");
    assert_eq!(panel.paste.value, "—");
    assert_eq!(panel.paste.value_color, white_dim());
    assert_eq!(panel.copy_pressed(), "RAMP DEMO CHECK IT!");
    panel.paste_pressed(None);
    assert_eq!(panel.paste.value, "—");
    panel.paste_pressed(Some("from clipboard".to_string()));
    assert_eq!(panel.paste.label, "Pasted: ");
    assert_eq!(panel.paste.value, "from clipboard");
    assert_eq!(panel.paste.value_color, white_hi());
    assert_eq!(panel.paste.icon, "\u{f0ea}");
    assert_eq!(panel.copy.value, "RAMP DEMO CHECK IT!");
}

#[test]
fn hardware_app_layout() {
    let app = hardware::App::new();
    assert_eq!(app.panels.camera, MediaPanel::new(MediaPanelKind::Camera));
    assert_eq!(app.panels.photo.kind, MediaPanelKind::Photo);
    assert_eq!(app.panels.photo.placeholder, Some(hardware::surface()));
    assert_eq!(app.toolbar.camera.content.glyph, "\u{f03d}");
    assert_eq!(app.toolbar.camera.content.label, "Camera");
    assert_eq!(app.toolbar.camera.content.color, white_mid());
    assert_eq!(app.toolbar.camera.state, Btn::camera());
    assert_eq!(app.toolbar.camera.action, hardware::BtnAction::Nothing);
    assert_eq!(app.toolbar.buttons.len(), 2);
    assert_eq!(app.toolbar.buttons[0].content.label, "Photo");
    assert_eq!(app.toolbar.buttons[0].content.glyph, "\u{f03e}");
    assert_eq!(app.toolbar.buttons[0].action, hardware::BtnAction::PickPhoto);
    assert_eq!(app.toolbar.buttons[1].content.label, "Share");
    assert_eq!(app.toolbar.buttons[1].content.glyph, "\u{f1e0}");
    assert_eq!(app.toolbar.buttons[1].state, Btn::impulse());
    assert_eq!(
        app.toolbar.buttons[1].action,
        hardware::BtnAction::ShareSocial("RAMP DEMO CHECK IT!".to_string())
    );
    assert_eq!(app.copy_paste, hardware::CopyPastePanel::new("RAMP DEMO CHECK IT!"));
    let panels: hardware::MediaPanels = Default::default();
    assert_eq!(panels.photo, MediaPanel::new(MediaPanelKind::Photo));
}

#[test]
fn button_constructors() {
    assert_eq!(Btn::camera(), Btn::new(BtnMode::Camera));
    assert_eq!(Btn::impulse(), Btn::new(BtnMode::Impulse));
    assert!(!Btn::camera().active);
}
