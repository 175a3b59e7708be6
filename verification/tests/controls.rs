use camera_controller::controls::controls_text;
use camera_controller::input::{KeyBinding, KeyBindings};

#[test]
fn text_for_the_default_bindings() {
    let text = controls_text(&KeyBindings::default());
    assert_eq!(
        text,
        "Camera controls\n\
         forward: W\n\
         back: S\n\
         left: A\n\
         right: D\n\
         up: E\n\
         down: Q\n\
         run: Shift\n\
         toggle cursor: M\n\
         toggle mode: O\n\
         zoom: scroll wheel\n"
    );
}

#[test]
fn text_names_every_bound_action() {
    let bindings = KeyBindings {
        forward: KeyBinding::new(1, "Arrow Up"),
        back: KeyBinding::new(2, "Arrow Down"),
        left: KeyBinding::new(3, "Arrow Left"),
        right: KeyBinding::new(4, "Arrow Right"),
        up: KeyBinding::new(5, "Page Up"),
        down: KeyBinding::new(6, "Page Down"),
        run: KeyBinding::new(7, "Control"),
        toggle_cursor: KeyBinding::new(8, "Escape"),
        toggle_mode: KeyBinding::new(9, "Tab"),
    };
    let text = controls_text(&bindings);
    for line in [
        "forward: Arrow Up\n",
        "back: Arrow Down\n",
        "left: Arrow Left\n",
        "right: Arrow Right\n",
        "up: Page Up\n",
        "down: Page Down\n",
        "run: Control\n",
        "toggle cursor: Escape\n",
        "toggle mode: Tab\n",
        "zoom: scroll wheel\n",
    ] {
        assert!(text.contains(line), "{line}");
    }
    assert_eq!(text.lines().count(), 11);
}

#[test]
fn text_keeps_labels_as_they_are() {
    let bindings = KeyBindings {
        forward: KeyBinding::new(1, ""),
        back: KeyBinding::new(2, "é: ü"),
        ..KeyBindings::default()
    };
    let text = controls_text(&bindings);
    assert!(text.starts_with("Camera controls\nforward: \nback: é: ü\nleft: A\n"));
}

#[test]
fn main_items_are_at_the_crate_root() {
    let bindings = camera_controller::KeyBindings::default();
    let mut sampler = camera_controller::InputSampler::new(bindings.clone());
    let mut camera = camera_controller::CameraController::new(&camera_controller::CameraConfig::default());
    let snapshot = sampler.sample(&vec![camera_controller::RawEvent::KeyDown(87)]);
    let t = camera.update(&snapshot, 1_000_000);
    assert_eq!(t.position, camera_controller::Vec3::new(0, 0, 5_000_000));
    assert_eq!(camera.mode(), camera_controller::Mode::FreeFly);
    assert!(camera_controller::controls_text(&bindings).contains("forward: W"));
}
