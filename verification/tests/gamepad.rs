use tello_ui::gamepad::{
    Axes, Buttons, EventType, GamepadStateUpdater, JsEvent, parse_js_event, xbox_mapping,
    JOY_AXIS_MIN_VALUE,
};

#[test]
fn initial_state_snapshot() {
    let updater = GamepadStateUpdater::new(xbox_mapping());
    let s = updater.get();
    assert!(!s.a());
    assert!(!s.b());
    assert!(!s.x());
    assert!(!s.y());
    assert!(!s.rb());
    assert!(!s.lb());
    assert!(!s.start());
    assert!(!s.select());
    assert_eq!(JOY_AXIS_MIN_VALUE, s.axis(Axes::LT));
    assert_eq!(JOY_AXIS_MIN_VALUE, s.axis(Axes::RT));
    assert_eq!(0, s.axis(Axes::LX));
    assert_eq!(0, s.axis(Axes::LY));
    assert_eq!(0, s.axis(Axes::RX));
    assert_eq!(0, s.axis(Axes::RY));
    assert_eq!(0, s.axis(Axes::Horiz));
    assert_eq!(0, s.axis(Axes::Vert));
}

#[test]
fn parse_js_event_fields() {
    let bytes = vec![0x01, 0x02, 0x03, 0x04, 0xFF, 0x7F, 0x01, 0x05];
    let evt = parse_js_event(&bytes);
    assert_eq!(0x04030201, evt.time);
    assert_eq!(32767, evt.value);
    assert_eq!(EventType::JsEventButton, evt.kind);
    assert_eq!(5, evt.number);
}

#[test]
fn parse_js_event_negative_value() {
    let bytes = vec![0, 0, 0, 0, 0x01, 0x80, 0x02, 0x03];
    let evt = parse_js_event(&bytes);
    assert_eq!(-32767, evt.value);
    assert_eq!(EventType::JsEventAxis, evt.kind);
    assert_eq!(3, evt.number);
}

#[test]
fn parse_js_event_init_and_unknown() {
    let evt = parse_js_event(&vec![0, 0, 0, 0, 0, 0, 0x81, 0]);
    assert_eq!(EventType::JsEventButtonInit, evt.kind);
    let evt = parse_js_event(&vec![0, 0, 0, 0, 0, 0, 0x82, 0]);
    assert_eq!(EventType::JsEventAxesInit, evt.kind);
    let evt = parse_js_event(&vec![0, 0, 0, 0, 0, 0, 0x40, 0]);
    assert_eq!(EventType::JsEventUknown, evt.kind);
}

#[test]
fn update_button_and_click_edge() {
    let mut updater = GamepadStateUpdater::new(xbox_mapping());
    // press the right bumper: device button number 5
    updater.update(&JsEvent { time: 0, value: 1, kind: EventType::JsEventButton, number: 5 });
    let held = updater.get();
    assert!(held.rb());
    assert!(!held.lb());
    // a click is the release edge
    assert!(!held.button_clicked(Buttons::RB, &held));
    updater.update(&JsEvent { time: 1, value: 0, kind: EventType::JsEventButton, number: 5 });
    let released = updater.get();
    assert!(!released.rb());
    assert!(released.button_clicked(Buttons::RB, &held));
    assert!(!released.button_clicked(Buttons::LB, &held));
}

#[test]
fn update_axis_through_mapping() {
    let mut updater = GamepadStateUpdater::new(xbox_mapping());
    // device axis number 3 drives the right stick's horizontal axis
    updater.update(&JsEvent { time: 0, value: 1234, kind: EventType::JsEventAxis, number: 3 });
    let s = updater.get();
    assert_eq!(1234, s.axis(Axes::RX));
    assert_eq!(0, s.axis(Axes::RY));
}

#[test]
fn update_ignores_unmapped_and_init_events() {
    let mut updater = GamepadStateUpdater::new(xbox_mapping());
    updater.update(&JsEvent { time: 0, value: 1, kind: EventType::JsEventButton, number: 200 });
    updater.update(&JsEvent { time: 0, value: 77, kind: EventType::JsEventAxis, number: 200 });
    updater.update(&JsEvent { time: 0, value: 1, kind: EventType::JsEventButtonInit, number: 0 });
    updater.update(&JsEvent { time: 0, value: 1, kind: EventType::JsEventAxesInit, number: 0 });
    updater.update(&JsEvent { time: 0, value: 1, kind: EventType::JsEventUknown, number: 0 });
    let s = updater.get();
    assert!(!s.a());
    assert_eq!(0, s.axis(Axes::LX));
    assert_eq!(JOY_AXIS_MIN_VALUE, s.axis(Axes::LT));
}

#[test]
fn xbox_mapping_start_select_order() {
    // the XBox layout wires device button 6 to START and 7 to SELECT
    let mut updater = GamepadStateUpdater::new(xbox_mapping());
    updater.update(&JsEvent { time: 0, value: 1, kind: EventType::JsEventButton, number: 6 });
    let s = updater.get();
    assert!(s.start());
    assert!(!s.select());
}
