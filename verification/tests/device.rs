use evdev::{AttributeSet, BusType, EventType, InputEvent, KeyCode};
use mackey::device::{
    retry_open, OPEN_ATTEMPTS, OPEN_RETRY_DELAY_MS,
    is_event_node, should_grab, translate, virtual_keyboard_id, EV_KEY, VIRTUAL_KEYBOARD_NAME,
};
use mackey::keymap::{firefox_keymap, global_keymap, KeymapEngine, KEY_C, LEFTCTRL, LEFTMETA};
use mackey::{is_keyboard, FOCUS_TRACKER_NAME, FOCUS_TRACKER_PATH, UINPUT_PATH, VERSION};

#[test]
fn version_is_populated() {
    assert!(!VERSION.is_empty());
}

#[test]
fn full_keyboard_is_recognized() {
    let mut keys = AttributeSet::<KeyCode>::new();
    for k in [
        KeyCode::KEY_A,
        KeyCode::KEY_Z,
        KeyCode::KEY_SPACE,
        KeyCode::KEY_ENTER,
    ] {
        keys.insert(k);
    }
    assert!(is_keyboard(&keys));
}

#[test]
fn non_keyboard_devices_are_rejected() {
    // A consumer-control / volume surface: has keys, but not the core set.
    let mut keys = AttributeSet::<KeyCode>::new();
    keys.insert(KeyCode::KEY_VOLUMEUP);
    keys.insert(KeyCode::KEY_VOLUMEDOWN);
    assert!(!is_keyboard(&keys));

    // Missing just one required key is still not a keyboard.
    let mut almost = AttributeSet::<KeyCode>::new();
    almost.insert(KeyCode::KEY_A);
    almost.insert(KeyCode::KEY_Z);
    assert!(!is_keyboard(&almost));
}

/// The virtual keyboard must advertise the i8042 (PS/2) bus: that is what
/// makes libinput tag it an internal keyboard, so disable-while-typing keeps
/// working while the daemon holds the real keyboard grabbed.
#[test]
fn virtual_keyboard_is_on_the_i8042_bus() {
    assert_eq!(virtual_keyboard_id().bus_type(), BusType::BUS_I8042);
}

// ---------------------------------------------------------------------------
// Further cases
// ---------------------------------------------------------------------------

#[test]
fn virtual_keyboard_identity() {
    let id = virtual_keyboard_id();
    assert_eq!((id.vendor(), id.product(), id.version()), (1, 1, 1));
}

#[test]
fn only_real_keyboards_are_grabbed() {
    let mut keys = AttributeSet::<KeyCode>::new();
    for k in [KeyCode::KEY_A, KeyCode::KEY_Z, KeyCode::KEY_SPACE] {
        keys.insert(k);
    }
    assert!(should_grab(Some("AT Translated Set 2 keyboard"), Some(&keys)));
    assert!(should_grab(None, Some(&keys)));
    // Never our own output.
    assert!(!should_grab(Some(VIRTUAL_KEYBOARD_NAME), Some(&keys)));
    // No key capabilities at all.
    assert!(!should_grab(Some("mouse"), None));
    let mouse = AttributeSet::<KeyCode>::new();
    assert!(!should_grab(Some("mouse"), Some(&mouse)));
}

#[test]
fn event_nodes_are_recognized_by_name() {
    assert!(is_event_node("event0"));
    assert!(is_event_node("event17"));
    assert!(is_event_node("event"));
    assert!(!is_event_node("mouse0"));
    assert!(!is_event_node("by-id"));
    assert!(!is_event_node("even"));
    assert!(!is_event_node(""));
}

#[test]
fn ev_key_is_evdevs_key_event_type() {
    assert_eq!(EV_KEY, EventType::KEY.0);
}

#[test]
fn translate_rewrites_keys_and_passes_other_events() {
    let syn = InputEvent::new(EventType::SYNCHRONIZATION.0, 0, 0);
    let msc = InputEvent::new(EventType::MISC.0, 4, 458_758);
    let batch = [
        InputEvent::new(EV_KEY, LEFTMETA, 1),
        syn,
        msc,
        InputEvent::new(EV_KEY, KEY_C, 1),
        syn,
    ];
    let mut engine = KeymapEngine::new();
    let out = translate(&mut engine, &global_keymap(), &batch);
    let summary: Vec<(u16, u16, i32)> = out
        .iter()
        .map(|e| (e.event_type().0, e.code(), e.value()))
        .collect();
    assert_eq!(
        summary,
        vec![
            (EventType::SYNCHRONIZATION.0, 0, 0),
            (EventType::MISC.0, 4, 458_758),
            (EV_KEY, LEFTCTRL, 1),
            (EV_KEY, KEY_C, 1),
            (EventType::SYNCHRONIZATION.0, 0, 0),
        ]
    );
    // The engine state carries over to the next batch.
    let out = translate(
        &mut engine,
        &firefox_keymap(),
        &[InputEvent::new(EV_KEY, LEFTMETA, 0)],
    );
    assert_eq!(out.len(), 1);
    assert_eq!((out[0].code(), out[0].value()), (LEFTCTRL, 0));
}

#[test]
fn service_names() {
    assert_eq!(UINPUT_PATH, "/dev/uinput");
    assert_eq!(FOCUS_TRACKER_NAME, "app.mackey.FocusTracker");
    assert_eq!(FOCUS_TRACKER_PATH, "/app/mackey/FocusTracker");
}

#[test]
fn new_nodes_are_tried_ten_times() {
    assert_eq!((OPEN_ATTEMPTS, OPEN_RETRY_DELAY_MS), (10, 100));
    assert!(retry_open(0));
    assert!(retry_open(8));
    assert!(!retry_open(9));
    assert!(!retry_open(u32::MAX));
}
