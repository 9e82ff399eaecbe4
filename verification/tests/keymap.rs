use evdev::KeyCode;
use mackey::keymap::{
    KEY_F, KEY_N, KEY_O, KEY_Q, KEY_S, KEY_W, KEY_X, KEY_Z,
    files_keymap, firefox_keymap, ghostty_keymap, global_keymap, gnome_terminal_keymap, is_meta,
    keymap_for, KeyEvent, Keymap, KeymapEngine, KEY_A, KEY_C, KEY_LEFT, KEY_RIGHT, KEY_T, KEY_UP,
    KEY_V, LEFTALT, LEFTCTRL, LEFTMETA, LEFTSHIFT, RIGHTMETA,
};

fn drive(engine: &mut KeymapEngine, keymap: &Keymap, events: &[(u16, i32)]) -> Vec<KeyEvent> {
    events
        .iter()
        .flat_map(|&(c, v)| engine.process(c, v, keymap))
        .collect()
}

/// Not in any mapped set.
const KEY_L: u16 = 38;

#[test]
fn super_plus_mapped_key_becomes_ctrl() {
    let mut e = KeymapEngine::new();
    let out = drive(
        &mut e,
        &global_keymap(),
        &[(LEFTMETA, 1), (KEY_C, 1), (KEY_C, 0), (LEFTMETA, 0)],
    );
    assert_eq!(
        out,
        vec![
            KeyEvent::new(LEFTCTRL, 1),
            KeyEvent::new(KEY_C, 1),
            KeyEvent::new(KEY_C, 0),
            KeyEvent::new(LEFTCTRL, 0),
        ]
    );
}

#[test]
fn every_global_letter_is_rewritten_to_ctrl() {
    let global = global_keymap();
    for (k, _) in global.entries.iter() {
        let k = *k;
        let mut e = KeymapEngine::new();
        let out = drive(
            &mut e,
            &global,
            &[(LEFTMETA, 1), (k, 1), (k, 0), (LEFTMETA, 0)],
        );
        assert_eq!(
            out,
            vec![
                KeyEvent::new(LEFTCTRL, 1),
                KeyEvent::new(k, 1),
                KeyEvent::new(k, 0),
                KeyEvent::new(LEFTCTRL, 0),
            ],
            "mapping for key code {k}"
        );
    }
}

#[test]
fn lone_super_tap_passes_through_on_release() {
    let mut e = KeymapEngine::new();
    let out = drive(&mut e, &global_keymap(), &[(LEFTMETA, 1), (LEFTMETA, 0)]);
    assert_eq!(
        out,
        vec![KeyEvent::new(LEFTMETA, 1), KeyEvent::new(LEFTMETA, 0)]
    );
}

#[test]
fn super_plus_unmapped_key_keeps_super() {
    let mut e = KeymapEngine::new();
    let out = drive(
        &mut e,
        &global_keymap(),
        &[(LEFTMETA, 1), (KEY_L, 1), (KEY_L, 0), (LEFTMETA, 0)],
    );
    assert_eq!(
        out,
        vec![
            KeyEvent::new(LEFTMETA, 1),
            KeyEvent::new(KEY_L, 1),
            KeyEvent::new(KEY_L, 0),
            KeyEvent::new(LEFTMETA, 0),
        ]
    );
}

#[test]
fn right_super_is_also_recognized() {
    let mut e = KeymapEngine::new();
    let out = drive(
        &mut e,
        &global_keymap(),
        &[(RIGHTMETA, 1), (KEY_C, 1), (KEY_C, 0), (RIGHTMETA, 0)],
    );
    assert_eq!(out.first(), Some(&KeyEvent::new(LEFTCTRL, 1)));
    assert_eq!(out.last(), Some(&KeyEvent::new(LEFTCTRL, 0)));
}

/// With Super never held, every key event is passed through unchanged, for
/// all codes and all event values.
#[test]
fn no_super_is_identity_passthrough() {
    let mut e = KeymapEngine::new();
    let global = global_keymap();
    for code in 1u16..256 {
        if is_meta(code) {
            continue;
        }
        for value in [1, 2, 0] {
            let out = e.process(code, value, &global);
            assert_eq!(out, vec![KeyEvent::new(code, value)]);
        }
    }
}

#[test]
fn ghostty_copy_gets_ctrl_shift() {
    let mut e = KeymapEngine::new();
    let out = drive(
        &mut e,
        &ghostty_keymap(),
        &[(LEFTMETA, 1), (KEY_C, 1), (KEY_C, 0), (LEFTMETA, 0)],
    );
    assert_eq!(
        out,
        vec![
            KeyEvent::new(LEFTCTRL, 1),
            KeyEvent::new(LEFTSHIFT, 1),
            KeyEvent::new(KEY_C, 1),
            KeyEvent::new(KEY_C, 0),
            KeyEvent::new(LEFTSHIFT, 0),
            KeyEvent::new(LEFTCTRL, 0),
        ]
    );
}

#[test]
fn ghostty_non_shifted_letter_stays_plain_ctrl() {
    let mut e = KeymapEngine::new();
    let out = drive(
        &mut e,
        &ghostty_keymap(),
        &[(LEFTMETA, 1), (KEY_A, 1), (KEY_A, 0), (LEFTMETA, 0)],
    );
    assert_eq!(
        out,
        vec![
            KeyEvent::new(LEFTCTRL, 1),
            KeyEvent::new(KEY_A, 1),
            KeyEvent::new(KEY_A, 0),
            KeyEvent::new(LEFTCTRL, 0),
        ]
    );
}

#[test]
fn gnome_terminal_copy_gets_ctrl_shift() {
    let mut e = KeymapEngine::new();
    let out = drive(
        &mut e,
        &gnome_terminal_keymap(),
        &[(LEFTMETA, 1), (KEY_C, 1), (KEY_C, 0), (LEFTMETA, 0)],
    );
    assert_eq!(
        out,
        vec![
            KeyEvent::new(LEFTCTRL, 1),
            KeyEvent::new(LEFTSHIFT, 1),
            KeyEvent::new(KEY_C, 1),
            KeyEvent::new(KEY_C, 0),
            KeyEvent::new(LEFTSHIFT, 0),
            KeyEvent::new(LEFTCTRL, 0),
        ]
    );
}

/// Both terminals share the same convention table.
#[test]
fn gnome_terminal_matches_ghostty_convention() {
    assert_eq!(gnome_terminal_keymap().entries, ghostty_keymap().entries);
}

#[test]
fn firefox_arrows_get_alt() {
    let mut e = KeymapEngine::new();
    let out = drive(
        &mut e,
        &firefox_keymap(),
        &[(LEFTMETA, 1), (KEY_LEFT, 1), (KEY_LEFT, 0), (LEFTMETA, 0)],
    );
    assert_eq!(
        out,
        vec![
            KeyEvent::new(LEFTALT, 1),
            KeyEvent::new(KEY_LEFT, 1),
            KeyEvent::new(KEY_LEFT, 0),
            KeyEvent::new(LEFTALT, 0),
        ]
    );
}

/// Super+T differs by app: Ctrl+Shift+T in Ghostty, plain Ctrl+T in Firefox.
#[test]
fn same_key_differs_by_active_keymap() {
    let mut g = KeymapEngine::new();
    let ghostty = drive(
        &mut g,
        &ghostty_keymap(),
        &[(LEFTMETA, 1), (KEY_T, 1), (KEY_T, 0), (LEFTMETA, 0)],
    );
    let mut f = KeymapEngine::new();
    let firefox = drive(
        &mut f,
        &firefox_keymap(),
        &[(LEFTMETA, 1), (KEY_T, 1), (KEY_T, 0), (LEFTMETA, 0)],
    );
    assert!(ghostty.contains(&KeyEvent::new(LEFTSHIFT, 1)));
    assert!(!firefox.contains(&KeyEvent::new(LEFTSHIFT, 1)));
}

#[test]
fn keymap_for_resolves_known_apps_else_global() {
    assert_eq!(keymap_for(Some("firefox.desktop")).id, "firefox.desktop");
    assert_eq!(
        keymap_for(Some("org.gnome.Nautilus.desktop")).id,
        "org.gnome.Nautilus.desktop"
    );
    assert_eq!(
        keymap_for(Some("com.mitchellh.ghostty.desktop")).id,
        "com.mitchellh.ghostty.desktop"
    );
    assert_eq!(
        keymap_for(Some("org.gnome.Terminal.desktop")).id,
        "org.gnome.Terminal.desktop"
    );
    assert_eq!(keymap_for(Some("unknown.desktop")).id, "global");
    assert_eq!(keymap_for(None).id, "global");
}

// ---------------------------------------------------------------------------
// Further cases
// ---------------------------------------------------------------------------

#[test]
fn files_maps_up_to_alt_and_global_does_not() {
    let mut e = KeymapEngine::new();
    let out = drive(
        &mut e,
        &files_keymap(),
        &[(LEFTMETA, 1), (KEY_UP, 1), (KEY_UP, 0), (LEFTMETA, 0)],
    );
    assert_eq!(
        out,
        vec![
            KeyEvent::new(LEFTALT, 1),
            KeyEvent::new(KEY_UP, 1),
            KeyEvent::new(KEY_UP, 0),
            KeyEvent::new(LEFTALT, 0),
        ]
    );
    let mut g = KeymapEngine::new();
    let out = drive(
        &mut g,
        &global_keymap(),
        &[(LEFTMETA, 1), (KEY_UP, 1), (KEY_UP, 0), (LEFTMETA, 0)],
    );
    assert_eq!(
        out,
        vec![
            KeyEvent::new(LEFTMETA, 1),
            KeyEvent::new(KEY_UP, 1),
            KeyEvent::new(KEY_UP, 0),
            KeyEvent::new(LEFTMETA, 0),
        ]
    );
}

/// A second key wanting other modifiers within one Super hold releases the
/// unwanted ones and presses the missing ones.
#[test]
fn held_modifiers_are_reconciled_per_key() {
    let mut e = KeymapEngine::new();
    let out = drive(
        &mut e,
        &firefox_keymap(),
        &[
            (LEFTMETA, 1),
            (KEY_C, 1),
            (KEY_C, 0),
            (KEY_RIGHT, 1),
            (KEY_RIGHT, 0),
            (LEFTMETA, 0),
        ],
    );
    assert_eq!(
        out,
        vec![
            KeyEvent::new(LEFTCTRL, 1),
            KeyEvent::new(KEY_C, 1),
            KeyEvent::new(KEY_C, 0),
            KeyEvent::new(LEFTCTRL, 0),
            KeyEvent::new(LEFTALT, 1),
            KeyEvent::new(KEY_RIGHT, 1),
            KeyEvent::new(KEY_RIGHT, 0),
            KeyEvent::new(LEFTALT, 0),
        ]
    );
}

/// In a terminal, Ctrl+Shift then plain Ctrl within one hold keeps Ctrl held
/// and only releases Shift.
#[test]
fn terminal_shift_is_dropped_for_plain_ctrl_key() {
    let mut e = KeymapEngine::new();
    let out = drive(
        &mut e,
        &ghostty_keymap(),
        &[(LEFTMETA, 1), (KEY_V, 1), (KEY_V, 0), (KEY_A, 1), (KEY_A, 0), (LEFTMETA, 0)],
    );
    assert_eq!(
        out,
        vec![
            KeyEvent::new(LEFTCTRL, 1),
            KeyEvent::new(LEFTSHIFT, 1),
            KeyEvent::new(KEY_V, 1),
            KeyEvent::new(KEY_V, 0),
            KeyEvent::new(LEFTSHIFT, 0),
            KeyEvent::new(KEY_A, 1),
            KeyEvent::new(KEY_A, 0),
            KeyEvent::new(LEFTCTRL, 0),
        ]
    );
}

#[test]
fn super_autorepeat_is_ignored() {
    let mut e = KeymapEngine::new();
    let out = drive(
        &mut e,
        &global_keymap(),
        &[(LEFTMETA, 1), (LEFTMETA, 2), (LEFTMETA, 2), (LEFTMETA, 0)],
    );
    assert_eq!(
        out,
        vec![KeyEvent::new(LEFTMETA, 1), KeyEvent::new(LEFTMETA, 0)]
    );
}

/// The real Super is passed through once per hold, however many unmapped keys
/// follow, and a mapped key's autorepeat is passed as is.
#[test]
fn real_super_is_emitted_once_per_hold() {
    let mut e = KeymapEngine::new();
    let out = drive(
        &mut e,
        &global_keymap(),
        &[
            (RIGHTMETA, 1),
            (KEY_L, 1),
            (KEY_L, 0),
            (KEY_L, 1),
            (KEY_L, 2),
            (KEY_L, 0),
            (RIGHTMETA, 0),
        ],
    );
    assert_eq!(
        out,
        vec![
            KeyEvent::new(RIGHTMETA, 1),
            KeyEvent::new(KEY_L, 1),
            KeyEvent::new(KEY_L, 0),
            KeyEvent::new(KEY_L, 1),
            KeyEvent::new(KEY_L, 2),
            KeyEvent::new(KEY_L, 0),
            KeyEvent::new(RIGHTMETA, 0),
        ]
    );
}

#[test]
fn mods_for_finds_bindings() {
    let ghostty = ghostty_keymap();
    assert_eq!(ghostty.mods_for(KEY_C), Some(&vec![LEFTCTRL, LEFTSHIFT]));
    assert_eq!(ghostty.mods_for(KEY_A), Some(&vec![LEFTCTRL]));
    assert_eq!(ghostty.mods_for(KEY_L), None);
    assert_eq!(files_keymap().entries.len(), 13);
    assert_eq!(firefox_keymap().entries.len(), 14);
}

/// The key codes are those of the Linux input event interface, as evdev
/// names them.
#[test]
fn key_codes_match_evdev() {
    let pairs = [
        (LEFTMETA, KeyCode::KEY_LEFTMETA),
        (RIGHTMETA, KeyCode::KEY_RIGHTMETA),
        (LEFTCTRL, KeyCode::KEY_LEFTCTRL),
        (LEFTSHIFT, KeyCode::KEY_LEFTSHIFT),
        (LEFTALT, KeyCode::KEY_LEFTALT),
        (KEY_C, KeyCode::KEY_C),
        (KEY_V, KeyCode::KEY_V),
        (KEY_X, KeyCode::KEY_X),
        (KEY_A, KeyCode::KEY_A),
        (KEY_Z, KeyCode::KEY_Z),
        (KEY_S, KeyCode::KEY_S),
        (KEY_F, KeyCode::KEY_F),
        (KEY_N, KeyCode::KEY_N),
        (KEY_O, KeyCode::KEY_O),
        (KEY_W, KeyCode::KEY_W),
        (KEY_Q, KeyCode::KEY_Q),
        (KEY_T, KeyCode::KEY_T),
        (KEY_LEFT, KeyCode::KEY_LEFT),
        (KEY_RIGHT, KeyCode::KEY_RIGHT),
        (KEY_UP, KeyCode::KEY_UP),
        (KEY_L, KeyCode::KEY_L),
        (mackey::device::KEY_SPACE, KeyCode::KEY_SPACE),
    ];
    for (ours, theirs) in pairs {
        assert_eq!(ours, theirs.code());
    }
}

/// The real Super passed through for an unmapped key is released with Super
/// even when a mapped key pressed synthetic modifiers in the same hold.
#[test]
fn super_release_releases_both_modifiers_and_real_super() {
    let mut e = KeymapEngine::new();
    let out = drive(
        &mut e,
        &global_keymap(),
        &[
            (LEFTMETA, 1),
            (KEY_C, 1),
            (KEY_C, 0),
            (KEY_L, 1),
            (KEY_L, 0),
            (LEFTMETA, 0),
        ],
    );
    assert_eq!(
        out,
        vec![
            KeyEvent::new(LEFTCTRL, 1),
            KeyEvent::new(KEY_C, 1),
            KeyEvent::new(KEY_C, 0),
            KeyEvent::new(LEFTMETA, 1),
            KeyEvent::new(KEY_L, 1),
            KeyEvent::new(KEY_L, 0),
            KeyEvent::new(LEFTCTRL, 0),
            KeyEvent::new(LEFTMETA, 0),
        ]
    );
}

/// Pressing the other Super key while one is held keeps what the first hold
/// pressed; it is released when Super is released.
#[test]
fn second_super_press_keeps_held_modifiers_until_release() {
    let mut e = KeymapEngine::new();
    let global = global_keymap();
    let out = drive(
        &mut e,
        &global,
        &[(LEFTMETA, 1), (KEY_C, 1), (KEY_C, 0), (RIGHTMETA, 1)],
    );
    assert_eq!(
        out,
        vec![
            KeyEvent::new(LEFTCTRL, 1),
            KeyEvent::new(KEY_C, 1),
            KeyEvent::new(KEY_C, 0),
        ]
    );
    let out = drive(&mut e, &global, &[(RIGHTMETA, 0)]);
    assert_eq!(out, vec![KeyEvent::new(LEFTCTRL, 0)]);
    let out = drive(&mut e, &global, &[(LEFTMETA, 0)]);
    assert!(!out.contains(&KeyEvent::new(LEFTCTRL, 0)));
    assert!(!out.contains(&KeyEvent::new(LEFTCTRL, 1)));
}

/// A real Super passed through is released under its own code, even after
/// the other Super key was pressed.
#[test]
fn real_super_is_released_under_its_own_code() {
    let mut e = KeymapEngine::new();
    let global = global_keymap();
    let out = drive(
        &mut e,
        &global,
        &[(LEFTMETA, 1), (KEY_L, 1), (KEY_L, 0), (RIGHTMETA, 1)],
    );
    assert_eq!(
        out,
        vec![
            KeyEvent::new(LEFTMETA, 1),
            KeyEvent::new(KEY_L, 1),
            KeyEvent::new(KEY_L, 0),
        ]
    );
    let out = drive(&mut e, &global, &[(RIGHTMETA, 0)]);
    assert_eq!(out, vec![KeyEvent::new(LEFTMETA, 0)]);
}
