use mackey::focus::{caller_authorized, FocusState, StaleWatch, STALE_MS};

#[test]
fn focus_state_selects_app_keymap_then_falls_back_when_stale() {
    let mut s = FocusState::new();
    // Nothing reported yet -> global.
    assert_eq!(s.active_keymap(0).id, "global");

    // Report Firefox at t=1000 -> Firefox keymap holds within the window.
    s.update("firefox.desktop".to_string(), 1_000);
    assert_eq!(s.active_keymap(1_000).id, "firefox.desktop");
    assert_eq!(s.active_keymap(1_000 + STALE_MS).id, "firefox.desktop");
    assert!(!s.is_stale(1_000 + STALE_MS));

    // One ms past the window -> stale -> global.
    assert!(s.is_stale(1_000 + STALE_MS + 1));
    assert_eq!(s.active_keymap(1_000 + STALE_MS + 1).id, "global");

    // A fresh report revives the app keymap.
    s.update("com.mitchellh.ghostty.desktop".to_string(), 20_000);
    assert_eq!(s.active_keymap(20_100).id, "com.mitchellh.ghostty.desktop");
}

#[test]
fn app_id_reports_the_last_report_even_when_stale() {
    let mut s = FocusState::new();
    assert_eq!(s.app_id(), None);
    s.update("firefox.desktop".to_string(), 0);
    assert_eq!(s.app_id(), Some("firefox.desktop"));
    assert!(s.is_stale(1_000_000));
    assert_eq!(s.app_id(), Some("firefox.desktop"));
}

#[test]
fn a_clock_behind_the_report_is_not_stale() {
    let mut s = FocusState::new();
    s.update("firefox.desktop".to_string(), 10_000);
    assert!(!s.is_stale(0));
    assert_eq!(s.active_keymap(0).id, "firefox.desktop");
}

#[test]
fn accepted_reports_say_what_changed() {
    let mut s = FocusState::new();
    let r = s.accept_report("firefox.desktop".to_string(), 100);
    assert!(r.focus_changed);
    assert_eq!(r.previous_keymap, "global");
    assert_eq!(r.active_keymap, "firefox.desktop");
    assert!(r.keymap_switched);

    // A heartbeat for the same app changes nothing.
    let r = s.accept_report("firefox.desktop".to_string(), 2_000);
    assert!(!r.focus_changed);
    assert!(!r.keymap_switched);

    // An app without its own keymap after a stale period: focus changed, but
    // the keymap was already global.
    let r = s.accept_report("unknown.desktop".to_string(), 100_000);
    assert!(r.focus_changed);
    assert_eq!(r.previous_keymap, "global");
    assert_eq!(r.active_keymap, "global");
    assert!(!r.keymap_switched);
    assert_eq!(s.app_id(), Some("unknown.desktop"));
}

#[test]
fn only_the_seat_user_is_authorized() {
    assert!(caller_authorized(Some(1000), Some(1000)));
    assert!(!caller_authorized(Some(1000), Some(1001)));
    assert!(!caller_authorized(Some(1000), None));
    assert!(!caller_authorized(None, Some(1000)));
    assert!(!caller_authorized(None, None));
}

#[test]
fn stale_warning_is_given_once_per_stale_period() {
    let mut w = StaleWatch::new();
    assert!(!w.observe(false));
    assert!(w.observe(true));
    assert!(!w.observe(true));
    assert!(!w.observe(true));
    assert!(!w.observe(false));
    assert!(w.observe(true));
}
