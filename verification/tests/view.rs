use mackey::setup::{ServiceState, SetupState};
use mackey::view::{
    page_after_check, screen_for, status_labels, step_marker, toggle_resumes, wizard_steps, Page,
    Screen,
};

fn st(service: bool, installed: bool, enabled: bool) -> SetupState {
    SetupState {
        service_active: service,
        extension_installed: installed,
        extension_enabled: enabled,
    }
}

#[test]
fn incomplete_state_shows_wizard() {
    assert_eq!(screen_for(st(false, false, false)), Screen::Wizard);
    assert_eq!(screen_for(st(true, false, false)), Screen::Wizard);
    // Installed but not yet enabled (post-install, pre-relogin) is incomplete.
    assert_eq!(screen_for(st(true, true, false)), Screen::Wizard);
}

#[test]
fn complete_state_shows_ready() {
    assert_eq!(screen_for(st(true, true, true)), Screen::Ready);
}

#[test]
fn step_done_flags_track_state() {
    let steps = wizard_steps(st(true, false, false));
    assert!(steps[0].done, "service step done when service active");
    assert!(!steps[1].done, "install step pending when not installed");
    assert!(!steps[2].done, "enable step pending when not enabled");

    let steps = wizard_steps(st(false, true, false));
    assert!(!steps[0].done);
    assert!(steps[1].done, "install step done when installed");
    assert!(!steps[2].done, "enable step still pending until enabled");

    let steps = wizard_steps(st(false, true, true));
    assert!(steps[2].done, "enable step done when enabled");
}

#[test]
fn wizard_has_three_single_command_steps() {
    let steps = wizard_steps(st(false, false, false));
    assert_eq!(steps.len(), 3);
    assert!(steps.iter().all(|s| s.commands.len() == 1));
    assert!(steps[1].commands[0].starts_with("gnome-extensions install"));
    assert_eq!(
        steps[2].commands[0],
        "gnome-extensions enable mackey@mackey.app"
    );
}

// ---------------------------------------------------------------------------
// Further cases
// ---------------------------------------------------------------------------

#[test]
fn enabled_without_service_is_not_ready() {
    assert_eq!(screen_for(st(false, true, true)), Screen::Wizard);
    // Enabled implies installed for completion purposes.
    assert_eq!(screen_for(st(true, false, true)), Screen::Ready);
}

#[test]
fn step_titles_and_commands() {
    let steps = wizard_steps(st(false, false, false));
    assert_eq!(steps[0].title, "Start the mackey service");
    assert_eq!(
        steps[0].commands,
        &["sudo systemctl enable --now mackey.service"]
    );
    assert_eq!(steps[1].title, "Install the GNOME extension");
    assert_eq!(
        steps[2].title,
        "Log out, log back in, then enable the extension"
    );
    assert!(steps.iter().all(|s| !s.explanation.is_empty()));
}

#[test]
fn status_view_labels_follow_the_daemon_state() {
    assert_eq!(
        status_labels(ServiceState::Active),
        ("mackey is active", "Pause")
    );
    assert_eq!(
        status_labels(ServiceState::Paused),
        ("mackey is paused", "Resume")
    );
    assert_eq!(
        status_labels(ServiceState::Failed),
        ("mackey failed to start", "Resume")
    );
}

#[test]
fn toggle_pauses_only_an_active_daemon() {
    assert!(!toggle_resumes(ServiceState::Active));
    assert!(toggle_resumes(ServiceState::Paused));
    assert!(toggle_resumes(ServiceState::Failed));
}

#[test]
fn step_markers() {
    assert_eq!(step_marker(true), "✓");
    assert_eq!(step_marker(false), "○");
}

#[test]
fn status_view_sticks_once_shown() {
    assert_eq!(page_after_check(false, Screen::Wizard), Page::Wizard);
    assert_eq!(page_after_check(false, Screen::Ready), Page::Status);
    assert_eq!(page_after_check(true, Screen::Wizard), Page::Status);
    assert_eq!(page_after_check(true, Screen::Ready), Page::Status);
}
