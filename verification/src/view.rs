//! The wizard's view model: what the window shows for a setup state and a
//! daemon state, free of any toolkit.

use crate::setup::{complete, ServiceState, SetupState};
use vstd::prelude::*;

verus! {

/// Which screen the window displays.
#[derive(Debug, Clone, Copy, PartialEq, Eq)]
pub enum Screen {
    /// One or more prerequisites are unmet: show the setup steps.
    Wizard,
    /// Everything is satisfied: show the status screen.
    Ready,
}

/// The screen for a given state: ready once both prerequisites are met.
pub open spec fn screen_of(state: SetupState) -> Screen {
    if complete(state) {
        Screen::Ready
    } else {
        Screen::Wizard
    }
}

/// The screen to show for a given state.
pub fn screen_for(state: SetupState) -> (r: Screen)
    ensures
        r == screen_of(state),
{
    if state.is_complete() {
        Screen::Ready
    } else {
        Screen::Wizard
    }
}

/// One prerequisite the wizard walks the user through. The wizard only ever
/// shows `commands`; it never runs them.
pub struct WizardStep {
    pub title: &'static str,
    pub explanation: &'static str,
    pub commands: &'static [&'static str],
    pub done: bool,
}

/// The three setup steps, each flagged done/pending from the current state.
/// Install and enable are separate steps because GNOME on Wayland only loads
/// a newly installed extension after a re-login, so it cannot be enabled in
/// the same session it was installed.
pub fn wizard_steps(state: SetupState) -> (r: Vec<WizardStep>)
    ensures
        r@.len() == 3,
        r@[0].title@ == "Start the mackey service"@,
        r@[0].explanation@ == "Runs the background daemon that remaps your keys. It is \
                               installed but not started automatically."@,
        r@[0].commands@.len() == 1,
        r@[0].commands@[0]@ == "sudo systemctl enable --now mackey.service"@,
        r@[0].done == state.service_active,
        r@[1].title@ == "Install the GNOME extension"@,
        r@[1].explanation@ == "Adds the extension that lets mackey see which application \
                               is focused so it can apply per-app shortcuts."@,
        r@[1].commands@.len() == 1,
        r@[1].commands@[0]@
            == "gnome-extensions install /usr/share/mackey/gnome-extension/mackey@mackey.app.shell-extension.zip"@,
        r@[1].done == state.extension_installed,
        r@[2].title@ == "Log out, log back in, then enable the extension"@,
        r@[2].explanation@ == "GNOME on Wayland only loads a newly installed extension \
                               after you log out and back in. Once you're back, run this \
                               to turn it on."@,
        r@[2].commands@.len() == 1,
        r@[2].commands@[0]@ == "gnome-extensions enable mackey@mackey.app"@,
        r@[2].done == state.extension_enabled,
{
    let mut steps: Vec<WizardStep> = Vec::new();
    steps.push(
        WizardStep {
            title: "Start the mackey service",
            explanation: "Runs the background daemon that remaps your keys. It is \
                          installed but not started automatically.",
            commands: &["sudo systemctl enable --now mackey.service"],
            done: state.service_active,
        },
    );
    steps.push(
        WizardStep {
            title: "Install the GNOME extension",
            explanation: "Adds the extension that lets mackey see which application \
                          is focused so it can apply per-app shortcuts.",
            commands: &[
                "gnome-extensions install /usr/share/mackey/gnome-extension/mackey@mackey.app.shell-extension.zip",
            ],
            done: state.extension_installed,
        },
    );
    steps.push(
        WizardStep {
            title: "Log out, log back in, then enable the extension",
            explanation: "GNOME on Wayland only loads a newly installed extension \
                          after you log out and back in. Once you're back, run this \
                          to turn it on.",
            commands: &["gnome-extensions enable mackey@mackey.app"],
            done: state.extension_enabled,
        },
    );
    steps
}

/// The marker shown before a step's title: a check mark once done, a circle
/// while pending.
pub fn step_marker(done: bool) -> (r: &'static str)
    ensures
        r@ == if done {
            "✓"@
        } else {
            "○"@
        },
{
    if done {
        "✓"
    } else {
        "○"
    }
}

/// The status line and the toggle's label for a daemon state.
pub fn status_labels(state: ServiceState) -> (r: (&'static str, &'static str))
    ensures
        r.0@ == match state {
            ServiceState::Active => "mackey is active"@,
            ServiceState::Paused => "mackey is paused"@,
            ServiceState::Failed => "mackey failed to start"@,
        },
        r.1@ == match state {
            ServiceState::Active => "Pause"@,
            _ => "Resume"@,
        },
{
    match state {
        ServiceState::Active => ("mackey is active", "Pause"),
        ServiceState::Paused => ("mackey is paused", "Resume"),
        ServiceState::Failed => ("mackey failed to start", "Resume"),
    }
}

/// What the toggle does from a daemon state: resume (`true`) unless the daemon
/// is active, in which case pause (`false`).
pub fn toggle_resumes(state: ServiceState) -> (r: bool)
    ensures
        r == !(state is Active),
{
    match state {
        ServiceState::Active => false,
        _ => true,
    }
}

/// The page the window shows.
#[derive(Debug, Clone, Copy, PartialEq, Eq)]
pub enum Page {
    Wizard,
    Status,
}

/// The page after a re-check: the status view once settled or ready.
pub open spec fn page_of(settled: bool, screen: Screen) -> Page {
    if settled || screen is Ready {
        Page::Status
    } else {
        Page::Wizard
    }
}

/// The page to show after a periodic re-check. Once the status view has been
/// shown (`settled`), it stays for the session; otherwise the detected screen
/// decides.
pub fn page_after_check(settled: bool, screen: Screen) -> (r: Page)
    ensures
        r == page_of(settled, screen),
{
    if settled {
        return Page::Status;
    }
    match screen {
        Screen::Ready => Page::Status,
        Screen::Wizard => Page::Wizard,
    }
}

/// Once the status view has been shown, no re-check brings the wizard back
/// in the session, whatever the detected state.
pub proof fn law_status_view_sticks(state: SetupState)
    ensures
        page_of(true, screen_of(state)) == Page::Status,
        page_of(false, screen_of(state)) == (if complete(state) {
            Page::Status
        } else {
            Page::Wizard
        }),
{
}

/// The setup is complete, and the status screen shown, exactly when the
/// service is active and the extension is enabled; whether the extension is
/// installed decides nothing on its own.
pub proof fn law_ready_needs_service_and_extension(state: SetupState, installed: bool)
    ensures
        complete(state) == (state.service_active && state.extension_enabled),
        (screen_of(state) is Ready) <==> (state.service_active && state.extension_enabled),
        (screen_of(state) is Wizard) <==> (!state.service_active || !state.extension_enabled),
        screen_of(state) == screen_of(SetupState { extension_installed: installed, ..state }),
{
}

} // verus!
