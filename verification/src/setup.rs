//! Setup-state detection for the wizard.
//!
//! The wizard shows the prerequisites (the daemon running, the GNOME
//! extension installed and enabled) and reverts to a pending item whenever one
//! regresses. Detection runs `systemctl` and `gnome-extensions` through a
//! [`CommandRunner`], so it can be driven with canned output.

use crate::text::{has_line, has_trimmed_line, trim, trimmed_eq};
use vstd::prelude::*;
use vstd::string::StringExecFns;

verus! {

/// The UUID of the bundled GNOME Shell extension.
pub const EXTENSION_UUID: &'static str = "mackey@mackey.app";

/// The polkit-authorized helper that pauses/resumes the daemon.
pub const SERVICE_CONTROL: &'static str = "/usr/libexec/mackey-service-control";

/// Runs a command and returns its trimmed stdout. A command that fails to
/// spawn yields an empty string, which reads as "prerequisite not satisfied".
///
/// What a runner returns is its own affair (a real system, canned output, a
/// recording); the specification only names it, through `gives` and
/// `reports_path`, so that callers can say which command an output came
/// from. By default every output counts as given, so every runner meets the
/// clauses of `run` and `path_exists`; to a caller generic over the runner
/// the two relations are opaque.
pub trait CommandRunner {
    /// `out` is a stdout this runner gave for `program` run with `args`.
    open spec fn gives(&self, program: Seq<char>, args: Seq<Seq<char>>, out: Seq<char>) -> bool {
        true
    }

    /// `exists` is what this runner reported for `path`.
    open spec fn reports_path(&self, path: Seq<char>, exists: bool) -> bool {
        true
    }

    /// Run `program` with `args`; the result is what this runner gives for
    /// them.
    fn run(&self, program: &str, args: &[&str]) -> (r: String)
        ensures
            self.gives(program@, args@.map_values(|a: &str| a@), r@),
    ;

    /// Whether a filesystem path exists. Used to detect an installed (but
    /// not yet enabled) extension: `gnome-extensions install` unpacks it on
    /// disk immediately, whereas `gnome-extensions list` won't report it until
    /// the next login on Wayland.
    fn path_exists(&self, path: &str) -> (r: bool)
        ensures
            self.reports_path(path@, r),
    ;
}

/// The arguments of `systemctl` that ask whether the daemon runs.
pub open spec fn is_active_args() -> Seq<Seq<char>> {
    seq!["is-active"@, "mackey.service"@]
}

/// The arguments of `gnome-extensions` that list the enabled extensions.
pub open spec fn list_enabled_args() -> Seq<Seq<char>> {
    seq!["list"@, "--enabled"@]
}

/// The arguments of `pkexec` that pause (`running` false) or resume the
/// daemon through the service-control helper.
pub open spec fn service_control_args(running: bool) -> Seq<Seq<char>> {
    seq![
        SERVICE_CONTROL@,
        if running {
            "start"@
        } else {
            "stop"@
        },
    ]
}

/// Which prerequisites are currently satisfied.
#[derive(Debug, Clone, Copy, PartialEq, Eq)]
pub struct SetupState {
    pub service_active: bool,
    pub extension_installed: bool,
    pub extension_enabled: bool,
}

/// Both prerequisites are met. The extension being enabled implies it is
/// installed, so install is not a separate completion gate.
pub open spec fn complete(s: SetupState) -> bool {
    s.service_active && s.extension_enabled
}

impl SetupState {
    /// Both prerequisites met: the wizard hands off to the status view.
    pub fn is_complete(self) -> (r: bool)
        ensures
            r == complete(self),
    {
        self.service_active && self.extension_enabled
    }
}

/// The directory under a home directory where `gnome-extensions install`
/// unpacks the bundled extension.
pub open spec fn extension_dir_in(home: Seq<char>) -> Seq<char> {
    home + "/.local/share/gnome-shell/extensions/"@ + EXTENSION_UUID@
}

/// Where `gnome-extensions install` unpacks the bundled extension for the
/// user whose home directory is `home`.
pub fn extension_dir(home: &str) -> (r: String)
    ensures
        r@ == extension_dir_in(home@),
{
    let mut dir = home.to_owned();
    dir.append("/.local/share/gnome-shell/extensions/");
    dir.append(EXTENSION_UUID);
    dir
}

/// The setup state that the commands' outputs and the install directory's
/// presence show: `systemctl is-active` prints `active` only when the unit is
/// running; `gnome-extensions list --enabled` prints one UUID per line.
pub open spec fn setup_state_of(service_output: Seq<char>, enabled_output: Seq<char>, installed: bool) -> SetupState {
    SetupState {
        service_active: trim(service_output) == "active"@,
        extension_installed: installed,
        extension_enabled: has_trimmed_line(enabled_output, EXTENSION_UUID@),
    }
}

/// The setup state from the output of `systemctl is-active mackey.service`,
/// the output of `gnome-extensions list --enabled`, and whether the
/// extension's directory exists.
pub fn setup_state_from(service_output: &str, enabled_output: &str, installed: bool) -> (r:
    SetupState)
    ensures
        r == setup_state_of(service_output@, enabled_output@, installed),
{
    SetupState {
        service_active: trimmed_eq(service_output, "active"),
        extension_installed: installed,
        extension_enabled: has_line(enabled_output, EXTENSION_UUID),
    }
}

/// Detect the current setup state, for the user whose home directory is
/// `home`: the state that the runner's output of `systemctl is-active
/// mackey.service` and of `gnome-extensions list --enabled`, and its report
/// on the extension's directory under `home`, show.
pub fn detect<R: CommandRunner>(runner: &R, home: &str) -> (r: SetupState)
    ensures
        exists|service_output: Seq<char>, enabled_output: Seq<char>, installed: bool|
            #![trigger runner.gives("systemctl"@, is_active_args(), service_output), runner.gives("gnome-extensions"@, list_enabled_args(), enabled_output), runner.reports_path(extension_dir_in(home@), installed)]
            {
                &&& runner.gives("systemctl"@, is_active_args(), service_output)
                &&& runner.gives("gnome-extensions"@, list_enabled_args(), enabled_output)
                &&& runner.reports_path(extension_dir_in(home@), installed)
                &&& r == setup_state_of(service_output, enabled_output, installed)
            },
{
    let is_active: [&str; 2] = ["is-active", "mackey.service"];
    let list_enabled: [&str; 2] = ["list", "--enabled"];
    proof {
        reveal_strlit("is-active");
        reveal_strlit("mackey.service");
        reveal_strlit("list");
        reveal_strlit("--enabled");
        assert(is_active@.map_values(|a: &str| a@) =~= is_active_args());
        assert(list_enabled@.map_values(|a: &str| a@) =~= list_enabled_args());
    }
    let service = runner.run("systemctl", &is_active);
    let extensions = runner.run("gnome-extensions", &list_enabled);
    let dir = extension_dir(home);
    let installed = runner.path_exists(dir.as_str());
    let r = setup_state_from(service.as_str(), extensions.as_str(), installed);
    assert(runner.gives("systemctl"@, is_active_args(), service@));
    assert(runner.gives("gnome-extensions"@, list_enabled_args(), extensions@));
    assert(runner.reports_path(extension_dir_in(home@), installed));
    r
}

/// The daemon's runtime state, shown in the status view.
#[derive(Debug, Clone, Copy, PartialEq, Eq)]
pub enum ServiceState {
    Active,
    Paused,
    Failed,
}

/// The daemon state that `systemctl is-active` output shows: `active`,
/// `failed`, and anything else (e.g. `inactive`, `deactivating`) as paused.
pub open spec fn service_state_of(output: Seq<char>) -> ServiceState {
    if trim(output) == "active"@ {
        ServiceState::Active
    } else if trim(output) == "failed"@ {
        ServiceState::Failed
    } else {
        ServiceState::Paused
    }
}

/// Map `systemctl is-active` output to a [`ServiceState`].
pub fn service_state_from(is_active_output: &str) -> (r: ServiceState)
    ensures
        r == service_state_of(is_active_output@),
{
    if trimmed_eq(is_active_output, "active") {
        ServiceState::Active
    } else if trimmed_eq(is_active_output, "failed") {
        ServiceState::Failed
    } else {
        ServiceState::Paused
    }
}

/// Detect the daemon's current runtime state: the one that the runner's
/// output of `systemctl is-active mackey.service` shows.
pub fn detect_service_state<R: CommandRunner>(runner: &R) -> (r: ServiceState)
    ensures
        exists|output: Seq<char>|
            #[trigger] runner.gives("systemctl"@, is_active_args(), output) && r
                == service_state_of(output),
{
    let is_active: [&str; 2] = ["is-active", "mackey.service"];
    proof {
        reveal_strlit("is-active");
        reveal_strlit("mackey.service");
        assert(is_active@.map_values(|a: &str| a@) =~= is_active_args());
    }
    let out = runner.run("systemctl", &is_active);
    let r = service_state_from(out.as_str());
    assert(runner.gives("systemctl"@, is_active_args(), out@));
    r
}

/// The verb the service-control helper is run with: `start` to resume,
/// `stop` to pause.
pub fn service_control_verb(running: bool) -> (r: &'static str)
    ensures
        r@ == if running {
            "start"@
        } else {
            "stop"@
        },
{
    if running {
        "start"
    } else {
        "stop"
    }
}

/// Pause (`running = false`) or resume (`running = true`) the daemon through
/// the polkit-authorized helper, via pkexec: it runs
/// `pkexec SERVICE_CONTROL stop` or `pkexec SERVICE_CONTROL start`.
pub fn set_service_running<R: CommandRunner>(runner: &R, running: bool)
    ensures
        exists|output: Seq<char>| #[trigger]
            runner.gives("pkexec"@, service_control_args(running), output),
{
    let verb = service_control_verb(running);
    let args: [&str; 2] = [SERVICE_CONTROL, verb];
    assert(args@.map_values(|a: &str| a@) =~= service_control_args(running));
    let out = runner.run("pkexec", &args);
    assert(runner.gives("pkexec"@, service_control_args(running), out@));
}

/// `systemctl is-active` output reads as a running daemon exactly when it is
/// `active`, and as failed exactly when it is `failed`; every other answer,
/// `activating` while the daemon starts among them, reads as paused. The
/// status view and the wizard read the same output the same way.
pub proof fn law_service_state_reading(output: Seq<char>, enabled_output: Seq<char>, installed: bool)
    ensures
        (service_state_of(output) is Active) <==> trim(output) == "active"@,
        (service_state_of(output) is Failed) <==> trim(output) == "failed"@,
        (service_state_of(output) is Paused) <==> (trim(output) != "active"@ && trim(output)
            != "failed"@),
        trim(output) == "activating"@ ==> service_state_of(output) is Paused,
        (service_state_of(output) is Active) == setup_state_of(
            output,
            enabled_output,
            installed,
        ).service_active,
{
    reveal_strlit("active");
    reveal_strlit("failed");
    reveal_strlit("activating");
    assert("activating"@.len() != "active"@.len());
    assert("activating"@.len() != "failed"@.len());
    assert("active"@[0] != "failed"@[0]);
}

} // verus!
