//! macOS-style keyboard shortcuts on Linux.
//!
//! The keymap engine rewrites Super shortcuts into their Linux equivalents
//! under the keymap of the focused app; the focus state selects that keymap
//! and falls back to the global one when focus reports go stale; the device
//! logic decides which input devices the daemon grabs; and the setup and view
//! modules hold the wizard's detection and view model.

pub mod balance;
pub mod device;
pub mod focus;
pub mod keymap;
pub mod keymap_laws;
pub mod setup;
pub mod text;
pub mod view;

pub use device::{is_keyboard, VIRTUAL_KEYBOARD_NAME};
pub use focus::{FocusState, STALE_MS};
pub use keymap::{KeyEvent, Keymap, KeymapEngine};

use vstd::prelude::*;

verus! {

/// The mackey version string.
pub const VERSION: &'static str = "0.1.0";

/// The uinput character device the daemon writes synthetic events to.
pub const UINPUT_PATH: &'static str = "/dev/uinput";

/// The well-known system-bus name of the focus tracker service.
pub const FOCUS_TRACKER_NAME: &'static str = "app.mackey.FocusTracker";

/// The object path the focus tracker is served at.
pub const FOCUS_TRACKER_PATH: &'static str = "/app/mackey/FocusTracker";

} // verus!
