# mackey

macOS-style keyboard shortcuts on Linux (GNOME on Wayland): while Super is
held, shortcuts such as Super+C are rewritten to the Linux equivalent for the
focused app.

## Layout

- `src/` — the verified library.
  - `keymap.rs` — the built-in keymaps and the keymap engine, a state machine
    over key events with an exact specification (`step`).
  - `keymap_laws.rs` — what the engine and the tables guarantee over whole
    event sequences (pass-through without Super, the lone Super tap, mapped and
    unmapped shortcuts, the terminal convention, ...).
  - `balance.rs` — no key is left down: over any event stream and any
    keymaps, each synthetic modifier is pressed at most once at a time, never
    released while up, and up again after every Super release.
  - `focus.rs` — the focused app, the keymap it selects, the stale-report
    fallback, and the focus service's decisions (caller authorization, what a
    report changed, the once-per-period stale warning).
  - `device.rs` — which input devices are grabbed, the virtual keyboard's
    identity, and the translation of event batches (over `evdev` types).
  - `setup.rs`, `view.rs` — the setup wizard's detection and view model.
  - `text.rs` — Unicode whitespace, trimming and line matching.
- `tests/` — scenario tests.
- `app/` — the daemon (device grabbing, uinput output, hotplug, the D-Bus focus
  service) and the GTK window, around the library.
