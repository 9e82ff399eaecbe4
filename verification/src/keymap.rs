//! The built-in keymaps and the keymap engine.
//!
//! While a Super (Meta) key is held, macOS-style shortcuts are rewritten to
//! their Linux equivalents. The rewrite depends on the active [`Keymap`]:
//!
//! - **Global fallback**: Super+{C,V,X,A,Z,S,F,N,O,W,Q,T} -> Ctrl+{same}.
//! - **Files** (`org.gnome.Nautilus.desktop`): global, plus Super+Up -> Alt+Up.
//! - **Firefox** (`firefox.desktop`): global, plus Super+Left/Right ->
//!   Alt+Left/Right (back/forward).
//! - **Ghostty** (`com.mitchellh.ghostty.desktop`) and **GNOME Terminal**
//!   (`org.gnome.Terminal.desktop`): Super+{C,V,X,T,W,N} -> Ctrl+Shift+{same};
//!   the rest map to Ctrl+{same}.
//!
//! Anything not in the active table passes through untouched: a key with Super
//! not held, a lone Super tap (emitted on release), and Super + an unmapped key
//! (the real Super is emitted).
//!
//! The key codes are those of the Linux input event interface
//! (`linux/input-event-codes.h`).

use crate::text::str_eq;
use vstd::prelude::*;

verus! {

/// Left Super (Meta).
pub const LEFTMETA: u16 = 125;

/// Right Super (Meta).
pub const RIGHTMETA: u16 = 126;

/// Left Ctrl.
pub const LEFTCTRL: u16 = 29;

/// Left Shift.
pub const LEFTSHIFT: u16 = 42;

/// Left Alt.
pub const LEFTALT: u16 = 56;

pub const KEY_C: u16 = 46;

pub const KEY_V: u16 = 47;

pub const KEY_X: u16 = 45;

pub const KEY_A: u16 = 30;

pub const KEY_Z: u16 = 44;

pub const KEY_S: u16 = 31;

pub const KEY_F: u16 = 33;

pub const KEY_N: u16 = 49;

pub const KEY_O: u16 = 24;

pub const KEY_W: u16 = 17;

pub const KEY_Q: u16 = 16;

pub const KEY_T: u16 = 20;

pub const KEY_LEFT: u16 = 105;

pub const KEY_RIGHT: u16 = 106;

pub const KEY_UP: u16 = 103;

/// Key event value of a release.
pub const RELEASE: i32 = 0;

/// Key event value of a press.
pub const PRESS: i32 = 1;

// ---------------------------------------------------------------------------
// Key events
// ---------------------------------------------------------------------------
/// A single key event: an EV_KEY `code` with a `value` (0=release, 1=press,
/// 2=autorepeat).
#[derive(Debug, Clone, Copy, PartialEq, Eq)]
pub struct KeyEvent {
    pub code: u16,
    pub value: i32,
}

/// The key event with the given code and value.
pub open spec fn ev(code: u16, value: i32) -> KeyEvent {
    KeyEvent { code, value }
}

impl KeyEvent {
    pub fn new(code: u16, value: i32) -> (r: Self)
        ensures
            r == ev(code, value),
    {
        Self { code, value }
    }
}

/// A press of each key of `keys`, in order.
pub open spec fn presses(keys: Seq<u16>) -> Seq<KeyEvent> {
    keys.map_values(|k: u16| ev(k, PRESS))
}

/// A release of each key of `keys`, in order.
pub open spec fn releases(keys: Seq<u16>) -> Seq<KeyEvent> {
    keys.map_values(|k: u16| ev(k, RELEASE))
}

/// A release of each key of `keys`, last first.
pub open spec fn releases_last_first(keys: Seq<u16>) -> Seq<KeyEvent> {
    Seq::new(keys.len(), |k: int| ev(keys[keys.len() - 1 - k], RELEASE))
}

// ---------------------------------------------------------------------------
// Keymaps
// ---------------------------------------------------------------------------
/// Ctrl alone.
pub open spec fn ctrl() -> Seq<u16> {
    seq![LEFTCTRL]
}

/// Ctrl and Shift, pressed in that order.
pub open spec fn ctrl_shift() -> Seq<u16> {
    seq![LEFTCTRL, LEFTSHIFT]
}

/// Alt alone.
pub open spec fn alt() -> Seq<u16> {
    seq![LEFTALT]
}

/// The global fallback table: the common letters to Ctrl.
pub open spec fn global_table() -> Seq<(u16, Seq<u16>)> {
    seq![
        (KEY_C, ctrl()),
        (KEY_V, ctrl()),
        (KEY_X, ctrl()),
        (KEY_A, ctrl()),
        (KEY_Z, ctrl()),
        (KEY_S, ctrl()),
        (KEY_F, ctrl()),
        (KEY_N, ctrl()),
        (KEY_O, ctrl()),
        (KEY_W, ctrl()),
        (KEY_Q, ctrl()),
        (KEY_T, ctrl()),
    ]
}

/// Files: the global table plus Super+Up -> Alt+Up (parent directory).
pub open spec fn files_table() -> Seq<(u16, Seq<u16>)> {
    global_table().push((KEY_UP, alt()))
}

/// Firefox: the global table plus Super+Left/Right -> Alt+Left/Right.
pub open spec fn firefox_table() -> Seq<(u16, Seq<u16>)> {
    global_table() + seq![(KEY_LEFT, alt()), (KEY_RIGHT, alt())]
}

/// The terminal convention: copy/paste/cut and tab/window keys need Shift,
/// since plain Ctrl+C is SIGINT in a terminal; the other letters keep Ctrl.
pub open spec fn terminal_table() -> Seq<(u16, Seq<u16>)> {
    seq![
        (KEY_C, ctrl_shift()),
        (KEY_V, ctrl_shift()),
        (KEY_X, ctrl_shift()),
        (KEY_T, ctrl_shift()),
        (KEY_W, ctrl_shift()),
        (KEY_N, ctrl_shift()),
        (KEY_A, ctrl()),
        (KEY_Z, ctrl()),
        (KEY_S, ctrl()),
        (KEY_F, ctrl()),
        (KEY_O, ctrl()),
        (KEY_Q, ctrl()),
    ]
}

/// The modifiers the first entry of `table` for `code` asks for, if any.
pub open spec fn lookup(table: Seq<(u16, Seq<u16>)>, code: u16) -> Option<Seq<u16>>
    decreases table.len(),
{
    if table.len() == 0 {
        None
    } else if table[0].0 == code {
        Some(table[0].1)
    } else {
        lookup(table.drop_first(), code)
    }
}

/// A built-in keymap: while Super is held, each listed input key is emitted
/// with the given modifier set instead of Super. Keys absent from the table
/// pass the real Super through.
pub struct Keymap {
    /// Stable identifier, logged on switch (`"global"` or a `.desktop` id).
    pub id: &'static str,
    /// The bindings, in order: each input key with the modifiers it is
    /// emitted with.
    pub entries: Vec<(u16, Vec<u16>)>,
}

impl Keymap {
    /// The bindings of this keymap, in order, as key and modifier sequence.
    pub open spec fn table(self) -> Seq<(u16, Seq<u16>)> {
        self.entries@.map_values(|e: (u16, Vec<u16>)| (e.0, e.1@))
    }

    /// The modifiers to emit with `code` while Super is held, if it is mapped.
    pub fn mods_for(&self, code: u16) -> (r: Option<&Vec<u16>>)
        ensures
            match r {
                Some(m) => lookup(self.table(), code) == Some(m@),
                None => lookup(self.table(), code) is None,
            },
    {
        let n = self.entries.len();
        let mut i: usize = 0;
        assert(self.table().skip(0) =~= self.table());
        while i < n
            invariant
                n == self.entries@.len(),
                i <= n,
                lookup(self.table(), code) == lookup(self.table().skip(i as int), code),
            decreases n - i,
        {
            assert(self.table().skip(i as int)[0] == self.table()[i as int]);
            if self.entries[i].0 == code {
                return Some(&self.entries[i].1);
            }
            assert(self.table().skip(i as int).drop_first() =~= self.table().skip(i + 1));
            i = i + 1;
        }
        assert(self.table().skip(n as int).len() == 0);
        None
    }
}

fn mods(first: u16) -> (r: Vec<u16>)
    ensures
        r@ == seq![first],
{
    let mut r: Vec<u16> = Vec::new();
    r.push(first);
    assert(r@ =~= seq![first]);
    r
}

fn ctrl_mods() -> (r: Vec<u16>)
    ensures
        r@ == ctrl(),
{
    mods(LEFTCTRL)
}

fn ctrl_shift_mods() -> (r: Vec<u16>)
    ensures
        r@ == ctrl_shift(),
{
    let mut r = mods(LEFTCTRL);
    r.push(LEFTSHIFT);
    assert(r@ =~= ctrl_shift());
    r
}

fn alt_mods() -> (r: Vec<u16>)
    ensures
        r@ == alt(),
{
    mods(LEFTALT)
}

fn bind(entries: &mut Vec<(u16, Vec<u16>)>, key: u16, mods: Vec<u16>)
    ensures
        final(entries)@.map_values(|e: (u16, Vec<u16>)| (e.0, e.1@)) == old(entries)@.map_values(
            |e: (u16, Vec<u16>)| (e.0, e.1@),
        ).push((key, mods@)),
{
    let ghost m = mods@;
    entries.push((key, mods));
    assert(final(entries)@.map_values(|e: (u16, Vec<u16>)| (e.0, e.1@)) =~= old(
        entries,
    )@.map_values(|e: (u16, Vec<u16>)| (e.0, e.1@)).push((key, m)));
}

fn global_entries() -> (r: Vec<(u16, Vec<u16>)>)
    ensures
        r@.map_values(|e: (u16, Vec<u16>)| (e.0, e.1@)) == global_table(),
{
    let mut r: Vec<(u16, Vec<u16>)> = Vec::new();
    bind(&mut r, KEY_C, ctrl_mods());
    bind(&mut r, KEY_V, ctrl_mods());
    bind(&mut r, KEY_X, ctrl_mods());
    bind(&mut r, KEY_A, ctrl_mods());
    bind(&mut r, KEY_Z, ctrl_mods());
    bind(&mut r, KEY_S, ctrl_mods());
    bind(&mut r, KEY_F, ctrl_mods());
    bind(&mut r, KEY_N, ctrl_mods());
    bind(&mut r, KEY_O, ctrl_mods());
    bind(&mut r, KEY_W, ctrl_mods());
    bind(&mut r, KEY_Q, ctrl_mods());
    bind(&mut r, KEY_T, ctrl_mods());
    assert(r@.map_values(|e: (u16, Vec<u16>)| (e.0, e.1@)) =~= global_table());
    r
}

fn terminal_entries() -> (r: Vec<(u16, Vec<u16>)>)
    ensures
        r@.map_values(|e: (u16, Vec<u16>)| (e.0, e.1@)) == terminal_table(),
{
    let mut r: Vec<(u16, Vec<u16>)> = Vec::new();
    bind(&mut r, KEY_C, ctrl_shift_mods());
    bind(&mut r, KEY_V, ctrl_shift_mods());
    bind(&mut r, KEY_X, ctrl_shift_mods());
    bind(&mut r, KEY_T, ctrl_shift_mods());
    bind(&mut r, KEY_W, ctrl_shift_mods());
    bind(&mut r, KEY_N, ctrl_shift_mods());
    bind(&mut r, KEY_A, ctrl_mods());
    bind(&mut r, KEY_Z, ctrl_mods());
    bind(&mut r, KEY_S, ctrl_mods());
    bind(&mut r, KEY_F, ctrl_mods());
    bind(&mut r, KEY_O, ctrl_mods());
    bind(&mut r, KEY_Q, ctrl_mods());
    assert(r@.map_values(|e: (u16, Vec<u16>)| (e.0, e.1@)) =~= terminal_table());
    r
}

/// The global fallback keymap.
pub fn global_keymap() -> (r: Keymap)
    ensures
        r.id@ == "global"@,
        r.table() == global_table(),
{
    Keymap { id: "global", entries: global_entries() }
}

/// The keymap of Files (`org.gnome.Nautilus.desktop`).
pub fn files_keymap() -> (r: Keymap)
    ensures
        r.id@ == "org.gnome.Nautilus.desktop"@,
        r.table() == files_table(),
{
    let mut entries = global_entries();
    bind(&mut entries, KEY_UP, alt_mods());
    Keymap { id: "org.gnome.Nautilus.desktop", entries }
}

/// The keymap of Firefox (`firefox.desktop`).
pub fn firefox_keymap() -> (r: Keymap)
    ensures
        r.id@ == "firefox.desktop"@,
        r.table() == firefox_table(),
{
    let mut entries = global_entries();
    bind(&mut entries, KEY_LEFT, alt_mods());
    bind(&mut entries, KEY_RIGHT, alt_mods());
    assert(global_table().push((KEY_LEFT, alt())).push((KEY_RIGHT, alt())) =~= firefox_table());
    Keymap { id: "firefox.desktop", entries }
}

/// The keymap of Ghostty (`com.mitchellh.ghostty.desktop`).
pub fn ghostty_keymap() -> (r: Keymap)
    ensures
        r.id@ == "com.mitchellh.ghostty.desktop"@,
        r.table() == terminal_table(),
{
    Keymap { id: "com.mitchellh.ghostty.desktop", entries: terminal_entries() }
}

/// The keymap of GNOME Terminal (`org.gnome.Terminal.desktop`).
pub fn gnome_terminal_keymap() -> (r: Keymap)
    ensures
        r.id@ == "org.gnome.Terminal.desktop"@,
        r.table() == terminal_table(),
{
    Keymap { id: "org.gnome.Terminal.desktop", entries: terminal_entries() }
}

/// The id of the keymap that a focused app id selects: the app's own where it
/// has one, else `"global"`.
pub open spec fn keymap_id_for(app_id: Option<Seq<char>>) -> Seq<char> {
    match app_id {
        Some(a) => if a == "org.gnome.Nautilus.desktop"@ || a == "firefox.desktop"@ || a
            == "com.mitchellh.ghostty.desktop"@ || a == "org.gnome.Terminal.desktop"@ {
            a
        } else {
            "global"@
        },
        None => "global"@,
    }
}

/// The table of the keymap that a focused app id selects.
pub open spec fn table_for(app_id: Option<Seq<char>>) -> Seq<(u16, Seq<u16>)> {
    match app_id {
        Some(a) => if a == "org.gnome.Nautilus.desktop"@ {
            files_table()
        } else if a == "firefox.desktop"@ {
            firefox_table()
        } else if a == "com.mitchellh.ghostty.desktop"@ || a == "org.gnome.Terminal.desktop"@ {
            terminal_table()
        } else {
            global_table()
        },
        None => global_table(),
    }
}

/// The characters of an optional string.
pub open spec fn opt_chars(s: Option<&str>) -> Option<Seq<char>> {
    match s {
        Some(t) => Some(t@),
        None => None,
    }
}

/// Resolve a focused app id to its built-in keymap, falling back to global.
pub fn keymap_for(app_id: Option<&str>) -> (r: Keymap)
    ensures
        r.id@ == keymap_id_for(opt_chars(app_id)),
        r.table() == table_for(opt_chars(app_id)),
{
    match app_id {
        Some(a) => {
            if str_eq(a, "org.gnome.Nautilus.desktop") {
                files_keymap()
            } else if str_eq(a, "firefox.desktop") {
                firefox_keymap()
            } else if str_eq(a, "com.mitchellh.ghostty.desktop") {
                ghostty_keymap()
            } else if str_eq(a, "org.gnome.Terminal.desktop") {
                gnome_terminal_keymap()
            } else {
                global_keymap()
            }
        },
        None => global_keymap(),
    }
}

// ---------------------------------------------------------------------------
// The engine
// ---------------------------------------------------------------------------
/// Whether `code` is a Super (Meta) key.
pub open spec fn is_meta_code(code: u16) -> bool {
    code == LEFTMETA || code == RIGHTMETA
}

/// Whether `code` is a Super (Meta) key.
pub fn is_meta(code: u16) -> (r: bool)
    ensures
        r == is_meta_code(code),
{
    code == LEFTMETA || code == RIGHTMETA
}

/// The state of the engine between events.
pub struct EngineState {
    /// A Super key is held.
    pub super_down: bool,
    /// The Super key that is held (to release the right one).
    pub meta_code: u16,
    /// Synthetic modifiers pressed for the current Super hold, in press order;
    /// released (last first) when Super is released.
    pub held_mods: Seq<u16>,
    /// The real Super was passed through for an unmapped key and is owed a
    /// release.
    pub emitted_super: bool,
    /// The Super key that was passed through (released under its own code,
    /// even if the other Super key was pressed since).
    pub passed_super: u16,
}

/// The state of a fresh engine.
pub open spec fn initial_state() -> EngineState {
    EngineState {
        super_down: false,
        meta_code: LEFTMETA,
        held_mods: seq![],
        emitted_super: false,
        passed_super: LEFTMETA,
    }
}

/// The modifiers of `mods` not yet in `kept`, in order and each once: those
/// pressed to reconcile a held set `kept` with `mods`.
pub open spec fn missing_mods(kept: Seq<u16>, mods: Seq<u16>) -> Seq<u16>
    decreases mods.len(),
{
    if mods.len() == 0 {
        seq![]
    } else {
        let prev = missing_mods(kept, mods.drop_last());
        if (kept + prev).contains(mods.last()) {
            prev
        } else {
            prev.push(mods.last())
        }
    }
}

/// Held modifiers that `mods` wants kept.
pub open spec fn wanted(mods: Seq<u16>) -> spec_fn(u16) -> bool {
    |h: u16| mods.contains(h)
}

/// Held modifiers that `mods` does not want.
pub open spec fn unwanted(mods: Seq<u16>) -> spec_fn(u16) -> bool {
    |h: u16| !mods.contains(h)
}

/// What the engine owes downstream for the current Super hold, released
/// when Super is released: a release of each synthetic modifier still held
/// (last pressed first), then a release of the real Super if it was passed
/// through.
pub open spec fn pending_releases(s: EngineState) -> Seq<KeyEvent> {
    releases_last_first(s.held_mods) + if s.emitted_super {
        seq![ev(s.passed_super, RELEASE)]
    } else {
        seq![]
    }
}

/// A Super key event.
pub open spec fn meta_step(s: EngineState, code: u16, value: i32) -> (EngineState, Seq<KeyEvent>) {
    if value == PRESS {
        // The Super press is deferred until a key follows; what a hold already
        // in progress (the other Super key) holds or owes stays held until
        // Super is released.
        (EngineState { super_down: true, meta_code: code, ..s }, seq![])
    } else if value == RELEASE {
        let out = if s.held_mods.len() == 0 && !s.emitted_super {
            // Nothing followed: the deferred Super tap.
            seq![ev(s.meta_code, PRESS), ev(s.meta_code, RELEASE)]
        } else {
            pending_releases(s)
        };
        (EngineState { super_down: false, held_mods: seq![], emitted_super: false, ..s }, out)
    } else {
        // Super autorepeat is ignored.
        (s, seq![])
    }
}

/// A key mapped to `mods` while Super is held: on a press the held modifiers
/// are reconciled to `mods` (those not wanted released, the missing ones
/// pressed), then the key itself is emitted.
pub open spec fn mapped_step(s: EngineState, code: u16, value: i32, mods: Seq<u16>) -> (
    EngineState,
    Seq<KeyEvent>,
) {
    if value == PRESS {
        let kept = s.held_mods.filter(wanted(mods));
        let dropped = s.held_mods.filter(unwanted(mods));
        let added = missing_mods(kept, mods);
        (
            EngineState { held_mods: kept + added, ..s },
            releases(dropped) + presses(added) + seq![ev(code, value)],
        )
    } else {
        (s, seq![ev(code, value)])
    }
}

/// A key without a mapping while Super is held: the real Super is passed
/// through (once per hold) ahead of the key.
pub open spec fn unmapped_step(s: EngineState, code: u16, value: i32) -> (
    EngineState,
    Seq<KeyEvent>,
) {
    if value == PRESS && !s.emitted_super {
        (
            EngineState { emitted_super: true, passed_super: s.meta_code, ..s },
            seq![ev(s.meta_code, PRESS), ev(code, value)],
        )
    } else {
        (s, seq![ev(code, value)])
    }
}

/// One key event under the keymap `table`: the next state and what to emit.
pub open spec fn step(s: EngineState, code: u16, value: i32, table: Seq<(u16, Seq<u16>)>) -> (
    EngineState,
    Seq<KeyEvent>,
) {
    if is_meta_code(code) {
        meta_step(s, code, value)
    } else if !s.super_down {
        (s, seq![ev(code, value)])
    } else {
        match lookup(table, code) {
            Some(mods) => mapped_step(s, code, value, mods),
            None => unmapped_step(s, code, value),
        }
    }
}

/// The keymap state machine. One instance drives all grabbed keyboards; the
/// active [`Keymap`] is supplied per event so the daemon can switch context.
#[derive(Debug)]
pub struct KeymapEngine {
    super_down: bool,
    meta_code: u16,
    held_mods: Vec<u16>,
    emitted_super: bool,
    passed_super: u16,
}

impl View for KeymapEngine {
    type V = EngineState;

    closed spec fn view(&self) -> EngineState {
        EngineState {
            super_down: self.super_down,
            meta_code: self.meta_code,
            held_mods: self.held_mods@,
            emitted_super: self.emitted_super,
            passed_super: self.passed_super,
        }
    }
}

impl Default for KeymapEngine {
    fn default() -> (r: Self)
        ensures
            r@ == initial_state(),
    {
        let r = Self {
            super_down: false,
            meta_code: LEFTMETA,
            held_mods: Vec::new(),
            emitted_super: false,
            passed_super: LEFTMETA,
        };
        assert(r@.held_mods =~= Seq::<u16>::empty());
        r
    }
}

proof fn lemma_filter_take_step(s: Seq<u16>, j: int, p: spec_fn(u16) -> bool)
    requires
        0 <= j < s.len(),
    ensures
        s.take(j + 1).filter(p) == if p(s[j]) {
            s.take(j).filter(p).push(s[j])
        } else {
            s.take(j).filter(p)
        },
{
    reveal_with_fuel(Seq::<_>::filter, 1);
    assert(s.take(j + 1).drop_last() =~= s.take(j));
}

fn contains_code(v: &Vec<u16>, x: u16) -> (r: bool)
    ensures
        r == v@.contains(x),
{
    let mut i: usize = 0;
    while i < v.len()
        invariant
            i <= v@.len(),
            forall|k: int| 0 <= k < i ==> v@[k] != x,
        decreases v@.len() - i,
    {
        if v[i] == x {
            return true;
        }
        i = i + 1;
    }
    false
}

impl KeymapEngine {
    pub fn new() -> (r: Self)
        ensures
            r@ == initial_state(),
    {
        Self::default()
    }

    /// Translate one EV_KEY event into the events to emit, under `keymap`.
    pub fn process(&mut self, code: u16, value: i32, keymap: &Keymap) -> (r: Vec<KeyEvent>)
        ensures
            (final(self)@, r@) == step(old(self)@, code, value, keymap.table()),
    {
        if is_meta(code) {
            return self.process_meta(code, value);
        }
        if !self.super_down {
            let mut out: Vec<KeyEvent> = Vec::new();
            out.push(KeyEvent::new(code, value));
            assert(out@ =~= seq![ev(code, value)]);
            return out;
        }
        match keymap.mods_for(code) {
            Some(mods) => self.emit_mapped(code, value, mods),
            None => self.emit_unmapped(code, value),
        }
    }

    /// Super+mapped -> <mods>+key. Reconcile the held modifier set to `mods`
    /// on press (so a second key wanting different mods is correct), then the
    /// key.
    fn emit_mapped(&mut self, code: u16, value: i32, mods: &Vec<u16>) -> (r: Vec<KeyEvent>)
        ensures
            (final(self)@, r@) == mapped_step(old(self)@, code, value, mods@),
    {
        let mut out: Vec<KeyEvent> = Vec::new();
        if value == PRESS {
            let ghost held0 = self.held_mods@;
            let ghost keep = wanted(mods@);
            let ghost drop = unwanted(mods@);
            let ghost mut j: int = 0;
            let mut i: usize = 0;
            while i < self.held_mods.len()
                invariant
                    keep == wanted(mods@),
                    drop == unwanted(mods@),
                    0 <= j <= held0.len(),
                    i == held0.take(j).filter(keep).len(),
                    self.held_mods@ == held0.take(j).filter(keep) + held0.skip(j),
                    out@ == releases(held0.take(j).filter(drop)),
                    self.super_down == old(self).super_down,
                    self.meta_code == old(self).meta_code,
                    self.emitted_super == old(self).emitted_super,
                    self.passed_super == old(self).passed_super,
                    held0 == old(self).held_mods@,
                decreases self.held_mods@.len() - i,
            {
                proof {
                    lemma_filter_take_step(held0, j, keep);
                    lemma_filter_take_step(held0, j, drop);
                    assert(held0.skip(j) =~= seq![held0[j]] + held0.skip(j + 1));
                }
                let held = self.held_mods[i];
                assert(held == held0[j]);
                if contains_code(mods, held) {
                    i = i + 1;
                    proof {
                        j = j + 1;
                        assert(self.held_mods@ =~= held0.take(j).filter(keep) + held0.skip(j));
                    }
                } else {
                    out.push(KeyEvent::new(held, RELEASE));
                    self.held_mods.remove(i);
                    proof {
                        j = j + 1;
                        assert(self.held_mods@ =~= held0.take(j).filter(keep) + held0.skip(j));
                        assert(out@ =~= releases(held0.take(j).filter(drop)));
                    }
                }
            }
            proof {
                assert(held0.skip(j).len() == 0);
                assert(held0.take(j) =~= held0);
                assert(self.held_mods@ =~= held0.filter(keep));
            }
            let ghost kept = self.held_mods@;
            let ghost released = out@;
            let mut k: usize = 0;
            while k < mods.len()
                invariant
                    k <= mods@.len(),
                    self.held_mods@ == kept + missing_mods(kept, mods@.take(k as int)),
                    out@ == released + presses(missing_mods(kept, mods@.take(k as int))),
                    self.super_down == old(self).super_down,
                    self.meta_code == old(self).meta_code,
                    self.emitted_super == old(self).emitted_super,
                    self.passed_super == old(self).passed_super,
                decreases mods@.len() - k,
            {
                let m = mods[k];
                proof {
                    assert(mods@.take(k + 1).drop_last() =~= mods@.take(k as int));
                    assert(mods@.take(k + 1).last() == m);
                }
                let ghost prev = missing_mods(kept, mods@.take(k as int));
                if !contains_code(&self.held_mods, m) {
                    out.push(KeyEvent::new(m, PRESS));
                    self.held_mods.push(m);
                    proof {
                        assert(self.held_mods@ =~= kept + prev.push(m));
                        assert(out@ =~= released + presses(prev.push(m)));
                    }
                }
                k = k + 1;
            }
            assert(mods@.take(mods@.len() as int) =~= mods@);
            out.push(KeyEvent::new(code, value));
            assert(out@ =~= released + presses(missing_mods(kept, mods@)) + seq![ev(code, value)]);
        } else {
            out.push(KeyEvent::new(code, value));
            assert(out@ =~= seq![ev(code, value)]);
        }
        out
    }

    /// Super+unmapped -> pass the real Super through so the combo still works.
    fn emit_unmapped(&mut self, code: u16, value: i32) -> (r: Vec<KeyEvent>)
        ensures
            (final(self)@, r@) == unmapped_step(old(self)@, code, value),
    {
        let mut out: Vec<KeyEvent> = Vec::new();
        if value == PRESS && !self.emitted_super {
            out.push(KeyEvent::new(self.meta_code, PRESS));
            self.emitted_super = true;
            self.passed_super = self.meta_code;
        }
        out.push(KeyEvent::new(code, value));
        proof {
            if value == PRESS && !old(self).emitted_super {
                assert(out@ =~= seq![ev(old(self).meta_code, PRESS), ev(code, value)]);
            } else {
                assert(out@ =~= seq![ev(code, value)]);
            }
        }
        out
    }

    /// Release what the current Super hold owes (see `pending_releases`):
    /// afterwards nothing is held or owed.
    fn release_pending(&mut self) -> (r: Vec<KeyEvent>)
        ensures
            r@ == pending_releases(old(self)@),
            final(self)@ == (EngineState {
                held_mods: seq![],
                emitted_super: false,
                ..old(self)@
            }),
    {
        let mut out: Vec<KeyEvent> = Vec::new();
        let n = self.held_mods.len();
        let mut i: usize = n;
        while i > 0
            invariant
                n == self.held_mods@.len(),
                i <= n,
                self.held_mods@ == old(self).held_mods@,
                self.super_down == old(self).super_down,
                self.meta_code == old(self).meta_code,
                self.emitted_super == old(self).emitted_super,
                self.passed_super == old(self).passed_super,
                out@.len() == n - i,
                forall|k: int| 0 <= k < n - i ==> out@[k] == ev(self.held_mods@[n - 1 - k], RELEASE),
            decreases i,
        {
            i = i - 1;
            out.push(KeyEvent::new(self.held_mods[i], RELEASE));
        }
        assert(out@ =~= releases_last_first(old(self).held_mods@));
        self.held_mods.clear();
        if self.emitted_super {
            out.push(KeyEvent::new(self.passed_super, RELEASE));
            self.emitted_super = false;
        }
        assert(out@ =~= pending_releases(old(self)@));
        assert(self.held_mods@ =~= Seq::<u16>::empty());
        out
    }

    fn process_meta(&mut self, code: u16, value: i32) -> (r: Vec<KeyEvent>)
        ensures
            (final(self)@, r@) == meta_step(old(self)@, code, value),
    {
        if value == PRESS {
            self.super_down = true;
            self.meta_code = code;
            let out: Vec<KeyEvent> = Vec::new();
            assert(out@ =~= Seq::<KeyEvent>::empty());
            out
        } else if value == RELEASE {
            let out = if self.held_mods.len() == 0 && !self.emitted_super {
                // Nothing followed: emit the deferred tap so Super alone works.
                let mut tap: Vec<KeyEvent> = Vec::new();
                tap.push(KeyEvent::new(self.meta_code, PRESS));
                tap.push(KeyEvent::new(self.meta_code, RELEASE));
                assert(tap@ =~= seq![ev(self.meta_code, PRESS), ev(self.meta_code, RELEASE)]);
                tap
            } else {
                self.release_pending()
            };
            self.super_down = false;
            self.emitted_super = false;
            self.held_mods.clear();
            assert(self.held_mods@ =~= Seq::<u16>::empty());
            out
        } else {
            let out: Vec<KeyEvent> = Vec::new();
            assert(out@ =~= Seq::<KeyEvent>::empty());
            out
        }
    }
}

} // verus!
