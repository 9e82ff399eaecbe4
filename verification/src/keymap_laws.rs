//! What the keymap engine and the built-in tables guarantee over whole event
//! sequences.

use crate::keymap::{
    alt, ctrl, ctrl_shift, ev, files_table, firefox_table, global_table, is_meta_code, keymap_id_for, lookup, missing_mods,
    presses, releases, releases_last_first, step, table_for, terminal_table, unwanted, wanted,
    EngineState, KeyEvent, KEY_A, KEY_C, KEY_F, KEY_LEFT, KEY_N, KEY_O, KEY_Q, KEY_RIGHT, KEY_S,
    KEY_T, KEY_UP, KEY_V, KEY_W, KEY_X, KEY_Z, PRESS, RELEASE,
};
use vstd::prelude::*;

verus! {

/// The engine run over `events` (code, value) in order from `s`: the final
/// state and everything emitted.
pub open spec fn drive(s: EngineState, events: Seq<(u16, i32)>, table: Seq<(u16, Seq<u16>)>) -> (
    EngineState,
    Seq<KeyEvent>,
)
    decreases events.len(),
{
    if events.len() == 0 {
        (s, seq![])
    } else {
        let prev = drive(s, events.drop_last(), table);
        let next = step(prev.0, events.last().0, events.last().1, table);
        (next.0, prev.1 + next.1)
    }
}

/// The events of `events` unchanged.
pub open spec fn as_key_events(events: Seq<(u16, i32)>) -> Seq<KeyEvent> {
    events.map_values(|e: (u16, i32)| ev(e.0, e.1))
}

/// No hold is in progress that holds or owes anything: no synthetic
/// modifier is held and no real Super is owed a release.
pub open spec fn nothing_owed(s: EngineState) -> bool {
    s.held_mods.len() == 0 && !s.emitted_super
}

/// The engine run over `a` then `b` is the run over `a` continued over `b`.
pub proof fn lemma_drive_concat(
    s: EngineState,
    a: Seq<(u16, i32)>,
    b: Seq<(u16, i32)>,
    table: Seq<(u16, Seq<u16>)>,
)
    ensures
        drive(s, a + b, table) == ({
            let da = drive(s, a, table);
            let db = drive(da.0, b, table);
            (db.0, da.1 + db.1)
        }),
    decreases b.len(),
{
    let da = drive(s, a, table);
    if b.len() == 0 {
        assert(a + b =~= a);
        assert(da.1 + Seq::<KeyEvent>::empty() =~= da.1);
    } else {
        assert((a + b).drop_last() =~= a + b.drop_last());
        assert((a + b).last() == b.last());
        lemma_drive_concat(s, a, b.drop_last(), table);
        let db0 = drive(da.0, b.drop_last(), table);
        let nx = step(db0.0, b.last().0, b.last().1, table);
        assert((da.1 + db0.1) + nx.1 =~= da.1 + (db0.1 + nx.1));
    }
}

/// With Super never held, every key event is passed through unchanged, for
/// all codes and all event values, and the engine state does not change.
pub proof fn law_no_super_is_identity(
    s: EngineState,
    events: Seq<(u16, i32)>,
    table: Seq<(u16, Seq<u16>)>,
)
    requires
        !s.super_down,
        forall|i: int| 0 <= i < events.len() ==> !is_meta_code(#[trigger] events[i].0),
    ensures
        drive(s, events, table) == (s, as_key_events(events)),
    decreases events.len(),
{
    if events.len() > 0 {
        let rest = events.drop_last();
        assert forall|i: int| 0 <= i < rest.len() implies !is_meta_code(#[trigger] rest[i].0) by {
            assert(rest[i] == events[i]);
        }
        law_no_super_is_identity(s, rest, table);
        assert(!is_meta_code(events[events.len() - 1].0));
        assert(as_key_events(rest) + seq![ev(events.last().0, events.last().1)]
            =~= as_key_events(events));
    } else {
        assert(as_key_events(events) =~= seq![]);
    }
}

/// A lone Super tap (press, then release, nothing between) with no hold
/// owing anything is emitted as a Super tap on release; afterwards nothing
/// is held or owed.
pub proof fn law_lone_super_tap(s: EngineState, meta: u16, table: Seq<(u16, Seq<u16>)>)
    requires
        is_meta_code(meta),
        nothing_owed(s),
    ensures
        ({
            let d = drive(s, seq![(meta, PRESS), (meta, RELEASE)], table);
            &&& d.1 == seq![ev(meta, PRESS), ev(meta, RELEASE)]
            &&& !d.0.super_down
            &&& nothing_owed(d.0)
        }),
{
    let evs = seq![(meta, PRESS), (meta, RELEASE)];
    assert(evs.drop_last() =~= seq![(meta, PRESS)]);
    assert(seq![(meta, PRESS)].drop_last() =~= Seq::<(u16, i32)>::empty());
    let d0 = drive(s, Seq::<(u16, i32)>::empty(), table);
    let d1 = drive(s, seq![(meta, PRESS)], table);
    assert(d1.1 =~= seq![]);
    let d2 = drive(s, evs, table);
    assert(d2.1 =~= seq![ev(meta, PRESS), ev(meta, RELEASE)]);
}

/// Reconciling an empty held set with a duplicate-free modifier list presses
/// exactly that list, in order.
proof fn lemma_missing_from_nothing(mods: Seq<u16>)
    requires
        mods.no_duplicates(),
    ensures
        missing_mods(seq![], mods) == mods,
    decreases mods.len(),
{
    if mods.len() > 0 {
        let init = mods.drop_last();
        assert(init.no_duplicates());
        lemma_missing_from_nothing(init);
        let e: Seq<u16> = seq![];
        assert(e + init =~= init);
        if init.contains(mods.last()) {
            let k = choose|k: int| 0 <= k < init.len() && init[k] == mods.last();
            assert(mods[k] == mods[mods.len() - 1]);
        }
        assert(init.push(mods.last()) =~= mods);
    }
}

/// Super + a mapped key, tapped alone with no hold owing anything, is
/// emitted as the mapped modifiers pressed in order, the key pressed and
/// released, then the modifiers released last first; afterwards nothing is
/// held or owed.
pub proof fn law_mapped_shortcut(
    s: EngineState,
    meta: u16,
    key: u16,
    table: Seq<(u16, Seq<u16>)>,
    mods: Seq<u16>,
)
    requires
        is_meta_code(meta),
        !is_meta_code(key),
        nothing_owed(s),
        lookup(table, key) == Some(mods),
        mods.len() > 0,
        mods.no_duplicates(),
    ensures
        ({
            let d = drive(s, seq![(meta, PRESS), (key, PRESS), (key, RELEASE), (meta, RELEASE)], table);
            &&& d.1 == presses(mods) + seq![ev(key, PRESS), ev(key, RELEASE)] + releases_last_first(mods)
            &&& !d.0.super_down
            &&& nothing_owed(d.0)
        }),
{
    let e4 = seq![(meta, PRESS), (key, PRESS), (key, RELEASE), (meta, RELEASE)];
    let e3 = seq![(meta, PRESS), (key, PRESS), (key, RELEASE)];
    let e2 = seq![(meta, PRESS), (key, PRESS)];
    let e1 = seq![(meta, PRESS)];
    let e0 = Seq::<(u16, i32)>::empty();
    assert(e4.drop_last() =~= e3);
    assert(e3.drop_last() =~= e2);
    assert(e2.drop_last() =~= e1);
    assert(e1.drop_last() =~= e0);
    let d0 = drive(s, e0, table);
    let d1 = drive(s, e1, table);
    let empty: Seq<u16> = seq![];
    assert(s.held_mods =~= empty);
    assert(d1.0.held_mods =~= empty);
    assert(d1.1 =~= seq![]);
    reveal_with_fuel(Seq::<_>::filter, 1);
    assert(empty.filter(wanted(mods)) =~= empty);
    assert(empty.filter(unwanted(mods)) =~= empty);
    lemma_missing_from_nothing(mods);
    assert(empty + mods =~= mods);
    let d2 = drive(s, e2, table);
    assert(d2.0.held_mods == mods);
    assert(releases(empty) =~= seq![]);
    assert(d2.1 =~= presses(mods) + seq![ev(key, PRESS)]);
    let d3 = drive(s, e3, table);
    assert(d3.1 =~= presses(mods) + seq![ev(key, PRESS), ev(key, RELEASE)]);
    let d4 = drive(s, e4, table);
    assert(d4.0.held_mods =~= empty);
    assert(d4.1 =~= presses(mods) + seq![ev(key, PRESS), ev(key, RELEASE)] + releases_last_first(
        mods,
    ));
}

/// Super + a key without a mapping, with no hold owing anything, keeps the
/// real Super: it is emitted just before the key and released with Super;
/// afterwards nothing is held or owed.
pub proof fn law_unmapped_keeps_super(
    s: EngineState,
    meta: u16,
    key: u16,
    table: Seq<(u16, Seq<u16>)>,
)
    requires
        is_meta_code(meta),
        !is_meta_code(key),
        nothing_owed(s),
        lookup(table, key) is None,
    ensures
        ({
            let d = drive(s, seq![(meta, PRESS), (key, PRESS), (key, RELEASE), (meta, RELEASE)], table);
            &&& d.1 == seq![ev(meta, PRESS), ev(key, PRESS), ev(key, RELEASE), ev(meta, RELEASE)]
            &&& !d.0.super_down
            &&& nothing_owed(d.0)
        }),
{
    let e4 = seq![(meta, PRESS), (key, PRESS), (key, RELEASE), (meta, RELEASE)];
    let e3 = seq![(meta, PRESS), (key, PRESS), (key, RELEASE)];
    let e2 = seq![(meta, PRESS), (key, PRESS)];
    let e1 = seq![(meta, PRESS)];
    let e0 = Seq::<(u16, i32)>::empty();
    assert(e4.drop_last() =~= e3);
    assert(e3.drop_last() =~= e2);
    assert(e2.drop_last() =~= e1);
    assert(e1.drop_last() =~= e0);
    let d0 = drive(s, e0, table);
    let d1 = drive(s, e1, table);
    assert(d1.1 =~= seq![]);
    let d2 = drive(s, e2, table);
    assert(d2.1 =~= seq![ev(meta, PRESS), ev(key, PRESS)]);
    let d3 = drive(s, e3, table);
    assert(d3.1 =~= seq![ev(meta, PRESS), ev(key, PRESS), ev(key, RELEASE)]);
    let d4 = drive(s, e4, table);
    assert(releases_last_first(d3.0.held_mods) =~= seq![]);
    assert(d4.1 =~= seq![ev(meta, PRESS), ev(key, PRESS), ev(key, RELEASE), ev(meta, RELEASE)]);
    assert(d4.0.held_mods =~= Seq::<u16>::empty());
}

/// Releasing Super when the hold owes something releases every synthetic
/// modifier still held (last pressed first) and then the real Super it
/// passed through, under that key's own code; afterwards nothing is held or
/// owed.
pub proof fn law_super_release_clears(s: EngineState, meta: u16, table: Seq<(u16, Seq<u16>)>)
    requires
        is_meta_code(meta),
        !nothing_owed(s),
    ensures
        step(s, meta, RELEASE, table) == (
            EngineState { super_down: false, held_mods: seq![], emitted_super: false, ..s },
            releases_last_first(s.held_mods) + if s.emitted_super {
                seq![ev(s.passed_super, RELEASE)]
            } else {
                seq![]
            },
        ),
{
}

/// Pressing a Super key emits nothing and keeps whatever a hold in progress
/// (the other Super key) holds or owes: it stays held until Super is
/// released.
pub proof fn law_super_press_keeps_hold(s: EngineState, meta: u16, table: Seq<(u16, Seq<u16>)>)
    requires
        is_meta_code(meta),
    ensures
        step(s, meta, PRESS, table) == (
            EngineState { super_down: true, meta_code: meta, ..s },
            Seq::<KeyEvent>::empty(),
        ),
{
}

/// While Super is held, the release or autorepeat of a mapped key is passed
/// through as is, and the held modifiers stay as they are.
pub proof fn law_mapped_key_release_passes(
    s: EngineState,
    key: u16,
    value: i32,
    table: Seq<(u16, Seq<u16>)>,
)
    requires
        s.super_down,
        !is_meta_code(key),
        lookup(table, key) is Some,
        value != PRESS,
    ensures
        step(s, key, value, table) == (s, seq![ev(key, value)]),
{
}

/// In any event stream, the release or autorepeat of a mapped key while
/// Super is held is passed through in place, and everything after it is
/// emitted exactly as if it had not occurred.
pub proof fn law_mapped_release_in_stream(
    s: EngineState,
    before: Seq<(u16, i32)>,
    after: Seq<(u16, i32)>,
    key: u16,
    value: i32,
    table: Seq<(u16, Seq<u16>)>,
)
    requires
        drive(s, before, table).0.super_down,
        !is_meta_code(key),
        lookup(table, key) is Some,
        value != PRESS,
    ensures
        ({
            let a = drive(s, before, table);
            let b = drive(a.0, after, table);
            &&& drive(s, before.push((key, value)) + after, table) == (
                b.0,
                a.1 + seq![ev(key, value)] + b.1,
            )
            &&& drive(s, before + after, table) == (b.0, a.1 + b.1)
        }),
{
    let with = before.push((key, value));
    assert(with.drop_last() =~= before);
    lemma_drive_concat(s, with, after, table);
    lemma_drive_concat(s, before, after, table);
}

/// Autorepeat of a held Super key changes nothing and emits nothing.
pub proof fn law_super_autorepeat_ignored(
    s: EngineState,
    meta: u16,
    value: i32,
    table: Seq<(u16, Seq<u16>)>,
)
    requires
        is_meta_code(meta),
        value != PRESS,
        value != RELEASE,
    ensures
        step(s, meta, value, table) == (s, Seq::<KeyEvent>::empty()),
{
}

/// In any event stream, a Super autorepeat is invisible: the engine emits
/// exactly what it would had the autorepeat not occurred, and ends in the
/// same state.
pub proof fn law_super_autorepeat_invisible(
    s: EngineState,
    before: Seq<(u16, i32)>,
    after: Seq<(u16, i32)>,
    meta: u16,
    value: i32,
    table: Seq<(u16, Seq<u16>)>,
)
    requires
        is_meta_code(meta),
        value != PRESS,
        value != RELEASE,
    ensures
        drive(s, before.push((meta, value)) + after, table) == drive(s, before + after, table),
{
    let with = before.push((meta, value));
    assert(with.drop_last() =~= before);
    let a = drive(s, before, table);
    assert(a.1 + Seq::<KeyEvent>::empty() =~= a.1);
    lemma_drive_concat(s, with, after, table);
    lemma_drive_concat(s, before, after, table);
}

pub(crate) proof fn lemma_filter_distinct(s: Seq<u16>, p: spec_fn(u16) -> bool)
    requires
        s.no_duplicates(),
    ensures
        s.filter(p).no_duplicates(),
    decreases s.len(),
{
    reveal_with_fuel(Seq::<_>::filter, 1);
    if s.len() > 0 {
        let rest = s.drop_last();
        assert(rest.no_duplicates());
        lemma_filter_distinct(rest, p);
        if p(s.last()) {
            if rest.filter(p).contains(s.last()) {
                rest.lemma_filter_contains_rev(p, s.last());
                let k = choose|k: int| 0 <= k < rest.len() && rest[k] == s.last();
                assert(s[k] == s[s.len() - 1]);
            }
        }
    }
}

pub(crate) proof fn lemma_missing_distinct(kept: Seq<u16>, mods: Seq<u16>)
    requires
        kept.no_duplicates(),
    ensures
        (kept + missing_mods(kept, mods)).no_duplicates(),
    decreases mods.len(),
{
    if mods.len() == 0 {
        assert(kept + missing_mods(kept, mods) =~= kept);
    } else {
        lemma_missing_distinct(kept, mods.drop_last());
        let prev = missing_mods(kept, mods.drop_last());
        if !(kept + prev).contains(mods.last()) {
            assert(kept + prev.push(mods.last()) =~= (kept + prev).push(mods.last()));
        }
    }
}

/// Each synthetic modifier is held at most once: stepping the engine keeps
/// the held modifiers free of duplicates.
pub proof fn law_held_mods_distinct(
    s: EngineState,
    code: u16,
    value: i32,
    table: Seq<(u16, Seq<u16>)>,
)
    requires
        s.held_mods.no_duplicates(),
    ensures
        step(s, code, value, table).0.held_mods.no_duplicates(),
{
    if !is_meta_code(code) && s.super_down && value == PRESS {
        if let Some(mods) = lookup(table, code) {
            lemma_filter_distinct(s.held_mods, wanted(mods));
            lemma_missing_distinct(s.held_mods.filter(wanted(mods)), mods);
        }
    }
    if is_meta_code(code) && value == RELEASE {
        assert(step(s, code, value, table).0.held_mods =~= Seq::<u16>::empty());
    }
}

// ---------------------------------------------------------------------------
// The built-in tables
// ---------------------------------------------------------------------------
proof fn lemma_lookup_concat(a: Seq<(u16, Seq<u16>)>, b: Seq<(u16, Seq<u16>)>, code: u16)
    ensures
        lookup(a + b, code) == match lookup(a, code) {
            Some(m) => Some(m),
            None => lookup(b, code),
        },
    decreases a.len(),
{
    if a.len() == 0 {
        assert(a + b =~= b);
    } else {
        assert((a + b).drop_first() =~= a.drop_first() + b);
        assert((a + b)[0] == a[0]);
        lemma_lookup_concat(a.drop_first(), b, code);
    }
}

/// A modifier set that a binding may ask for: at least one modifier, each once.
pub open spec fn valid_mods(mods: Seq<u16>) -> bool {
    mods.len() > 0 && mods.no_duplicates()
}

proof fn lemma_lookup_valid(table: Seq<(u16, Seq<u16>)>, code: u16)
    requires
        forall|i: int| 0 <= i < table.len() ==> valid_mods(#[trigger] table[i].1),
    ensures
        lookup(table, code) matches Some(m) ==> valid_mods(m),
    decreases table.len(),
{
    if table.len() > 0 {
        let rest = table.drop_first();
        assert forall|i: int| 0 <= i < rest.len() implies valid_mods(#[trigger] rest[i].1) by {
            assert(rest[i] == table[i + 1]);
        }
        assert(valid_mods(table[0].1));
        lemma_lookup_valid(rest, code);
    }
}

proof fn lemma_modifier_sets_valid()
    ensures
        valid_mods(ctrl()),
        valid_mods(ctrl_shift()),
        valid_mods(alt()),
{
    assert(ctrl_shift()[0] != ctrl_shift()[1]);
}

/// The table of every keymap that an app id can select.
pub open spec fn is_builtin_table(table: Seq<(u16, Seq<u16>)>) -> bool {
    table == global_table() || table == files_table() || table == firefox_table() || table
        == terminal_table()
}

/// Every binding of every built-in keymap asks for at least one modifier, and
/// for each modifier once.
pub proof fn law_builtin_bindings_valid(app_id: Option<Seq<char>>, code: u16)
    ensures
        is_builtin_table(table_for(app_id)),
        lookup(table_for(app_id), code) matches Some(m) ==> valid_mods(m),
{
    lemma_modifier_sets_valid();
    let t = table_for(app_id);
    assert forall|i: int| 0 <= i < t.len() implies valid_mods(#[trigger] t[i].1) by {
        if t == files_table() {
            if i < global_table().len() {
                assert(t[i] == global_table()[i]);
            }
        } else if t == firefox_table() {
            if i < global_table().len() {
                assert(t[i] == global_table()[i]);
            }
        }
    }
    lemma_lookup_valid(t, code);
}

/// In every app's keymap, Super + any mapped key tapped alone (no hold owing
/// anything) becomes that
/// binding's modifiers + the key, with every modifier released with Super.
pub proof fn law_builtin_shortcut(
    app_id: Option<Seq<char>>,
    s: EngineState,
    meta: u16,
    key: u16,
    mods: Seq<u16>,
)
    requires
        is_meta_code(meta),
        !is_meta_code(key),
        lookup(table_for(app_id), key) == Some(mods),
        nothing_owed(s),
    ensures
        ({
            let d = drive(
                s,
                seq![(meta, PRESS), (key, PRESS), (key, RELEASE), (meta, RELEASE)],
                table_for(app_id),
            );
            &&& d.1 == presses(mods) + seq![ev(key, PRESS), ev(key, RELEASE)] + releases_last_first(mods)
            &&& !d.0.super_down
            &&& nothing_owed(d.0)
        }),
{
    law_builtin_bindings_valid(app_id, key);
    law_mapped_shortcut(s, meta, key, table_for(app_id), mods);
}

/// Files and Firefox keep every global binding unchanged (they are "global,
/// plus" their own keys).
pub proof fn law_app_keymaps_extend_global(code: u16)
    requires
        lookup(global_table(), code) is Some,
    ensures
        lookup(files_table(), code) == lookup(global_table(), code),
        lookup(firefox_table(), code) == lookup(global_table(), code),
{
    assert(files_table() =~= global_table() + seq![(KEY_UP, alt())]);
    lemma_lookup_concat(global_table(), seq![(KEY_UP, alt())], code);
    lemma_lookup_concat(global_table(), seq![(KEY_LEFT, alt()), (KEY_RIGHT, alt())], code);
}

/// Ghostty and GNOME Terminal share the same terminal convention table.
pub proof fn law_terminals_share_table()
    ensures
        table_for(Some("com.mitchellh.ghostty.desktop"@)) == table_for(
            Some("org.gnome.Terminal.desktop"@),
        ),
        table_for(Some("org.gnome.Terminal.desktop"@)) == terminal_table(),
{
    reveal_strlit("com.mitchellh.ghostty.desktop");
    reveal_strlit("org.gnome.Terminal.desktop");
    reveal_strlit("org.gnome.Nautilus.desktop");
    reveal_strlit("firefox.desktop");
    assert("org.gnome.Terminal.desktop"@[10] != "org.gnome.Nautilus.desktop"@[10]);
    assert("com.mitchellh.ghostty.desktop"@.len() != "org.gnome.Nautilus.desktop"@.len());
    assert("com.mitchellh.ghostty.desktop"@.len() != "firefox.desktop"@.len());
    assert("org.gnome.Terminal.desktop"@.len() != "firefox.desktop"@.len());
}

/// The global keymap rewrites each of its letters to Ctrl + the letter.
pub proof fn law_global_letters_to_ctrl(code: u16)
    requires
        code == KEY_C || code == KEY_V || code == KEY_X || code == KEY_A || code == KEY_Z || code
            == KEY_S || code == KEY_F || code == KEY_N || code == KEY_O || code == KEY_W || code
            == KEY_Q || code == KEY_T,
    ensures
        lookup(global_table(), code) == Some(ctrl()),
{
    reveal_with_fuel(lookup, 13);
}

/// In a terminal, copy/paste/cut and tab/window/split get Ctrl + Shift; the
/// other letters keep plain Ctrl.
pub proof fn law_terminal_convention(code: u16)
    ensures
        (code == KEY_C || code == KEY_V || code == KEY_X || code == KEY_T || code == KEY_W || code
            == KEY_N) ==> lookup(terminal_table(), code) == Some(ctrl_shift()),
        (code == KEY_A || code == KEY_Z || code == KEY_S || code == KEY_F || code == KEY_O || code
            == KEY_Q) ==> lookup(terminal_table(), code) == Some(ctrl()),
{
    reveal_with_fuel(lookup, 13);
}

/// Firefox maps Left/Right to Alt (history back/forward) and Files maps Up to
/// Alt (parent directory); the global keymap maps none of the three.
pub proof fn law_app_specific_arrows()
    ensures
        lookup(firefox_table(), KEY_LEFT) == Some(alt()),
        lookup(firefox_table(), KEY_RIGHT) == Some(alt()),
        lookup(files_table(), KEY_UP) == Some(alt()),
        lookup(global_table(), KEY_LEFT) is None,
        lookup(global_table(), KEY_RIGHT) is None,
        lookup(global_table(), KEY_UP) is None,
{
    reveal_with_fuel(lookup, 15);
}

} // verus!

verus! {

/// The Super keys are exactly left and right Meta (codes 125 and 126), and
/// with no Super key held every other key event passes through unchanged:
/// Ctrl, Shift, Alt and every letter reach the desktop as typed.
pub proof fn law_super_keys_are_the_meta_keys(
    s: EngineState,
    code: u16,
    value: i32,
    table: Seq<(u16, Seq<u16>)>,
)
    ensures
        is_meta_code(code) <==> (code == 125 || code == 126),
        !s.super_down && code != 125 && code != 126 ==> step(s, code, value, table) == (
            s,
            seq![ev(code, value)],
        ),
{
}

/// The keymap an app id selects is the one its id names: the Files,
/// Firefox and terminal tables for their apps, the global table otherwise,
/// with their characteristic bindings (Super+Left/Right to Alt in Firefox,
/// Super+Up to Alt in Files, Super+C to Ctrl+Shift in the terminals, and
/// Super+C to Ctrl with Left left alone in the global keymap).
pub proof fn law_selected_table_matches_id(app_id: Option<Seq<char>>)
    ensures
        keymap_id_for(Some("firefox.desktop"@)) == "firefox.desktop"@,
        keymap_id_for(Some("org.gnome.Nautilus.desktop"@)) == "org.gnome.Nautilus.desktop"@,
        keymap_id_for(Some("com.mitchellh.ghostty.desktop"@)) == "com.mitchellh.ghostty.desktop"@,
        keymap_id_for(Some("org.gnome.Terminal.desktop"@)) == "org.gnome.Terminal.desktop"@,
        keymap_id_for(app_id) == "firefox.desktop"@ ==> table_for(app_id) == firefox_table()
            && lookup(table_for(app_id), 105) == Some(seq![56u16]) && lookup(
            table_for(app_id),
            106,
        ) == Some(seq![56u16]) && lookup(table_for(app_id), 46) == Some(seq![29u16]),
        keymap_id_for(app_id) == "org.gnome.Nautilus.desktop"@ ==> table_for(app_id)
            == files_table() && lookup(table_for(app_id), 103) == Some(seq![56u16]) && lookup(
            table_for(app_id),
            46,
        ) == Some(seq![29u16]),
        keymap_id_for(app_id) == "com.mitchellh.ghostty.desktop"@ || keymap_id_for(app_id)
            == "org.gnome.Terminal.desktop"@ ==> table_for(app_id) == terminal_table() && lookup(
            table_for(app_id),
            46,
        ) == Some(seq![29u16, 42u16]) && lookup(table_for(app_id), 30) == Some(seq![29u16]),
        keymap_id_for(app_id) == "global"@ ==> table_for(app_id) == global_table() && lookup(
            table_for(app_id),
            46,
        ) == Some(seq![29u16]) && lookup(table_for(app_id), 105) is None && lookup(
            table_for(app_id),
            103,
        ) is None,
{
    reveal_strlit("firefox.desktop");
    reveal_strlit("org.gnome.Nautilus.desktop");
    reveal_strlit("com.mitchellh.ghostty.desktop");
    reveal_strlit("org.gnome.Terminal.desktop");
    reveal_strlit("global");
    assert("org.gnome.Terminal.desktop"@[10] != "org.gnome.Nautilus.desktop"@[10]);
    assert("global"@.len() != "firefox.desktop"@.len());
    assert("global"@.len() != "org.gnome.Nautilus.desktop"@.len());
    assert("firefox.desktop"@.len() != "org.gnome.Nautilus.desktop"@.len());
    if keymap_id_for(app_id) == "firefox.desktop"@ {
        assert(app_id == Some("firefox.desktop"@));
    }
    if keymap_id_for(app_id) == "org.gnome.Nautilus.desktop"@ {
        assert(app_id == Some("org.gnome.Nautilus.desktop"@));
    }
    law_terminals_share_table();
    law_app_specific_arrows();
    law_global_letters_to_ctrl(KEY_C);
    law_app_keymaps_extend_global(KEY_C);
    law_terminal_convention(KEY_C);
    law_terminal_convention(KEY_A);
    assert(ctrl_shift() == seq![29u16, 42u16]);
    assert(alt() == seq![56u16]);
    assert(ctrl() == seq![29u16]);
}

} // verus!
