//! No key is left down: over the whole output of the engine, each synthetic
//! modifier is pressed at most once at a time, never released while up, and
//! up again once Super is released.

use crate::keymap::{
    ev, initial_state, is_meta_code, lookup, missing_mods, pending_releases, presses, releases,
    releases_last_first, step, unwanted, wanted, EngineState, KeyEvent, PRESS, RELEASE,
};
use crate::keymap_laws::{law_held_mods_distinct, lemma_filter_distinct, lemma_missing_distinct};
use vstd::prelude::*;

verus! {

/// How an event moves key `m`: +1 for its press, -1 for its release.
pub open spec fn delta(e: KeyEvent, m: u16) -> int {
    if e == ev(m, PRESS) {
        1
    } else if e == ev(m, RELEASE) {
        -1
    } else {
        0
    }
}

/// Presses of `m` minus releases of `m` over `out`.
pub open spec fn net_level(out: Seq<KeyEvent>, m: u16) -> int
    decreases out.len(),
{
    if out.len() == 0 {
        0
    } else {
        net_level(out.drop_last(), m) + delta(out.last(), m)
    }
}

/// Starting with `m` at level `h` (1 down, 0 up), every prefix of `out`
/// leaves `m` down at most once and never below up.
pub open spec fn level_within(out: Seq<KeyEvent>, m: u16, h: int) -> bool {
    forall|k: int| 0 <= k <= out.len() ==> 0 <= h + #[trigger] net_level(out.take(k), m) <= 1
}

/// Whether the engine holds `m` as a synthetic modifier: 1 if so, else 0.
pub open spec fn held_level(s: EngineState, m: u16) -> int {
    if s.held_mods.contains(m) {
        1
    } else {
        0
    }
}

/// What every reachable engine state satisfies: each modifier is held at
/// most once, and the Super keys on record (the one held, the one passed
/// through) are Super keys.
pub open spec fn engine_inv(s: EngineState) -> bool {
    s.held_mods.no_duplicates() && is_meta_code(s.meta_code) && is_meta_code(s.passed_super)
}

/// The engine run over `events`, the `i`-th event under the keymap
/// `tables[i]` (the active keymap may change between events).
pub open spec fn drive_under(
    s: EngineState,
    events: Seq<(u16, i32)>,
    tables: Seq<Seq<(u16, Seq<u16>)>>,
) -> (EngineState, Seq<KeyEvent>)
    decreases events.len(),
{
    if events.len() == 0 {
        (s, seq![])
    } else {
        let prev = drive_under(s, events.drop_last(), tables.drop_last());
        let next = step(prev.0, events.last().0, events.last().1, tables.last());
        (next.0, prev.1 + next.1)
    }
}

proof fn lemma_net_concat(a: Seq<KeyEvent>, b: Seq<KeyEvent>, m: u16)
    ensures
        net_level(a + b, m) == net_level(a, m) + net_level(b, m),
    decreases b.len(),
{
    if b.len() == 0 {
        assert(a + b =~= a);
    } else {
        assert((a + b).drop_last() =~= a + b.drop_last());
        lemma_net_concat(a, b.drop_last(), m);
    }
}

proof fn lemma_net_take_step(x: Seq<KeyEvent>, k: int, m: u16)
    requires
        0 <= k < x.len(),
    ensures
        net_level(x.take(k + 1), m) == net_level(x.take(k), m) + delta(x[k], m),
{
    assert(x.take(k + 1).drop_last() =~= x.take(k));
}

/// Where `m` moves at most at index `j` (none if `j` is out of range), every
/// prefix's level is 0 before `j` and the move at `j` from then on.
proof fn lemma_net_single(x: Seq<KeyEvent>, j: int, m: u16, k: int)
    requires
        forall|i: int| 0 <= i < x.len() && i != j ==> delta(#[trigger] x[i], m) == 0,
        0 <= k <= x.len(),
    ensures
        net_level(x.take(k), m) == if 0 <= j < k {
            delta(x[j], m)
        } else {
            0
        },
    decreases k,
{
    if k == 0 {
        assert(x.take(0) =~= Seq::<KeyEvent>::empty());
    } else {
        lemma_net_single(x, j, m, k - 1);
        lemma_net_take_step(x, k - 1, m);
    }
}

proof fn lemma_within_single(x: Seq<KeyEvent>, j: int, m: u16, h: int)
    requires
        forall|i: int| 0 <= i < x.len() && i != j ==> delta(#[trigger] x[i], m) == 0,
        0 <= h <= 1,
        0 <= j < x.len() ==> 0 <= h + delta(x[j], m) <= 1,
    ensures
        level_within(x, m, h),
        net_level(x, m) == if 0 <= j < x.len() {
            delta(x[j], m)
        } else {
            0
        },
{
    assert forall|k: int| 0 <= k <= x.len() implies 0 <= h + #[trigger] net_level(x.take(k), m)
        <= 1 by {
        lemma_net_single(x, j, m, k);
    }
    lemma_net_single(x, j, m, x.len() as int);
    assert(x.take(x.len() as int) =~= x);
}

proof fn lemma_within_concat(a: Seq<KeyEvent>, b: Seq<KeyEvent>, m: u16, h: int)
    requires
        level_within(a, m, h),
        level_within(b, m, h + net_level(a, m)),
    ensures
        level_within(a + b, m, h),
        net_level(a + b, m) == net_level(a, m) + net_level(b, m),
{
    lemma_net_concat(a, b, m);
    assert forall|k: int| 0 <= k <= (a + b).len() implies 0 <= h + #[trigger] net_level(
        (a + b).take(k),
        m,
    ) <= 1 by {
        if k <= a.len() {
            assert((a + b).take(k) =~= a.take(k));
        } else {
            assert((a + b).take(k) =~= a + b.take(k - a.len()));
            lemma_net_concat(a, b.take(k - a.len()), m);
            assert(a.take(a.len() as int) =~= a);
            assert(0 <= h + net_level(a.take(a.len() as int), m) <= 1);
            assert(0 <= h + net_level(a, m) + net_level(b.take(k - a.len()), m) <= 1);
        }
    }
}

/// The releases of a duplicate-free list, last first, release `m` once if it
/// is in the list, else not at all.
proof fn lemma_releases_level(held: Seq<u16>, m: u16, h: int)
    requires
        held.no_duplicates(),
        h == (if held.contains(m) {
            1int
        } else {
            0int
        }),
    ensures
        level_within(releases_last_first(held), m, h),
        net_level(releases_last_first(held), m) == -h,
{
    let x = releases_last_first(held);
    let n = held.len();
    if held.contains(m) {
        let p = choose|p: int| 0 <= p < n && held[p] == m;
        let j = n - 1 - p;
        assert forall|i: int| 0 <= i < x.len() && i != j implies delta(#[trigger] x[i], m) == 0 by {
            assert(held[n - 1 - i] != held[p]);
        }
        lemma_within_single(x, j, m, h);
    } else {
        assert forall|i: int| 0 <= i < x.len() && i != -1 implies delta(#[trigger] x[i], m)
            == 0 by {
            assert(held[n - 1 - i] != m);
        }
        lemma_within_single(x, -1, m, h);
    }
}

/// The same, for releases in list order.
proof fn lemma_releases_in_order_level(t: Seq<u16>, m: u16, h: int)
    requires
        t.no_duplicates(),
        0 <= h <= 1,
        t.contains(m) ==> h == 1,
    ensures
        level_within(releases(t), m, h),
        net_level(releases(t), m) == if t.contains(m) {
            -1int
        } else {
            0int
        },
{
    let x = releases(t);
    if t.contains(m) {
        let j = choose|j: int| 0 <= j < t.len() && t[j] == m;
        assert forall|i: int| 0 <= i < x.len() && i != j implies delta(#[trigger] x[i], m) == 0 by {
            assert(t[i] != t[j]);
        }
        lemma_within_single(x, j, m, h);
    } else {
        assert forall|i: int| 0 <= i < x.len() && i != -1 implies delta(#[trigger] x[i], m)
            == 0 by {
            assert(t[i] != m);
        }
        lemma_within_single(x, -1, m, h);
    }
}

/// Presses in list order press `m` once if it is in the list, else not at
/// all.
proof fn lemma_presses_level(t: Seq<u16>, m: u16, h: int)
    requires
        t.no_duplicates(),
        0 <= h <= 1,
        t.contains(m) ==> h == 0,
    ensures
        level_within(presses(t), m, h),
        net_level(presses(t), m) == if t.contains(m) {
            1int
        } else {
            0int
        },
{
    let x = presses(t);
    if t.contains(m) {
        let j = choose|j: int| 0 <= j < t.len() && t[j] == m;
        assert forall|i: int| 0 <= i < x.len() && i != j implies delta(#[trigger] x[i], m) == 0 by {
            assert(t[i] != t[j]);
        }
        lemma_within_single(x, j, m, h);
    } else {
        assert forall|i: int| 0 <= i < x.len() && i != -1 implies delta(#[trigger] x[i], m)
            == 0 by {
            assert(t[i] != m);
        }
        lemma_within_single(x, -1, m, h);
    }
}

/// Events that never touch `m` leave its level where it is.
proof fn lemma_untouched_level(x: Seq<KeyEvent>, m: u16, h: int)
    requires
        forall|i: int| 0 <= i < x.len() ==> (#[trigger] x[i]).code != m,
        0 <= h <= 1,
    ensures
        level_within(x, m, h),
        net_level(x, m) == 0,
{
    lemma_within_single(x, -1, m, h);
}

/// Every modifier the reconciliation presses is one the binding asks for,
/// and every one it asks for ends up held.
proof fn lemma_missing_members(kept: Seq<u16>, mods: Seq<u16>, x: u16)
    ensures
        missing_mods(kept, mods).contains(x) ==> mods.contains(x),
        mods.contains(x) ==> (kept + missing_mods(kept, mods)).contains(x),
    decreases mods.len(),
{
    if mods.len() > 0 {
        let init = mods.drop_last();
        lemma_missing_members(kept, init, x);
        let prev = missing_mods(kept, init);
        if missing_mods(kept, mods).contains(x) {
            if prev.contains(x) {
                assert(init.contains(x));
                let k = choose|k: int| 0 <= k < init.len() && init[k] == x;
                assert(mods[k] == x);
            } else {
                assert(x == mods.last());
            }
        }
        if mods.contains(x) {
            if x == mods.last() {
                if !(kept + prev).contains(x) {
                    assert((kept + prev.push(x))[(kept + prev).len() as int] == x);
                }
            } else {
                let k = choose|k: int| 0 <= k < mods.len() && mods[k] == x;
                assert(init[k] == x);
                assert(init.contains(x));
                let w = choose|w: int| 0 <= w < (kept + prev).len() && (kept + prev)[w] == x;
                if !(kept + prev).contains(mods.last()) {
                    assert((kept + prev.push(mods.last()))[w] == x);
                }
            }
        }
    }
}

proof fn lemma_concat_distinct_parts(a: Seq<u16>, b: Seq<u16>)
    requires
        (a + b).no_duplicates(),
    ensures
        a.no_duplicates(),
        b.no_duplicates(),
        forall|x: u16| a.contains(x) ==> !b.contains(x),
{
    assert forall|i: int, j: int| 0 <= i < b.len() && 0 <= j < b.len() && i != j implies b[i]
        != b[j] by {
        assert((a + b)[a.len() + i] == b[i]);
        assert((a + b)[a.len() + j] == b[j]);
    }
    assert forall|i: int, j: int| 0 <= i < a.len() && 0 <= j < a.len() && i != j implies a[i]
        != a[j] by {
        assert((a + b)[i] == a[i]);
        assert((a + b)[j] == a[j]);
    }
    assert forall|x: u16| a.contains(x) implies !b.contains(x) by {
        if b.contains(x) {
            let i = choose|i: int| 0 <= i < a.len() && a[i] == x;
            let j = choose|j: int| 0 <= j < b.len() && b[j] == x;
            assert((a + b)[i] == (a + b)[a.len() + j]);
        }
    }
}

/// A mapped key press moves `m` as the reconciliation of the held modifiers
/// says: released once if held and not wanted, pressed once if wanted and
/// not held, else untouched.
proof fn lemma_mapped_press_level(s: EngineState, code: u16, mods: Seq<u16>, m: u16)
    requires
        s.held_mods.no_duplicates(),
        code != m,
    ensures
        ({
            let kept = s.held_mods.filter(wanted(mods));
            let dropped = s.held_mods.filter(unwanted(mods));
            let added = missing_mods(kept, mods);
            let out = releases(dropped) + presses(added) + seq![ev(code, PRESS)];
            &&& level_within(out, m, held_level(s, m))
            &&& held_level(s, m) + net_level(out, m) == (if (kept + added).contains(m) {
                1int
            } else {
                0int
            })
        }),
{
    let held = s.held_mods;
    let kept = held.filter(wanted(mods));
    let dropped = held.filter(unwanted(mods));
    let added = missing_mods(kept, mods);
    let h = held_level(s, m);
    lemma_filter_distinct(held, wanted(mods));
    lemma_filter_distinct(held, unwanted(mods));
    lemma_missing_distinct(kept, mods);
    lemma_concat_distinct_parts(kept, added);
    lemma_missing_members(kept, mods, m);
    // Membership of `m` in the filtered lists.
    if dropped.contains(m) {
        held.lemma_filter_contains_rev(unwanted(mods), m);
        let i = choose|i: int| 0 <= i < dropped.len() && dropped[i] == m;
        held.lemma_filter_pred(unwanted(mods), i);
    }
    if kept.contains(m) {
        held.lemma_filter_contains_rev(wanted(mods), m);
        let i = choose|i: int| 0 <= i < kept.len() && kept[i] == m;
        held.lemma_filter_pred(wanted(mods), i);
    }
    if held.contains(m) {
        let i = choose|i: int| 0 <= i < held.len() && held[i] == m;
        if mods.contains(m) {
            held.lemma_filter_contains(wanted(mods), i);
        } else {
            held.lemma_filter_contains(unwanted(mods), i);
        }
    }
    let r = releases(dropped);
    let p = presses(added);
    let k = seq![ev(code, PRESS)];
    lemma_releases_in_order_level(dropped, m, h);
    let h1 = h + net_level(r, m);
    assert(0 <= h1 <= 1);
    lemma_presses_level(added, m, h1);
    let h2 = h1 + net_level(p, m);
    assert(0 <= h2 <= 1);
    assert forall|i: int| 0 <= i < k.len() implies (#[trigger] k[i]).code != m by {}
    lemma_untouched_level(k, m, h2);
    lemma_within_concat(r, p, m, h);
    lemma_within_concat(r + p, k, m, h);
    if (kept + added).contains(m) {
        let w = choose|w: int| 0 <= w < (kept + added).len() && (kept + added)[w] == m;
        if w < kept.len() {
            assert(kept.contains(m));
        } else {
            assert(added[w - kept.len()] == m);
        }
    }
}

/// One step of the engine keeps its invariant, and moves every modifier `m`
/// that is not the input key nor a Super key exactly as the held modifiers
/// change, without ever pressing it twice or releasing it while up.
pub proof fn law_step_keeps_modifier_level(
    s: EngineState,
    code: u16,
    value: i32,
    table: Seq<(u16, Seq<u16>)>,
    m: u16,
)
    requires
        engine_inv(s),
        code != m,
        !is_meta_code(m),
    ensures
        engine_inv(step(s, code, value, table).0),
        level_within(step(s, code, value, table).1, m, held_level(s, m)),
        held_level(s, m) + net_level(step(s, code, value, table).1, m) == held_level(
            step(s, code, value, table).0,
            m,
        ),
{
    law_held_mods_distinct(s, code, value, table);
    let r = step(s, code, value, table);
    let h = held_level(s, m);
    if is_meta_code(code) {
        if value == PRESS {
            assert(r.1 =~= Seq::<KeyEvent>::empty());
            lemma_untouched_level(r.1, m, h);
        } else if value == RELEASE {
            let owed: Seq<KeyEvent> = if s.emitted_super {
                seq![ev(s.passed_super, RELEASE)]
            } else {
                seq![]
            };
            lemma_releases_level(s.held_mods, m, h);
            assert forall|i: int| 0 <= i < owed.len() implies (#[trigger] owed[i]).code != m by {}
            lemma_untouched_level(owed, m, 0);
            lemma_within_concat(releases_last_first(s.held_mods), owed, m, h);
            assert(pending_releases(s) == releases_last_first(s.held_mods) + owed);
            let tap = seq![ev(s.meta_code, PRESS), ev(s.meta_code, RELEASE)];
            assert forall|i: int| 0 <= i < tap.len() implies (#[trigger] tap[i]).code != m by {}
            lemma_untouched_level(tap, m, h);
            if s.held_mods.len() == 0 {
                assert(!s.held_mods.contains(m));
            }
            assert(!r.0.held_mods.contains(m));
        } else {
            assert(r.1 =~= Seq::<KeyEvent>::empty());
            lemma_untouched_level(r.1, m, h);
        }
    } else if !s.super_down {
        assert forall|i: int| 0 <= i < r.1.len() implies (#[trigger] r.1[i]).code != m by {}
        lemma_untouched_level(r.1, m, h);
    } else {
        match lookup(table, code) {
            Some(mods) => {
                if value == PRESS {
                    lemma_mapped_press_level(s, code, mods, m);
                } else {
                    assert forall|i: int| 0 <= i < r.1.len() implies (#[trigger] r.1[i]).code
                        != m by {}
                    lemma_untouched_level(r.1, m, h);
                }
            },
            None => {
                assert forall|i: int| 0 <= i < r.1.len() implies (#[trigger] r.1[i]).code != m by {}
                lemma_untouched_level(r.1, m, h);
            },
        }
    }
}

/// No key is left down. From a fresh engine, over any events and under any
/// keymaps, each modifier `m` that is not a Super key and not among the input
/// keys is, in every prefix of the output, pressed at most once and never
/// released while up; its level at the end is whether the engine still holds
/// it, and it is up whenever the last event was a Super release.
pub proof fn law_synthetic_modifiers_balanced(
    events: Seq<(u16, i32)>,
    tables: Seq<Seq<(u16, Seq<u16>)>>,
    m: u16,
)
    requires
        events.len() == tables.len(),
        !is_meta_code(m),
        forall|i: int| 0 <= i < events.len() ==> (#[trigger] events[i]).0 != m,
    ensures
        ({
            let d = drive_under(initial_state(), events, tables);
            &&& engine_inv(d.0)
            &&& level_within(d.1, m, 0)
            &&& net_level(d.1, m) == held_level(d.0, m)
            &&& (events.len() > 0 && is_meta_code(events.last().0) && events.last().1 == RELEASE)
                ==> net_level(d.1, m) == 0
        }),
    decreases events.len(),
{
    let d = drive_under(initial_state(), events, tables);
    if events.len() == 0 {
        assert(initial_state().held_mods =~= Seq::<u16>::empty());
        assert(d.1 =~= Seq::<KeyEvent>::empty());
        lemma_untouched_level(d.1, m, 0);
    } else {
        let rest = events.drop_last();
        assert forall|i: int| 0 <= i < rest.len() implies (#[trigger] rest[i]).0 != m by {
            assert(rest[i] == events[i]);
        }
        law_synthetic_modifiers_balanced(rest, tables.drop_last(), m);
        let prev = drive_under(initial_state(), rest, tables.drop_last());
        let e = events.last();
        assert(e == events[events.len() - 1]);
        law_step_keeps_modifier_level(prev.0, e.0, e.1, tables.last(), m);
        let nx = step(prev.0, e.0, e.1, tables.last());
        lemma_within_concat(prev.1, nx.1, m, 0);
        if is_meta_code(e.0) && e.1 == RELEASE {
            assert(!nx.0.held_mods.contains(m));
        }
    }
}

} // verus!
