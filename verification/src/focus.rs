//! The focused app and the keymap it selects, with the stale-report fallback,
//! and the decisions the focus tracker service makes on each report.

use crate::keymap::{global_table, keymap_for, keymap_id_for, opt_chars, table_for, Keymap};
use crate::text::str_eq;
use vstd::prelude::*;

verus! {

/// How long a focus report stays authoritative. After this, the engine falls
/// back to the global keymap (the focus signal is assumed lost).
pub const STALE_MS: u64 = 5000;

/// The last focus report, as values.
pub struct FocusView {
    pub app_id: Option<Seq<char>>,
    pub updated_at_ms: u64,
}

/// Milliseconds from `then` to `now`, or 0 if `now` is earlier.
pub open spec fn elapsed_ms(now: u64, then: u64) -> int {
    if now >= then {
        now - then
    } else {
        0
    }
}

/// A report was received and is older than the stale window at `now`.
pub open spec fn is_stale_at(f: FocusView, now: u64) -> bool {
    f.app_id is Some && elapsed_ms(now, f.updated_at_ms) > STALE_MS
}

/// The id of the keymap active at `now`.
pub open spec fn active_id_at(f: FocusView, now: u64) -> Seq<char> {
    if is_stale_at(f, now) {
        "global"@
    } else {
        keymap_id_for(f.app_id)
    }
}

/// The bindings of the keymap active at `now`.
pub open spec fn active_table_at(f: FocusView, now: u64) -> Seq<(u16, Seq<u16>)> {
    if is_stale_at(f, now) {
        global_table()
    } else {
        table_for(f.app_id)
    }
}

/// Tracks the focused app and when it was last reported, and selects the
/// active keymap from it, over a monotonic clock in milliseconds.
#[derive(Debug)]
pub struct FocusState {
    app_id: Option<String>,
    updated_at_ms: u64,
}

impl View for FocusState {
    type V = FocusView;

    closed spec fn view(&self) -> FocusView {
        FocusView {
            app_id: match self.app_id {
                Some(s) => Some(s@),
                None => None,
            },
            updated_at_ms: self.updated_at_ms,
        }
    }
}

impl Default for FocusState {
    fn default() -> (r: Self)
        ensures
            r@.app_id is None,
            r@.updated_at_ms == 0,
    {
        FocusState { app_id: None, updated_at_ms: 0 }
    }
}

/// What accepting a focus report changed.
#[derive(Debug, Clone, Copy, PartialEq, Eq)]
pub struct FocusReport {
    /// The reported app differs from the one last reported (heartbeats
    /// re-send the same app).
    pub focus_changed: bool,
    /// The keymap active just before the report.
    pub previous_keymap: &'static str,
    /// The keymap active just after the report.
    pub active_keymap: &'static str,
    /// The two keymaps differ.
    pub keymap_switched: bool,
}

impl FocusState {
    pub fn new() -> (r: Self)
        ensures
            r@.app_id is None,
            r@.updated_at_ms == 0,
    {
        Self::default()
    }

    /// Record a fresh focus report.
    pub fn update(&mut self, app_id: String, now_ms: u64)
        ensures
            final(self)@ == (FocusView { app_id: Some(app_id@), updated_at_ms: now_ms }),
    {
        self.app_id = Some(app_id);
        self.updated_at_ms = now_ms;
    }

    /// The app id last reported (regardless of staleness).
    pub fn app_id(&self) -> (r: Option<&str>)
        ensures
            opt_chars(r) == self@.app_id,
    {
        match &self.app_id {
            Some(s) => Some(s.as_str()),
            None => None,
        }
    }

    /// Whether the last report is older than the stale window.
    pub fn is_stale(&self, now_ms: u64) -> (r: bool)
        ensures
            r == is_stale_at(self@, now_ms),
    {
        let elapsed = if now_ms >= self.updated_at_ms {
            now_ms - self.updated_at_ms
        } else {
            0
        };
        self.app_id.is_some() && elapsed > STALE_MS
    }

    /// The keymap active at `now_ms`: the focused app's keymap, or the global
    /// fallback if nothing has been reported or the last report is stale.
    pub fn active_keymap(&self, now_ms: u64) -> (r: Keymap)
        ensures
            r.id@ == active_id_at(self@, now_ms),
            r.table() == active_table_at(self@, now_ms),
    {
        if self.is_stale(now_ms) {
            keymap_for(None)
        } else {
            keymap_for(self.app_id())
        }
    }

    /// Accept a focus report for `app_id` at `now_ms`: record it and say what
    /// changed, for the service to log.
    pub fn accept_report(&mut self, app_id: String, now_ms: u64) -> (r: FocusReport)
        ensures
            final(self)@ == (FocusView { app_id: Some(app_id@), updated_at_ms: now_ms }),
            r.focus_changed == (old(self)@.app_id != Some(app_id@)),
            r.previous_keymap@ == active_id_at(old(self)@, now_ms),
            r.active_keymap@ == active_id_at(final(self)@, now_ms),
            r.keymap_switched == (r.previous_keymap@ != r.active_keymap@),
    {
        let previous_keymap = self.active_keymap(now_ms).id;
        let focus_changed = match self.app_id() {
            Some(current) => !str_eq(current, app_id.as_str()),
            None => true,
        };
        self.update(app_id, now_ms);
        let active_keymap = self.active_keymap(now_ms).id;
        let keymap_switched = !str_eq(previous_keymap, active_keymap);
        FocusReport { focus_changed, previous_keymap, active_keymap, keymap_switched }
    }
}

/// Whether a focus report may be applied: the caller's uid is known and is
/// the uid of the active local-seat user.
pub fn caller_authorized(sender_uid: Option<u32>, seat_uid: Option<u32>) -> (r: bool)
    ensures
        r == (sender_uid is Some && seat_uid == sender_uid),
{
    match (sender_uid, seat_uid) {
        (Some(sender), Some(seat)) => sender == seat,
        _ => false,
    }
}

/// Surfaces stale focus reports once per stale period.
#[derive(Debug)]
pub struct StaleWatch {
    warned: bool,
}

impl View for StaleWatch {
    type V = bool;

    /// A warning was given for the current stale period.
    closed spec fn view(&self) -> bool {
        self.warned
    }
}

impl StaleWatch {
    pub fn new() -> (r: Self)
        ensures
            !r@,
    {
        StaleWatch { warned: false }
    }

    /// Observe whether focus is stale now; true when a warning is due: on the
    /// first stale observation after a fresh one.
    pub fn observe(&mut self, stale: bool) -> (warn: bool)
        ensures
            warn == (stale && !old(self)@),
            final(self)@ == stale,
    {
        if stale && !self.warned {
            self.warned = true;
            true
        } else {
            if !stale {
                self.warned = false;
            }
            false
        }
    }
}

/// A report stays authoritative for `STALE_MS` after it is received: from
/// then through `STALE_MS` later the reported app's keymap is active, and
/// from one millisecond later the global one.
pub proof fn law_report_window(app_id: Seq<char>, at: u64, now: u64)
    ensures
        ({
            let f = FocusView { app_id: Some(app_id), updated_at_ms: at };
            &&& now <= at + STALE_MS ==> !is_stale_at(f, now) && active_id_at(f, now)
                == keymap_id_for(Some(app_id)) && active_table_at(f, now) == table_for(
                Some(app_id),
            )
            &&& now > at + STALE_MS ==> is_stale_at(f, now) && active_id_at(f, now) == "global"@
                && active_table_at(f, now) == global_table()
        }),
{
}

/// Before any report, the global keymap is active at every time.
pub proof fn law_no_report_is_global(updated_at_ms: u64, now: u64)
    ensures
        ({
            let f = FocusView { app_id: None, updated_at_ms };
            &&& !is_stale_at(f, now)
            &&& active_id_at(f, now) == "global"@
            &&& active_table_at(f, now) == global_table()
        }),
{
}

/// A watch that has `warned` run over successive stale readings `stales`,
/// as `StaleWatch::observe` steps it: its final state and the warning given
/// at each reading.
pub open spec fn watch_run(warned: bool, stales: Seq<bool>) -> (bool, Seq<bool>)
    decreases stales.len(),
{
    if stales.len() == 0 {
        (warned, seq![])
    } else {
        let prev = watch_run(warned, stales.drop_last());
        let stale = stales.last();
        (stale, prev.1.push(stale && !prev.0))
    }
}

/// A fresh watch warns exactly once per stale period: at reading `i` if and
/// only if focus is stale there and was fresh at the reading before (or it
/// is the first reading); never while focus is fresh.
pub proof fn law_stale_warning_once_per_period(stales: Seq<bool>)
    ensures
        watch_run(false, stales).1 == Seq::new(
            stales.len(),
            |i: int| stales[i] && (i == 0 || !stales[i - 1]),
        ),
        watch_run(false, stales).0 == (stales.len() > 0 && stales.last()),
    decreases stales.len(),
{
    if stales.len() > 0 {
        let rest = stales.drop_last();
        law_stale_warning_once_per_period(rest);
        assert(watch_run(false, stales).1 =~= Seq::new(
            stales.len(),
            |i: int| stales[i] && (i == 0 || !stales[i - 1]),
        ));
    } else {
        assert(watch_run(false, stales).1 =~= Seq::<bool>::empty());
    }
}

} // verus!
