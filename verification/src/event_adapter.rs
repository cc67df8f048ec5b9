//! The decisions of the event adapter: which events matter to the reconciler, how an
//! incoming message changes the adapter's state, and when a wait ends.
use std::collections::VecDeque;
use vstd::prelude::*;
use vstd::std_specs::iter::IteratorSpec;

use crate::model::{opt_str_eq, opt_string_eq, same_event, Event, Window, WindowLayout, Workspace};
use crate::reducer::{apply_event, apply_layout_changes, next_state};
use crate::state::{
    lemma_seen_all, lemma_seen_step, seen_keys, window_map, windows_keyed_by_id, workspace_map, workspaces_keyed_by_id,
    ActualState,
};

verus! {

broadcast use vstd::std_specs::hash::group_hash_axioms;

/// How many applied events the adapter remembers.
pub const HISTORY_LIMIT: usize = 512;

/// The workspace fields that the reconciler depends on are equal.
pub open spec fn spec_workspace_fields_equal(left: Workspace, right: Workspace) -> bool {
    &&& left.id == right.id
    &&& left.idx == right.idx
    &&& opt_str_eq(left.name, right.name)
    &&& opt_str_eq(left.output, right.output)
    &&& left.is_active == right.is_active
    &&& left.is_focused == right.is_focused
    &&& left.active_window_id == right.active_window_id
}

/// The bit pattern is that of a NaN: every exponent bit set and a nonzero fraction.
pub open spec fn is_nan_bits(b: u64) -> bool {
    (b & 0x7ff0_0000_0000_0000u64) == 0x7ff0_0000_0000_0000u64 && (b & 0x000f_ffff_ffff_ffffu64) != 0
}

/// The `f64` values with bit patterns `a` and `b` compare equal as floats: neither is a
/// NaN, and the patterns are equal or both are zeros (of either sign).
pub open spec fn f64_bits_eq(a: u64, b: u64) -> bool {
    &&& !is_nan_bits(a)
    &&& !is_nan_bits(b)
    &&& (a == b || ((a & 0x7fff_ffff_ffff_ffffu64) == 0 && (b & 0x7fff_ffff_ffff_ffffu64) == 0))
}

/// Two tile sizes, given by bit patterns, compare equal as pairs of floats.
pub open spec fn tile_sizes_eq(a: (u64, u64), b: (u64, u64)) -> bool {
    f64_bits_eq(a.0, b.0) && f64_bits_eq(a.1, b.1)
}

/// Compares two `f64` values, given by their bit patterns, as floats compare.
pub fn f64_bits_equal(a: u64, b: u64) -> (r: bool)
    ensures
        r == f64_bits_eq(a, b),
{
    let a_nan = (a & 0x7ff0_0000_0000_0000u64) == 0x7ff0_0000_0000_0000u64 && (a & 0x000f_ffff_ffff_ffffu64) != 0;
    let b_nan = (b & 0x7ff0_0000_0000_0000u64) == 0x7ff0_0000_0000_0000u64 && (b & 0x000f_ffff_ffff_ffffu64) != 0;
    !a_nan && !b_nan && (a == b || ((a & 0x7fff_ffff_ffff_ffffu64) == 0 && (b & 0x7fff_ffff_ffff_ffffu64) == 0))
}

/// Compares two tile sizes as pairs of floats.
fn tile_sizes_equal(a: (u64, u64), b: (u64, u64)) -> (r: bool)
    ensures
        r == tile_sizes_eq(a, b),
{
    f64_bits_equal(a.0, b.0) && f64_bits_equal(a.1, b.1)
}

/// The window fields that the reconciler depends on are equal; tile sizes are compared
/// as floats (a NaN equals nothing, and the two zeros are equal).
pub open spec fn spec_window_fields_equal(left: Window, right: Window) -> bool {
    &&& left.id == right.id
    &&& opt_str_eq(left.app_id, right.app_id)
    &&& left.workspace_id == right.workspace_id
    &&& left.is_focused == right.is_focused
    &&& left.is_floating == right.is_floating
    &&& left.layout.pos_in_scrolling_layout == right.layout.pos_in_scrolling_layout
    &&& tile_sizes_eq(left.layout.tile_size, right.layout.tile_size)
}

/// `w` is new to `m` or differs from the record stored under its id.
pub open spec fn workspace_differs(m: Map<u64, Workspace>, w: Workspace) -> bool {
    !m.contains_key(w.id) || !spec_workspace_fields_equal(m[w.id], w)
}

/// `w` is new to `m` or differs from the record stored under its id.
pub open spec fn window_differs(m: Map<u64, Window>, w: Window) -> bool {
    !m.contains_key(w.id) || !spec_window_fields_equal(m[w.id], w)
}

/// A layout change moves or resizes a known window.
pub open spec fn layout_change_matters(m: Map<u64, Window>, change: (u64, WindowLayout)) -> bool {
    &&& m.contains_key(change.0)
    &&& (m[change.0].layout.pos_in_scrolling_layout != change.1.pos_in_scrolling_layout
        || !tile_sizes_eq(m[change.0].layout.tile_size, change.1.tile_size))
}

/// Whether an event can change what the reconciler decides or waits for.
pub open spec fn spec_event_affects_reconciliation(
    workspaces: Map<u64, Workspace>,
    windows: Map<u64, Window>,
    event: Event,
) -> bool {
    match event {
        Event::WorkspacesChanged { workspaces: new } => workspaces.len() != new.len()
            || exists|i: int| 0 <= i < new.len() && #[trigger] workspace_differs(workspaces, new@[i]),
        Event::WorkspaceActivated { .. } => true,
        Event::WorkspaceActiveWindowChanged { .. } => true,
        Event::WindowsChanged { windows: new } => windows.len() != new.len()
            || exists|i: int| 0 <= i < new.len() && #[trigger] window_differs(windows, new@[i]),
        Event::WindowOpenedOrChanged { window } => {
            ||| window.is_focused && exists|k: u64| #[trigger] windows.contains_key(k) && windows[k].id != window.id
                && windows[k].is_focused
            ||| window_differs(windows, window)
        },
        Event::WindowClosed { id } => windows.contains_key(id),
        Event::WindowFocusChanged { .. } => true,
        Event::WindowLayoutsChanged { changes } => exists|i: int| 0 <= i < changes.len()
            && #[trigger] layout_change_matters(windows, changes@[i]),
        _ => false,
    }
}

/// Compares the workspace fields that the reconciler depends on.
pub fn workspace_fields_equal(left: &Workspace, right: &Workspace) -> (r: bool)
    ensures
        r == spec_workspace_fields_equal(*left, *right),
{
    left.id == right.id && left.idx == right.idx && opt_string_eq(&left.name, &right.name) && opt_string_eq(
        &left.output,
        &right.output,
    ) && left.is_active == right.is_active && left.is_focused == right.is_focused && left.active_window_id
        == right.active_window_id
}

fn same_position(a: Option<(usize, usize)>, b: Option<(usize, usize)>) -> (r: bool)
    ensures
        r == (a == b),
{
    match (a, b) {
        (Some(x), Some(y)) => x.0 == y.0 && x.1 == y.1,
        (None, None) => true,
        _ => false,
    }
}

/// Compares the window fields that the reconciler depends on.
pub fn window_fields_equal(left: &Window, right: &Window) -> (r: bool)
    ensures
        r == spec_window_fields_equal(*left, *right),
{
    left.id == right.id && opt_string_eq(&left.app_id, &right.app_id) && left.workspace_id == right.workspace_id
        && left.is_focused == right.is_focused && left.is_floating == right.is_floating && same_position(
        left.layout.pos_in_scrolling_layout,
        right.layout.pos_in_scrolling_layout,
    ) && tile_sizes_equal(left.layout.tile_size, right.layout.tile_size)
}

/// Some window other than `except` is focused.
fn other_window_focused(state: &ActualState, except: u64) -> (r: bool)
    ensures
        r == exists|k: u64| #[trigger] state.windows@.contains_key(k) && state.windows@[k].id != except
            && state.windows@[k].is_focused,
{
    let ghost m = state.windows@;
    let ghost entries = vstd::std_specs::hash::spec_hash_map_iter(&state.windows).remaining();
    proof {
        lemma_seen_all(&state.windows);
    }
    let mut found = false;
    for (id, w) in it: state.windows.iter()
        invariant
            m == state.windows@,
            entries == vstd::std_specs::hash::spec_hash_map_iter(&state.windows).remaining(),
            it.seq() == entries,
            seen_keys(entries, entries.len() as int) == m.dom(),
            forall|i: int| 0 <= i < entries.len() ==> m.contains_key(*entries[i].0) && m[*entries[i].0] == *entries[i].1,
            found == exists|k: u64| #[trigger] seen_keys(entries, it.index()).contains(k) && m[k].id != except && m[k].is_focused,
    {
        let ghost n = it.index();
        proof {
            lemma_seen_step(entries, n);
        }
        assert(m.contains_key(*id) && m[*id] == *w);
        if w.id != except && w.is_focused {
            found = true;
        }
        proof {
            if found {
                if w.id != except && w.is_focused {
                    assert(seen_keys(entries, n + 1).contains(*id));
                } else {
                    let k = choose|k: u64| #[trigger] seen_keys(entries, n).contains(k) && m[k].id != except && m[k].is_focused;
                    assert(seen_keys(entries, n + 1).contains(k));
                }
            }
        }
    }
    found
}

/// Whether an event can change what the reconciler decides or waits for: changes of
/// titles, urgency or focus timestamps do not, and neither does a layout change that
/// neither moves nor resizes a known window.
#[verifier::loop_isolation(false)]
pub fn event_affects_reconciliation(state: &ActualState, event: &Event) -> (r: bool)
    ensures
        r == spec_event_affects_reconciliation(state.workspaces@, state.windows@, *event),
{
    match event {
        Event::WorkspacesChanged { workspaces } => {
            if state.workspaces.len() != workspaces.len() {
                return true;
            }
            let mut i: usize = 0;
            while i < workspaces.len()
                invariant
                    i <= workspaces.len(),
                    forall|j: int| 0 <= j < i ==> !#[trigger] workspace_differs(state.workspaces@, workspaces@[j]),
                decreases workspaces.len() - i,
            {
                let w = &workspaces[i];
                let differs = match state.workspaces.get(&w.id) {
                    Some(current) => !workspace_fields_equal(current, w),
                    None => true,
                };
                if differs {
                    assert(workspace_differs(state.workspaces@, workspaces@[i as int]));
                    return true;
                }
                i += 1;
            }
            false
        },
        Event::WorkspaceActivated { .. } => true,
        Event::WorkspaceActiveWindowChanged { .. } => true,
        Event::WindowsChanged { windows } => {
            if state.windows.len() != windows.len() {
                return true;
            }
            let mut i: usize = 0;
            while i < windows.len()
                invariant
                    i <= windows.len(),
                    forall|j: int| 0 <= j < i ==> !#[trigger] window_differs(state.windows@, windows@[j]),
                decreases windows.len() - i,
            {
                let w = &windows[i];
                let differs = match state.windows.get(&w.id) {
                    Some(current) => !window_fields_equal(current, w),
                    None => true,
                };
                if differs {
                    assert(window_differs(state.windows@, windows@[i as int]));
                    return true;
                }
                i += 1;
            }
            false
        },
        Event::WindowOpenedOrChanged { window } => {
            let changes_other_focus = window.is_focused && other_window_focused(state, window.id);
            changes_other_focus || match state.windows.get(&window.id) {
                Some(current) => !window_fields_equal(current, window),
                None => true,
            }
        },
        Event::WindowClosed { id } => state.windows.contains_key(id),
        Event::WindowFocusChanged { .. } => true,
        Event::WindowLayoutsChanged { changes } => {
            let mut i: usize = 0;
            while i < changes.len()
                invariant
                    i <= changes.len(),
                    forall|j: int| 0 <= j < i ==> !#[trigger] layout_change_matters(state.windows@, changes@[j]),
                decreases changes.len() - i,
            {
                let (id, layout) = changes[i];
                let matters = match state.windows.get(&id) {
                    Some(w) => !same_position(w.layout.pos_in_scrolling_layout, layout.pos_in_scrolling_layout)
                        || !tile_sizes_equal(w.layout.tile_size, layout.tile_size),
                    None => false,
                };
                if matters {
                    assert(layout_change_matters(state.windows@, changes@[i as int]));
                    return true;
                }
                i += 1;
            }
            false
        },
        _ => false,
    }
}

/// What the event stream delivers: an event, or the reason it closed.
#[derive(Debug)]
pub enum EventMessage {
    Event(Event),
    Closed(String),
}

/// The history after remembering one more entry, keeping only the newest
/// `HISTORY_LIMIT` entries.
pub open spec fn remember(history: Seq<(u64, Event)>, entry: (u64, Event)) -> Seq<(u64, Event)> {
    let pushed = history.push(entry);
    if pushed.len() > HISTORY_LIMIT {
        pushed.skip(pushed.len() - HISTORY_LIMIT)
    } else {
        pushed
    }
}

/// The state that the event adapter keeps as messages arrive.
pub struct EventAdapterState {
    pub state: ActualState,
    pub seq: u64,
    pub saw_workspaces: bool,
    pub saw_windows: bool,
    pub closed: Option<String>,
    pub history: VecDeque<(u64, Event)>,
}

impl EventAdapterState {
    /// The adapter state's invariant.
    pub open spec fn well_formed(&self) -> bool {
        &&& self.state.well_formed()
        &&& self.history@.len() <= HISTORY_LIMIT
    }

    /// A fresh adapter state: nothing seen, sequence number zero.
    pub fn new() -> (r: Self)
        ensures
            r.well_formed(),
            r.state.workspaces@ == Map::<u64, Workspace>::empty(),
            r.state.windows@ == Map::<u64, Window>::empty(),
            r.state.last_config_loaded_failed is None,
            r.seq == 0,
            !r.saw_workspaces,
            !r.saw_windows,
            r.closed is None,
            r.history@.len() == 0,
    {
        EventAdapterState {
            state: ActualState::new(),
            seq: 0,
            saw_workspaces: false,
            saw_windows: false,
            closed: None,
            history: VecDeque::new(),
        }
    }

    /// Both initial snapshots (workspaces and windows) have arrived.
    pub fn initial_state_seen(&self) -> (r: bool)
        ensures
            r == (self.saw_workspaces && self.saw_windows),
    {
        self.saw_workspaces && self.saw_windows
    }

    /// Takes in one message of the event stream and says whether waiters must be woken:
    /// an event is applied to the state and remembered, and bumps the sequence number
    /// when it can change the reconciler's decisions; waiters are woken for such events,
    /// for the first snapshot of workspaces or windows, and when the stream closes.
    pub fn apply_message(&mut self, message: EventMessage) -> (notify: bool)
        requires
            old(self).well_formed(),
            old(self).seq < u64::MAX,
        ensures
            final(self).well_formed(),
            match message {
                EventMessage::Event(event) => {
                    let affects = spec_event_affects_reconciliation(old(self).state.workspaces@, old(self).state.windows@, event);
                    let first_snapshot = (event is WorkspacesChanged && !old(self).saw_workspaces)
                        || (event is WindowsChanged && !old(self).saw_windows);
                    &&& final(self).seq == (if affects { old(self).seq + 1 } else { old(self).seq as int })
                    &&& final(self).saw_workspaces == (old(self).saw_workspaces || event is WorkspacesChanged)
                    &&& final(self).saw_windows == (old(self).saw_windows || event is WindowsChanged)
                    &&& final(self).closed == old(self).closed
                    &&& (final(self).state.workspaces@, final(self).state.windows@, final(self).state.last_config_loaded_failed)
                        == next_state(old(self).state.workspaces@, old(self).state.windows@, old(self).state.last_config_loaded_failed, event)
                    &&& exists|copy: Event| same_event(copy, event)
                        && final(self).history@ == remember(old(self).history@, (final(self).seq, copy))
                    &&& notify == (affects || first_snapshot)
                },
                EventMessage::Closed(reason) => {
                    &&& final(self).closed == Some(reason)
                    &&& final(self).seq == old(self).seq
                    &&& final(self).saw_workspaces == old(self).saw_workspaces
                    &&& final(self).saw_windows == old(self).saw_windows
                    &&& final(self).state.workspaces@ == old(self).state.workspaces@
                    &&& final(self).state.windows@ == old(self).state.windows@
                    &&& final(self).state.last_config_loaded_failed == old(self).state.last_config_loaded_failed
                    &&& final(self).history@ == old(self).history@
                    &&& notify
                },
            },
    {
        match message {
            EventMessage::Event(event) => {
                let first_snapshot = match &event {
                    Event::WorkspacesChanged { .. } => !self.saw_workspaces,
                    Event::WindowsChanged { .. } => !self.saw_windows,
                    _ => false,
                };
                let affects = event_affects_reconciliation(&self.state, &event);
                if affects {
                    self.seq = self.seq + 1;
                }
                let seq = self.seq;
                match &event {
                    Event::WorkspacesChanged { .. } => self.saw_workspaces = true,
                    Event::WindowsChanged { .. } => self.saw_windows = true,
                    _ => {},
                }
                let copy = event.clone();
                apply_event(&mut self.state, event);
                let ghost before = self.history@;
                self.history.push_back((seq, copy));
                if self.history.len() > HISTORY_LIMIT {
                    self.history.pop_front();
                    assert(self.history@ =~= remember(before, (seq, copy)));
                }
                affects || first_snapshot
            },
            EventMessage::Closed(reason) => {
                self.closed = Some(reason);
                true
            },
        }
    }
}

/// What a waiter does next.
#[derive(Debug, PartialEq, Eq)]
pub enum WaitPlan {
    /// The condition holds: stop waiting.
    Done,
    /// The event stream closed for the given reason: fail.
    Closed(String),
    /// No time is left: fail with a timeout.
    TimedOut,
    /// Sleep for up to `nanos` nanoseconds or until woken; with `watch`, remember the
    /// sequence number to compare after waking.
    Sleep { nanos: u128, watch: Option<u64> },
}

/// What a waiter does after waking.
#[derive(Debug, PartialEq, Eq)]
pub enum WaitResume {
    Done,
    TimedOut,
    Continue,
}

/// One round of waiting until a condition holds: it holds (done), or the stream has
/// closed, or the time is up, or sleep for the remaining time.
pub fn plan_wait_for(holds: bool, closed: &Option<String>, remaining_nanos: Option<u128>) -> (r: WaitPlan)
    ensures
        r == (if holds {
            WaitPlan::Done
        } else if closed is Some {
            WaitPlan::Closed(closed->0)
        } else if remaining_nanos is None {
            WaitPlan::TimedOut
        } else {
            WaitPlan::Sleep { nanos: remaining_nanos->0, watch: None }
        }),
{
    if holds {
        return WaitPlan::Done;
    }
    match closed {
        Some(reason) => WaitPlan::Closed(reason.clone()),
        None => match remaining_nanos {
            None => WaitPlan::TimedOut,
            Some(nanos) => WaitPlan::Sleep { nanos, watch: None },
        },
    }
}

/// After sleeping while waiting for a condition: a timed-out sleep with the condition
/// still false ends the wait with a timeout.
pub fn resume_wait_for(timed_out: bool, holds: bool) -> (r: WaitResume)
    ensures
        r == (if timed_out && !holds { WaitResume::TimedOut } else { WaitResume::Continue }),
{
    if timed_out && !holds {
        WaitResume::TimedOut
    } else {
        WaitResume::Continue
    }
}

/// One round of waiting until a condition holds and no relevant event has arrived for
/// `quiet_nanos`: fail when the stream has closed or the time is up; while the condition
/// holds, sleep for the quiet period (at most the remaining time) watching the sequence
/// number; otherwise sleep for the remaining time.
pub fn plan_wait_for_stable(
    holds: bool,
    closed: &Option<String>,
    remaining_nanos: Option<u128>,
    quiet_nanos: u128,
    seq: u64,
) -> (r: WaitPlan)
    ensures
        r == (if closed is Some {
            WaitPlan::Closed(closed->0)
        } else if remaining_nanos is None {
            WaitPlan::TimedOut
        } else if holds {
            WaitPlan::Sleep {
                nanos: if quiet_nanos <= remaining_nanos->0 { quiet_nanos } else { remaining_nanos->0 },
                watch: Some(seq),
            }
        } else {
            WaitPlan::Sleep { nanos: remaining_nanos->0, watch: None }
        }),
{
    match closed {
        Some(reason) => WaitPlan::Closed(reason.clone()),
        None => match remaining_nanos {
            None => WaitPlan::TimedOut,
            Some(remaining) => {
                if holds {
                    let nanos = if quiet_nanos <= remaining { quiet_nanos } else { remaining };
                    WaitPlan::Sleep { nanos, watch: Some(seq) }
                } else {
                    WaitPlan::Sleep { nanos: remaining, watch: None }
                }
            },
        },
    }
}

/// After sleeping in a stable wait: a quiet sleep (timed out, no relevant event since
/// `watch`, condition still true) ends the wait, successfully when the whole quiet
/// period was slept and with a timeout when only the remaining time was; an unwatched
/// sleep that timed out with the condition false ends with a timeout.
pub fn resume_wait_for_stable(
    timed_out: bool,
    watch: Option<u64>,
    slept_nanos: u128,
    quiet_nanos: u128,
    seq: u64,
    holds: bool,
) -> (r: WaitResume)
    ensures
        r == (match watch {
            Some(stable_seq) => if timed_out && seq == stable_seq && holds {
                if slept_nanos == quiet_nanos { WaitResume::Done } else { WaitResume::TimedOut }
            } else {
                WaitResume::Continue
            },
            None => if timed_out && !holds { WaitResume::TimedOut } else { WaitResume::Continue },
        }),
{
    match watch {
        Some(stable_seq) => {
            if timed_out && seq == stable_seq && holds {
                if slept_nanos == quiet_nanos {
                    WaitResume::Done
                } else {
                    WaitResume::TimedOut
                }
            } else {
                WaitResume::Continue
            }
        },
        None => resume_wait_for(timed_out, holds),
    }
}

/// One round of waiting until no relevant event has arrived for `quiet_nanos`: fail
/// when the stream has closed or the time is up; otherwise sleep for the quiet period
/// (at most the remaining time) watching the sequence number.
pub fn plan_wait_until_quiet(closed: &Option<String>, remaining_nanos: Option<u128>, quiet_nanos: u128, seq: u64) -> (r: WaitPlan)
    ensures
        r == (if closed is Some {
            WaitPlan::Closed(closed->0)
        } else if remaining_nanos is None {
            WaitPlan::TimedOut
        } else {
            WaitPlan::Sleep {
                nanos: if quiet_nanos <= remaining_nanos->0 { quiet_nanos } else { remaining_nanos->0 },
                watch: Some(seq),
            }
        }),
{
    plan_wait_for_stable(true, closed, remaining_nanos, quiet_nanos, seq)
}

/// After sleeping in a quiet wait: a sleep that timed out with no relevant event since
/// `stable_seq` ends the wait, successfully when the whole quiet period was slept and
/// with a timeout when only the remaining time was.
pub fn resume_wait_until_quiet(timed_out: bool, stable_seq: u64, slept_nanos: u128, quiet_nanos: u128, seq: u64) -> (r: WaitResume)
    ensures
        r == (if timed_out && seq == stable_seq {
            if slept_nanos == quiet_nanos { WaitResume::Done } else { WaitResume::TimedOut }
        } else {
            WaitResume::Continue
        }),
{
    resume_wait_for_stable(timed_out, Some(stable_seq), slept_nanos, quiet_nanos, seq, true)
}


// ---------------------------------------------------------------------------------
// Ignoring an event loses nothing
// ---------------------------------------------------------------------------------

/// The characters of an optional text.
pub open spec fn text_view(o: Option<String>) -> Option<Seq<char>> {
    match o {
        Some(s) => Some(s@),
        None => None,
    }
}

/// The fields of a workspace that the reconciler reads.
pub open spec fn workspace_seen(w: Workspace) -> (u64, u8, Option<Seq<char>>, Option<Seq<char>>, bool, bool, Option<u64>) {
    (w.id, w.idx, text_view(w.name), text_view(w.output), w.is_active, w.is_focused, w.active_window_id)
}

/// The fields of a window that the reconciler reads, but for its tile size, which is
/// compared as floats.
pub open spec fn window_seen(w: Window) -> (u64, Option<Seq<char>>, Option<u64>, bool, bool, Option<(usize, usize)>) {
    (w.id, text_view(w.app_id), w.workspace_id, w.is_focused, w.is_floating, w.layout.pos_in_scrolling_layout)
}

/// Every window of `m2` has the tile size of the window under its id in `m1`, as bits
/// or as floats.
pub open spec fn tile_sizes_kept(m1: Map<u64, Window>, m2: Map<u64, Window>) -> bool {
    forall|k: u64| #[trigger] m2.contains_key(k) && m1.contains_key(k) ==> m2[k].layout.tile_size
        == m1[k].layout.tile_size || tile_sizes_eq(m2[k].layout.tile_size, m1[k].layout.tile_size)
}

/// Each workspace, as far as the reconciler reads it.
pub open spec fn workspaces_seen(m: Map<u64, Workspace>) -> Map<u64, (u64, u8, Option<Seq<char>>, Option<Seq<char>>, bool, bool, Option<u64>)> {
    Map::new(|k: u64| m.contains_key(k), |k: u64| workspace_seen(m[k]))
}

/// Each window, as far as the reconciler reads it.
pub open spec fn windows_seen(m: Map<u64, Window>) -> Map<u64, (u64, Option<Seq<char>>, Option<u64>, bool, bool, Option<(usize, usize)>)> {
    Map::new(|k: u64| m.contains_key(k), |k: u64| window_seen(m[k]))
}

/// No two workspaces of a snapshot share an id.
pub open spec fn workspace_ids_distinct(s: Seq<Workspace>) -> bool {
    forall|i: int, j: int| 0 <= i < j < s.len() ==> (#[trigger] s[i]).id != (#[trigger] s[j]).id
}

/// No two windows of a snapshot share an id.
pub open spec fn window_ids_distinct(s: Seq<Window>) -> bool {
    forall|i: int, j: int| 0 <= i < j < s.len() ==> (#[trigger] s[i]).id != (#[trigger] s[j]).id
}

proof fn lemma_workspace_map_of_distinct(s: Seq<Workspace>)
    requires
        workspace_ids_distinct(s),
    ensures
        workspace_map(s).dom().finite(),
        workspace_map(s).dom().len() == s.len(),
        forall|k: u64| #[trigger] workspace_map(s).contains_key(k) ==> exists|i: int| 0 <= i < s.len() && s[i].id == k
            && workspace_map(s)[k] == s[i],
        forall|i: int| 0 <= i < s.len() ==> #[trigger] workspace_map(s).contains_key(s[i].id),
    decreases s.len(),
{
    if s.len() > 0 {
        let p = s.drop_last();
        assert(workspace_ids_distinct(p)) by {
            assert forall|i: int, j: int| 0 <= i < j < p.len() implies (#[trigger] p[i]).id != (#[trigger] p[j]).id by {
                assert(p[i] == s[i] && p[j] == s[j]);
            }
        }
        lemma_workspace_map_of_distinct(p);
        let last = s.last();
        assert(!workspace_map(p).contains_key(last.id)) by {
            if workspace_map(p).contains_key(last.id) {
                let i = choose|i: int| 0 <= i < p.len() && p[i].id == last.id && workspace_map(p)[last.id] == p[i];
                assert(s[i].id == s[s.len() - 1].id);
            }
        }
        assert forall|k: u64| #[trigger] workspace_map(s).contains_key(k) implies exists|i: int| 0 <= i < s.len()
            && s[i].id == k && workspace_map(s)[k] == s[i] by {
            if k == last.id {
                assert(s[s.len() - 1].id == k);
            } else {
                let i = choose|i: int| 0 <= i < p.len() && p[i].id == k && workspace_map(p)[k] == p[i];
                assert(s[i] == p[i]);
            }
        }
        assert forall|i: int| 0 <= i < s.len() implies #[trigger] workspace_map(s).contains_key(s[i].id) by {
            if i < s.len() - 1 {
                assert(s[i] == p[i]);
            }
        }
    }
}

proof fn lemma_window_map_of_distinct(s: Seq<Window>)
    requires
        window_ids_distinct(s),
    ensures
        window_map(s).dom().finite(),
        window_map(s).dom().len() == s.len(),
        forall|k: u64| #[trigger] window_map(s).contains_key(k) ==> exists|i: int| 0 <= i < s.len() && s[i].id == k
            && window_map(s)[k] == s[i],
        forall|i: int| 0 <= i < s.len() ==> #[trigger] window_map(s).contains_key(s[i].id),
    decreases s.len(),
{
    if s.len() > 0 {
        let p = s.drop_last();
        assert(window_ids_distinct(p)) by {
            assert forall|i: int, j: int| 0 <= i < j < p.len() implies (#[trigger] p[i]).id != (#[trigger] p[j]).id by {
                assert(p[i] == s[i] && p[j] == s[j]);
            }
        }
        lemma_window_map_of_distinct(p);
        let last = s.last();
        assert(!window_map(p).contains_key(last.id)) by {
            if window_map(p).contains_key(last.id) {
                let i = choose|i: int| 0 <= i < p.len() && p[i].id == last.id && window_map(p)[last.id] == p[i];
                assert(s[i].id == s[s.len() - 1].id);
            }
        }
        assert forall|k: u64| #[trigger] window_map(s).contains_key(k) implies exists|i: int| 0 <= i < s.len()
            && s[i].id == k && window_map(s)[k] == s[i] by {
            if k == last.id {
                assert(s[s.len() - 1].id == k);
            } else {
                let i = choose|i: int| 0 <= i < p.len() && p[i].id == k && window_map(p)[k] == p[i];
                assert(s[i] == p[i]);
            }
        }
        assert forall|i: int| 0 <= i < s.len() implies #[trigger] window_map(s).contains_key(s[i].id) by {
            if i < s.len() - 1 {
                assert(s[i] == p[i]);
            }
        }
    }
}

proof fn lemma_irrelevant_layouts(m: Map<u64, Window>, changes: Seq<(u64, WindowLayout)>)
    requires
        forall|i: int| 0 <= i < changes.len() ==> !#[trigger] layout_change_matters(m, changes[i]),
    ensures
        windows_seen(apply_layout_changes(m, changes)) == windows_seen(m),
        tile_sizes_kept(m, apply_layout_changes(m, changes)),
    decreases changes.len(),
{
    if changes.len() > 0 {
        let rest = changes.drop_last();
        assert forall|i: int| 0 <= i < rest.len() implies !#[trigger] layout_change_matters(m, rest[i]) by {
            assert(rest[i] == changes[i]);
        }
        lemma_irrelevant_layouts(m, rest);
        let prev = apply_layout_changes(m, rest);
        let (id, layout) = changes.last();
        assert(!layout_change_matters(m, changes[changes.len() - 1]));
        if prev.contains_key(id) {
            assert(windows_seen(prev).contains_key(id) && windows_seen(prev)[id] == windows_seen(m)[id]);
            assert(windows_seen(apply_layout_changes(m, changes)) =~= windows_seen(m));
        }
    }
}

/// An event that the adapter does not count changes nothing the reconciler reads: the
/// same workspaces and windows are known, with the same ids, names, outputs, activity,
/// focus, active windows, application ids, workspaces, floating states and positions,
/// and tile sizes that are the same or compare equal as floats. Snapshots are taken as
/// niri sends them, naming each id once.
pub proof fn law_ignored_events_change_nothing_read(
    workspaces: Map<u64, Workspace>,
    windows: Map<u64, Window>,
    last: Option<bool>,
    event: Event,
)
    requires
        workspaces_keyed_by_id(workspaces),
        windows_keyed_by_id(windows),
        workspaces.dom().finite(),
        windows.dom().finite(),
        event matches Event::WorkspacesChanged { workspaces: new } ==> workspace_ids_distinct(new@),
        event matches Event::WindowsChanged { windows: new } ==> window_ids_distinct(new@),
        !spec_event_affects_reconciliation(workspaces, windows, event),
    ensures
        workspaces_seen(next_state(workspaces, windows, last, event).0) == workspaces_seen(workspaces),
        windows_seen(next_state(workspaces, windows, last, event).1) == windows_seen(windows),
        tile_sizes_kept(windows, next_state(workspaces, windows, last, event).1),
{
    let (ws2, win2, last2) = next_state(workspaces, windows, last, event);
    match event {
        Event::WorkspacesChanged { workspaces: new } => {
            let s = new@;
            lemma_workspace_map_of_distinct(s);
            assert(ws2.dom().subset_of(workspaces.dom())) by {
                assert forall|k: u64| ws2.contains_key(k) implies workspaces.contains_key(k) by {
                    let i = choose|i: int| 0 <= i < s.len() && s[i].id == k && ws2[k] == s[i];
                    assert(!workspace_differs(workspaces, s[i]));
                }
            }
            vstd::set_lib::lemma_subset_equality(ws2.dom(), workspaces.dom());
            assert forall|k: u64| #[trigger] ws2.contains_key(k) implies workspace_seen(ws2[k]) == workspace_seen(
                workspaces[k],
            ) by {
                let i = choose|i: int| 0 <= i < s.len() && s[i].id == k && ws2[k] == s[i];
                assert(!workspace_differs(workspaces, s[i]));
            }
            assert(workspaces_seen(ws2) =~= workspaces_seen(workspaces));
        },
        Event::WindowsChanged { windows: new } => {
            let s = new@;
            lemma_window_map_of_distinct(s);
            assert(win2.dom().subset_of(windows.dom())) by {
                assert forall|k: u64| win2.contains_key(k) implies windows.contains_key(k) by {
                    let i = choose|i: int| 0 <= i < s.len() && s[i].id == k && win2[k] == s[i];
                    assert(!window_differs(windows, s[i]));
                }
            }
            vstd::set_lib::lemma_subset_equality(win2.dom(), windows.dom());
            assert forall|k: u64| #[trigger] win2.contains_key(k) implies window_seen(win2[k]) == window_seen(windows[k])
                && tile_sizes_eq(win2[k].layout.tile_size, windows[k].layout.tile_size) by {
                let i = choose|i: int| 0 <= i < s.len() && s[i].id == k && win2[k] == s[i];
                assert(!window_differs(windows, s[i]));
            }
            assert(windows_seen(win2) =~= windows_seen(windows));
        },
        Event::WindowOpenedOrChanged { window } => {
            assert(windows.contains_key(window.id));
            assert forall|k: u64| #[trigger] win2.contains_key(k) implies window_seen(win2[k]) == window_seen(windows[k])
                && (win2[k].layout.tile_size == windows[k].layout.tile_size || tile_sizes_eq(
                win2[k].layout.tile_size,
                windows[k].layout.tile_size,
            )) by {
                if k != window.id && window.is_focused {
                    assert(windows[k].id != window.id);
                }
            }
            assert(windows_seen(win2) =~= windows_seen(windows));
        },
        Event::WindowClosed { id } => {
            assert(win2 =~= windows);
        },
        Event::WindowLayoutsChanged { changes } => {
            assert forall|i: int| 0 <= i < changes@.len() implies !#[trigger] layout_change_matters(windows, changes@[i]) by {}
            lemma_irrelevant_layouts(windows, changes@);
        },
        Event::WorkspaceUrgencyChanged { id, urgent } => {
            assert(workspaces_seen(ws2) =~= workspaces_seen(workspaces));
        },
        Event::WindowFocusTimestampChanged { id, focus_timestamp } => {
            assert(windows_seen(win2) =~= windows_seen(windows));
        },
        Event::WindowUrgencyChanged { id, urgent } => {
            assert(windows_seen(win2) =~= windows_seen(windows));
        },
        _ => {},
    }
}

} // verus!
