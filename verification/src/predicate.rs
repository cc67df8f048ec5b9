//! Conditions on the tracked state that the reconciler waits for.
use vstd::prelude::*;

use crate::model::Window;
use crate::state::{
    app_window_ids, column_counts, is_preferred_window, rank_lt, window_rank, windows_keyed_by_id, ActualState,
};

verus! {

broadcast use vstd::std_specs::hash::group_hash_axioms;

/// At most one window of an application is the preferred one.
pub proof fn lemma_preferred_unique(windows: Map<u64, Window>, app: Seq<char>, preferred: Option<u64>, a: u64, b: u64)
    requires
        windows_keyed_by_id(windows),
        is_preferred_window(windows, app, preferred, a),
        is_preferred_window(windows, app, preferred, b),
    ensures
        a == b,
{
    assert(!rank_lt(window_rank(windows[a], preferred), window_rank(windows[b], preferred)));
    assert(!rank_lt(window_rank(windows[b], preferred), window_rank(windows[a], preferred)));
    assert(windows[a].id == a && windows[b].id == b);
}

/// Among the windows of an application, the preferred one is on the preferred
/// workspace whenever any of them is; among those placed alike it is tiled whenever any
/// of them is; among those alike in both, it is focused whenever any of them is.
pub proof fn law_preference_order(windows: Map<u64, Window>, app: Seq<char>, preferred: Option<u64>, id: u64, other: u64)
    requires
        is_preferred_window(windows, app, preferred, id),
        app_window_ids(windows, app).contains(other),
    ensures
        (preferred is Some && windows[other].workspace_id == preferred) ==> windows[id].workspace_id == preferred,
        (windows[other].workspace_id == preferred <==> windows[id].workspace_id == preferred) && !windows[other].is_floating
            ==> !windows[id].is_floating,
        (windows[other].workspace_id == preferred <==> windows[id].workspace_id == preferred)
            && windows[other].is_floating == windows[id].is_floating && windows[other].is_focused
            ==> windows[id].is_focused,
{
    assert(!rank_lt(window_rank(windows[id], preferred), window_rank(windows[other], preferred)));
}

/// A workspace named `workspace_name` is known.
pub fn workspace_known(state: &ActualState, workspace_name: &str) -> (r: bool)
    requires
        state.well_formed(),
    ensures
        r == state.spec_workspace_id_by_name(workspace_name@) is Some,
{
    state.workspace_by_name(workspace_name).is_some()
}

/// The workspace named `workspace_name` is known and active on its output.
pub fn workspace_active(state: &ActualState, workspace_name: &str) -> (r: bool)
    requires
        state.well_formed(),
    ensures
        r == match state.spec_workspace_id_by_name(workspace_name@) {
            Some(id) => state.workspaces@[id].is_active,
            None => false,
        },
{
    match state.workspace_by_name(workspace_name) {
        Some(ws) => ws.is_active,
        None => false,
    }
}

/// Some window carries the application id `app_id`.
pub fn window_exists_by_app_id(state: &ActualState, app_id: &str) -> (r: bool)
    requires
        state.well_formed(),
    ensures
        r == !app_window_ids(state.windows@, app_id@).is_empty(),
{
    state.window_by_app_id(app_id).is_some()
}

/// Some window of application `app_id` is on the workspace named `workspace_name`.
pub fn window_on_workspace(state: &ActualState, app_id: &str, workspace_name: &str) -> (r: bool)
    requires
        state.well_formed(),
    ensures
        r == match state.spec_workspace_id_by_name(workspace_name@) {
            Some(ws) => exists|id: u64| #[trigger] app_window_ids(state.windows@, app_id@).contains(id)
                && state.windows@[id].workspace_id == Some(ws),
            None => false,
        },
{
    state.window_id_by_app_id_on_workspace(app_id, workspace_name).is_some()
}

/// The preferred window of application `app_id` on the workspace named
/// `workspace_name` sits at (`column`, `row`) of that workspace's scrolling layout.
pub fn window_at_position(state: &ActualState, app_id: &str, workspace_name: &str, column: usize, row: usize) -> (r: bool)
    requires
        state.well_formed(),
    ensures
        r == match state.spec_workspace_id_by_name(workspace_name@) {
            Some(ws) => exists|id: u64| #[trigger] is_preferred_window(state.windows@, app_id@, Some(ws), id)
                && state.windows@[id].workspace_id == Some(ws)
                && state.windows@[id].layout.pos_in_scrolling_layout == Some((column, row)),
            None => false,
        },
{
    let workspace_id = match state.workspace_id_by_name(workspace_name) {
        Some(id) => id,
        None => return false,
    };
    match state.window_id_by_app_id_on_workspace(app_id, workspace_name) {
        Some(id) => match state.windows.get(&id) {
            Some(w) => {
                let r = w.workspace_id == Some(workspace_id) && match w.layout.pos_in_scrolling_layout {
                    Some((c, rw)) => c == column && rw == row,
                    None => false,
                };
                proof {
                    if !r {
                        assert forall|o: u64| #[trigger] is_preferred_window(state.windows@, app_id@, Some(workspace_id), o)
                            implies !(state.windows@[o].workspace_id == Some(workspace_id)
                            && state.windows@[o].layout.pos_in_scrolling_layout == Some((column, row))) by {
                            lemma_preferred_unique(state.windows@, app_id@, Some(workspace_id), id, o);
                        }
                    }
                }
                r
            },
            None => false,
        },
        None => {
            proof {
                assert forall|o: u64| #[trigger] is_preferred_window(state.windows@, app_id@, Some(workspace_id), o)
                    implies state.windows@[o].workspace_id != Some(workspace_id) by {
                    assert(app_window_ids(state.windows@, app_id@).contains(o));
                }
            }
            false
        },
    }
}

/// The window with id `window_id` is on the workspace named `workspace_name`.
pub fn window_id_on_workspace(state: &ActualState, window_id: u64, workspace_name: &str) -> (r: bool)
    requires
        state.well_formed(),
    ensures
        r == match state.spec_workspace_id_by_name(workspace_name@) {
            Some(ws) => state.windows@.contains_key(window_id) && state.windows@[window_id].workspace_id == Some(ws),
            None => false,
        },
{
    let workspace_id = match state.workspace_id_by_name(workspace_name) {
        Some(id) => id,
        None => return false,
    };
    match state.windows.get(&window_id) {
        Some(w) => w.workspace_id == Some(workspace_id),
        None => false,
    }
}

/// The window with id `window_id` sits at (`column`, `row`) of the scrolling layout of
/// the workspace named `workspace_name`.
pub fn window_id_at_position(state: &ActualState, window_id: u64, workspace_name: &str, column: usize, row: usize) -> (r: bool)
    requires
        state.well_formed(),
    ensures
        r == match state.spec_workspace_id_by_name(workspace_name@) {
            Some(ws) => state.windows@.contains_key(window_id)
                && state.windows@[window_id].workspace_id == Some(ws)
                && state.windows@[window_id].layout.pos_in_scrolling_layout == Some((column, row)),
            None => false,
        },
{
    let workspace_id = match state.workspace_id_by_name(workspace_name) {
        Some(id) => id,
        None => return false,
    };
    match state.windows.get(&window_id) {
        Some(w) => w.workspace_id == Some(workspace_id) && match w.layout.pos_in_scrolling_layout {
            Some((c, rw)) => c == column && rw == row,
            None => false,
        },
        None => false,
    }
}

/// The index, counted from zero, of a column counted from one (column 0 reads as 1).
pub open spec fn column_slot(column: usize) -> int {
    if column == 0 {
        0
    } else {
        column - 1
    }
}

/// The `column`-th occupied column (counted from one) of the workspace named
/// `workspace_name` holds exactly `count` tiled windows.
pub fn column_has_window_count(state: &ActualState, workspace_name: &str, column: usize, count: usize) -> (r: bool)
    requires
        state.well_formed(),
    ensures
        r == match state.spec_workspace_id_by_name(workspace_name@) {
            Some(ws) => column_slot(column) < column_counts(state.windows@, ws).len()
                && column_counts(state.windows@, ws)[column_slot(column)] == count,
            None => false,
        },
{
    match state.workspace_column_counts(workspace_name) {
        Some(counts) => {
            let slot = column.saturating_sub(1);
            slot < counts.len() && counts[slot] == count
        },
        None => false,
    }
}

/// The per-column tiled-window counts of the workspace named `workspace_name` are
/// exactly `expected`.
pub fn workspace_column_counts(state: &ActualState, workspace_name: &str, expected: &[usize]) -> (r: bool)
    requires
        state.well_formed(),
    ensures
        r == match state.spec_workspace_id_by_name(workspace_name@) {
            Some(ws) => column_counts(state.windows@, ws) == expected@,
            None => false,
        },
{
    match state.workspace_column_counts(workspace_name) {
        Some(counts) => {
            if counts.len() != expected.len() {
                return false;
            }
            let mut i: usize = 0;
            while i < counts.len()
                invariant
                    i <= counts.len(),
                    counts.len() == expected@.len(),
                    forall|j: int| 0 <= j < i ==> counts@[j] == expected@[j],
                    state.spec_workspace_id_by_name(workspace_name@) matches Some(ws)
                        && counts@ == column_counts(state.windows@, ws),
                decreases counts.len() - i,
            {
                if counts[i] != expected[i] {
                    assert(counts@[i as int] != expected@[i as int]);
                    return false;
                }
                i += 1;
            }
            assert(counts@ =~= expected@);
            true
        },
        None => false,
    }
}

} // verus!
