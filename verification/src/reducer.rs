//! Folding niri's events into the tracked state.
use std::collections::HashMap;
use vstd::prelude::*;
use vstd::std_specs::iter::IteratorSpec;

use crate::model::{copy_opt_string, opt_str_is, opt_string_eq, Event, Window, WindowLayout, Workspace};
use crate::state::{lemma_seen_all, lemma_seen_step, seen_keys, window_map, workspace_map, ActualState};

verus! {

broadcast use vstd::std_specs::hash::group_hash_axioms;

/// A workspace after `WorkspaceActivated { id, focused }`: when the activated workspace
/// has output `output`, every workspace on that output becomes active exactly when it is
/// the activated one; when `focused`, every workspace becomes focused exactly when it is
/// the activated one.
pub open spec fn activated_workspace(w: Workspace, id: u64, output: Option<String>, focused: bool) -> Workspace {
    let w1 = if output matches Some(o) && opt_str_is(w.output, o@) {
        Workspace { is_active: w.id == id, ..w }
    } else {
        w
    };
    if focused {
        Workspace { is_focused: w.id == id, ..w1 }
    } else {
        w1
    }
}

/// The output of the workspace with id `id`, if it is known and has one.
pub open spec fn output_of(m: Map<u64, Workspace>, id: u64) -> Option<String> {
    if m.contains_key(id) {
        m[id].output
    } else {
        None
    }
}

/// Every workspace of `m` after `WorkspaceActivated { id, focused }`.
pub open spec fn activate_workspaces(m: Map<u64, Workspace>, id: u64, focused: bool) -> Map<u64, Workspace> {
    Map::new(|k: u64| m.contains_key(k), |k: u64| activated_workspace(m[k], id, output_of(m, id), focused))
}

/// Every window of `m`, focused exactly when its id is `focus`.
pub open spec fn focus_windows(m: Map<u64, Window>, focus: Option<u64>) -> Map<u64, Window> {
    Map::new(|k: u64| m.contains_key(k), |k: u64| Window { is_focused: Some(m[k].id) == focus, ..m[k] })
}

/// The window map after applying layout changes in order; changes for unknown windows
/// are ignored.
pub open spec fn apply_layout_changes(m: Map<u64, Window>, changes: Seq<(u64, WindowLayout)>) -> Map<u64, Window>
    decreases changes.len(),
{
    if changes.len() == 0 {
        m
    } else {
        let prev = apply_layout_changes(m, changes.drop_last());
        let (id, layout) = changes.last();
        if prev.contains_key(id) {
            prev.insert(id, Window { layout: layout, ..prev[id] })
        } else {
            prev
        }
    }
}

/// Replaces the workspace stored under `id`, if there is one, by `f` of it.
pub open spec fn update_workspace(m: Map<u64, Workspace>, id: u64, w: Workspace) -> Map<u64, Workspace> {
    if m.contains_key(id) {
        m.insert(id, w)
    } else {
        m
    }
}

/// Replaces the window stored under `id`, if there is one.
pub open spec fn update_window(m: Map<u64, Window>, id: u64, w: Window) -> Map<u64, Window> {
    if m.contains_key(id) {
        m.insert(id, w)
    } else {
        m
    }
}

/// The workspace map, window map and config-load report after one event.
pub open spec fn next_state(
    workspaces: Map<u64, Workspace>,
    windows: Map<u64, Window>,
    last: Option<bool>,
    event: Event,
) -> (Map<u64, Workspace>, Map<u64, Window>, Option<bool>) {
    match event {
        Event::WorkspacesChanged { workspaces: new } => (workspace_map(new@), windows, last),
        Event::WorkspaceUrgencyChanged { id, urgent } => (
            update_workspace(workspaces, id, Workspace { is_urgent: urgent, ..workspaces[id] }),
            windows,
            last,
        ),
        Event::WorkspaceActivated { id, focused } => (activate_workspaces(workspaces, id, focused), windows, last),
        Event::WorkspaceActiveWindowChanged { workspace_id, active_window_id } => (
            update_workspace(
                workspaces,
                workspace_id,
                Workspace { active_window_id: active_window_id, ..workspaces[workspace_id] },
            ),
            windows,
            last,
        ),
        Event::WindowsChanged { windows: new } => (workspaces, window_map(new@), last),
        Event::WindowOpenedOrChanged { window } => {
            let base = if window.is_focused {
                focus_windows(windows, None)
            } else {
                windows
            };
            (workspaces, base.insert(window.id, window), last)
        },
        Event::WindowClosed { id } => (workspaces, windows.remove(id), last),
        Event::WindowFocusChanged { id } => (workspaces, focus_windows(windows, id), last),
        Event::WindowFocusTimestampChanged { id, focus_timestamp } => (
            workspaces,
            update_window(windows, id, Window { focus_timestamp: focus_timestamp, ..windows[id] }),
            last,
        ),
        Event::WindowUrgencyChanged { id, urgent } => (
            workspaces,
            update_window(windows, id, Window { is_urgent: urgent, ..windows[id] }),
            last,
        ),
        Event::WindowLayoutsChanged { changes } => (workspaces, apply_layout_changes(windows, changes@), last),
        Event::ConfigLoaded { failed } => (workspaces, windows, Some(failed)),
        Event::Other => (workspaces, windows, last),
    }
}

/// Builds the window map in which each window is focused exactly when its id is `focus`.
fn refocus_windows(windows: &HashMap<u64, Window>, focus: Option<u64>) -> (r: HashMap<u64, Window>)
    ensures
        r@ == focus_windows(windows@, focus),
{
    let ghost m = windows@;
    let ghost entries = vstd::std_specs::hash::spec_hash_map_iter(windows).remaining();
    proof {
        lemma_seen_all(windows);
    }
    let mut r: HashMap<u64, Window> = HashMap::new();
    for (id, w) in it: windows.iter()
        invariant
            m == windows@,
            entries == vstd::std_specs::hash::spec_hash_map_iter(windows).remaining(),
            it.seq() == entries,
            forall|i: int| 0 <= i < entries.len() ==> m.contains_key(*entries[i].0) && m[*entries[i].0] == *entries[i].1,
            r@ == Map::new(
                |k: u64| seen_keys(entries, it.index()).contains(k),
                |k: u64| Window { is_focused: Some(m[k].id) == focus, ..m[k] },
            ),
    {
        let ghost n = it.index();
        proof {
            lemma_seen_step(entries, n);
        }
        assert(m.contains_key(*id) && m[*id] == *w);
        let mut updated = w.clone();
        updated.is_focused = match focus {
            Some(f) => w.id == f,
            None => false,
        };
        r.insert(*id, updated);
        assert(r@ =~= Map::new(
            |k: u64| seen_keys(entries, n + 1).contains(k),
            |k: u64| Window { is_focused: Some(m[k].id) == focus, ..m[k] },
        ));
    }
    assert(r@ =~= focus_windows(m, focus));
    r
}

/// Builds the workspace map after `WorkspaceActivated { id, focused }`.
fn activate(workspaces: &HashMap<u64, Workspace>, id: u64, focused: bool) -> (r: HashMap<u64, Workspace>)
    ensures
        r@ == activate_workspaces(workspaces@, id, focused),
{
    let ghost m = workspaces@;
    let output: Option<String> = match workspaces.get(&id) {
        Some(ws) => copy_opt_string(&ws.output),
        None => None,
    };
    assert(output == output_of(m, id));
    let ghost entries = vstd::std_specs::hash::spec_hash_map_iter(workspaces).remaining();
    proof {
        lemma_seen_all(workspaces);
    }
    let mut r: HashMap<u64, Workspace> = HashMap::new();
    for (key, w) in it: workspaces.iter()
        invariant
            m == workspaces@,
            output == output_of(m, id),
            entries == vstd::std_specs::hash::spec_hash_map_iter(workspaces).remaining(),
            it.seq() == entries,
            forall|i: int| 0 <= i < entries.len() ==> m.contains_key(*entries[i].0) && m[*entries[i].0] == *entries[i].1,
            r@ == Map::new(
                |k: u64| seen_keys(entries, it.index()).contains(k),
                |k: u64| activated_workspace(m[k], id, output, focused),
            ),
    {
        let ghost n = it.index();
        proof {
            lemma_seen_step(entries, n);
        }
        assert(m.contains_key(*key) && m[*key] == *w);
        let mut updated = w.clone();
        let same_output = match &output {
            Some(o) => match &w.output {
                Some(x) => crate::model::string_eq(x, o),
                None => false,
            },
            None => false,
        };
        if same_output {
            updated.is_active = w.id == id;
        }
        if focused {
            updated.is_focused = w.id == id;
        }
        r.insert(*key, updated);
        assert(r@ =~= Map::new(
            |k: u64| seen_keys(entries, n + 1).contains(k),
            |k: u64| activated_workspace(m[k], id, output, focused),
        ));
    }
    assert(r@ =~= activate_workspaces(m, id, focused));
    r
}

proof fn lemma_layout_changes_keyed(m: Map<u64, Window>, changes: Seq<(u64, WindowLayout)>)
    requires
        crate::state::windows_keyed_by_id(m),
    ensures
        crate::state::windows_keyed_by_id(apply_layout_changes(m, changes)),
    decreases changes.len(),
{
    if changes.len() > 0 {
        lemma_layout_changes_keyed(m, changes.drop_last());
    }
}

/// Applies layout changes, in order, to the windows they name.
fn change_layouts(windows: &mut HashMap<u64, Window>, changes: &Vec<(u64, WindowLayout)>)
    ensures
        final(windows)@ == apply_layout_changes(old(windows)@, changes@),
{
    let ghost m = windows@;
    let mut i: usize = 0;
    while i < changes.len()
        invariant
            i <= changes.len(),
            windows@ == apply_layout_changes(m, changes@.take(i as int)),
        decreases changes.len() - i,
    {
        let (id, layout) = changes[i];
        assert(changes@.take(i + 1).drop_last() =~= changes@.take(i as int));
        match windows.get(&id) {
            Some(w) => {
                let mut updated = w.clone();
                updated.layout = layout;
                windows.insert(id, updated);
            },
            None => {},
        }
        i += 1;
    }
    assert(changes@.take(i as int) =~= changes@);
}

/// Folds one event of niri's event stream into the state: full snapshots replace the
/// workspace or window map, patch events change only the records they name, and the
/// derived indices are rebuilt after every change of the maps.
pub fn apply_event(state: &mut ActualState, event: Event)
    requires
        old(state).well_formed(),
    ensures
        final(state).well_formed(),
        (final(state).workspaces@, final(state).windows@, final(state).last_config_loaded_failed) == next_state(
            old(state).workspaces@,
            old(state).windows@,
            old(state).last_config_loaded_failed,
            event,
        ),
        event is ConfigLoaded || event is Other ==> {
            &&& final(state).workspace_name_to_id@ == old(state).workspace_name_to_id@
            &&& final(state).windows_by_app_id@ == old(state).windows_by_app_id@
            &&& final(state).positions@ == old(state).positions@
        },
{
    let ghost ws0 = state.workspaces@;
    let ghost win0 = state.windows@;
    match event {
        Event::WorkspacesChanged { workspaces } => state.replace_workspaces(workspaces),
        Event::WorkspaceUrgencyChanged { id, urgent } => {
            match state.workspaces.get(&id) {
                Some(ws) => {
                    let mut updated = ws.clone();
                    updated.is_urgent = urgent;
                    state.workspaces.insert(id, updated);
                },
                None => {},
            }
            state.rebuild_indices();
        },
        Event::WorkspaceActivated { id, focused } => {
            state.workspaces = activate(&state.workspaces, id, focused);
            state.rebuild_indices();
        },
        Event::WorkspaceActiveWindowChanged { workspace_id, active_window_id } => {
            match state.workspaces.get(&workspace_id) {
                Some(ws) => {
                    let mut updated = ws.clone();
                    updated.active_window_id = active_window_id;
                    state.workspaces.insert(workspace_id, updated);
                },
                None => {},
            }
            state.rebuild_indices();
        },
        Event::WindowsChanged { windows } => state.replace_windows(windows),
        Event::WindowOpenedOrChanged { window } => {
            if window.is_focused {
                state.windows = refocus_windows(&state.windows, None);
            }
            state.windows.insert(window.id, window);
            state.rebuild_indices();
        },
        Event::WindowClosed { id } => {
            state.windows.remove(&id);
            state.rebuild_indices();
        },
        Event::WindowFocusChanged { id } => {
            state.windows = refocus_windows(&state.windows, id);
            state.rebuild_indices();
        },
        Event::WindowFocusTimestampChanged { id, focus_timestamp } => {
            match state.windows.get(&id) {
                Some(w) => {
                    let mut updated = w.clone();
                    updated.focus_timestamp = focus_timestamp;
                    state.windows.insert(id, updated);
                },
                None => {},
            }
            state.rebuild_indices();
        },
        Event::WindowUrgencyChanged { id, urgent } => {
            match state.windows.get(&id) {
                Some(w) => {
                    let mut updated = w.clone();
                    updated.is_urgent = urgent;
                    state.windows.insert(id, updated);
                },
                None => {},
            }
            state.rebuild_indices();
        },
        Event::WindowLayoutsChanged { changes } => {
            change_layouts(&mut state.windows, &changes);
            proof {
                lemma_layout_changes_keyed(win0, changes@);
            }
            state.rebuild_indices();
        },
        Event::ConfigLoaded { failed } => {
            state.last_config_loaded_failed = Some(failed);
        },
        Event::Other => {},
    }
}


// ---------------------------------------------------------------------------------
// Laws of the reducer
// ---------------------------------------------------------------------------------

/// A full snapshot replaces its whole map, whatever was tracked before, and leaves the
/// other map and the config-load report alone: `WorkspacesChanged` for workspaces,
/// `WindowsChanged` for windows.
pub proof fn law_snapshots_replace(
    workspaces: Map<u64, Workspace>,
    windows: Map<u64, Window>,
    last: Option<bool>,
    event: Event,
)
    ensures
        event matches Event::WorkspacesChanged { workspaces: new }
            ==> next_state(workspaces, windows, last, event) == (workspace_map(new@), windows, last),
        event matches Event::WindowsChanged { windows: new }
            ==> next_state(workspaces, windows, last, event) == (workspaces, window_map(new@), last),
{
}

/// A patch event changes only the record it names: the workspace of
/// `WorkspaceUrgencyChanged` or `WorkspaceActiveWindowChanged`, the window of
/// `WindowUrgencyChanged`, `WindowFocusTimestampChanged` or `WindowClosed`; every other
/// record, the other map and the config-load report stay as they were, and a record
/// the state does not know is not added.
pub proof fn law_patches_touch_only_their_record(
    workspaces: Map<u64, Workspace>,
    windows: Map<u64, Window>,
    last: Option<bool>,
    event: Event,
)
    ensures
        ({
            let (ws2, win2, last2) = next_state(workspaces, windows, last, event);
            &&& (event matches Event::WorkspaceUrgencyChanged { id, .. }
                ==> win2 == windows && last2 == last && ws2.dom() == workspaces.dom()
                    && forall|k: u64| #[trigger] ws2.contains_key(k) && k != id ==> ws2[k] == workspaces[k])
            &&& (event matches Event::WorkspaceActiveWindowChanged { workspace_id, .. }
                ==> win2 == windows && last2 == last && ws2.dom() == workspaces.dom()
                    && forall|k: u64| #[trigger] ws2.contains_key(k) && k != workspace_id ==> ws2[k] == workspaces[k])
            &&& (event matches Event::WindowUrgencyChanged { id, .. }
                ==> ws2 == workspaces && last2 == last && win2.dom() == windows.dom()
                    && forall|k: u64| #[trigger] win2.contains_key(k) && k != id ==> win2[k] == windows[k])
            &&& (event matches Event::WindowFocusTimestampChanged { id, .. }
                ==> ws2 == workspaces && last2 == last && win2.dom() == windows.dom()
                    && forall|k: u64| #[trigger] win2.contains_key(k) && k != id ==> win2[k] == windows[k])
            &&& (event matches Event::WindowClosed { id }
                ==> ws2 == workspaces && last2 == last && win2.dom() == windows.dom().remove(id)
                    && forall|k: u64| #[trigger] win2.contains_key(k) ==> win2[k] == windows[k])
        }),
{
    let (ws2, win2, last2) = next_state(workspaces, windows, last, event);
    match event {
        Event::WorkspaceUrgencyChanged { id, urgent } => {
            assert(ws2.dom() =~= workspaces.dom());
        },
        Event::WorkspaceActiveWindowChanged { workspace_id, active_window_id } => {
            assert(ws2.dom() =~= workspaces.dom());
        },
        Event::WindowUrgencyChanged { id, urgent } => {
            assert(win2.dom() =~= windows.dom());
        },
        Event::WindowFocusTimestampChanged { id, focus_timestamp } => {
            assert(win2.dom() =~= windows.dom());
        },
        Event::WindowClosed { id } => {
            assert(win2.dom() =~= windows.dom().remove(id));
        },
        _ => {},
    }
}

/// Layout changes update stored layouts in place: the same windows stay known, and each
/// keeps everything but its layout; a change for an unknown window adds nothing.
pub proof fn law_layouts_change_only_layouts(windows: Map<u64, Window>, changes: Seq<(u64, WindowLayout)>)
    ensures
        apply_layout_changes(windows, changes).dom() == windows.dom(),
        forall|k: u64| #[trigger] apply_layout_changes(windows, changes).contains_key(k)
            ==> apply_layout_changes(windows, changes)[k] == (Window {
                layout: apply_layout_changes(windows, changes)[k].layout,
                ..windows[k]
            }),
    decreases changes.len(),
{
    if changes.len() > 0 {
        law_layouts_change_only_layouts(windows, changes.drop_last());
        let prev = apply_layout_changes(windows, changes.drop_last());
        let (id, layout) = changes.last();
        if prev.contains_key(id) {
            assert(apply_layout_changes(windows, changes).dom() =~= prev.dom().insert(id));
            assert(prev.dom().insert(id) =~= prev.dom());
        }
    }
}

/// After a focus change, or after a focused window opens or changes, exactly the named
/// window is focused: no two windows are ever focused at once.
pub proof fn law_focus_is_single(
    workspaces: Map<u64, Workspace>,
    windows: Map<u64, Window>,
    last: Option<bool>,
    event: Event,
)
    requires
        crate::state::windows_keyed_by_id(windows),
    ensures
        ({
            let win2 = next_state(workspaces, windows, last, event).1;
            &&& (event matches Event::WindowFocusChanged { id }
                ==> forall|k: u64| #[trigger] win2.contains_key(k) ==> (win2[k].is_focused <==> id == Some(k)))
            &&& (event is WindowOpenedOrChanged && event->window.is_focused
                ==> forall|k: u64| #[trigger] win2.contains_key(k) ==> (win2[k].is_focused <==> k == event->window.id))
        }),
{
}

/// Activating a known workspace on an output makes it the only active workspace of
/// that output; workspaces on other outputs keep their activity, and the set of
/// workspaces is unchanged.
pub proof fn law_activation_is_single_per_output(
    workspaces: Map<u64, Workspace>,
    windows: Map<u64, Window>,
    last: Option<bool>,
    id: u64,
    focused: bool,
)
    requires
        crate::state::workspaces_keyed_by_id(workspaces),
        workspaces.contains_key(id),
        workspaces[id].output is Some,
    ensures
        ({
            let ws2 = next_state(workspaces, windows, last, Event::WorkspaceActivated { id, focused }).0;
            let output = workspaces[id].output->0;
            &&& ws2.dom() == workspaces.dom()
            &&& forall|k: u64| #[trigger] ws2.contains_key(k) && opt_str_is(workspaces[k].output, output@)
                ==> (ws2[k].is_active <==> k == id)
            &&& forall|k: u64| #[trigger] ws2.contains_key(k) && !opt_str_is(workspaces[k].output, output@)
                ==> ws2[k].is_active == workspaces[k].is_active
        }),
{
    let ws2 = next_state(workspaces, windows, last, Event::WorkspaceActivated { id, focused }).0;
    assert(ws2.dom() =~= workspaces.dom());
}


/// Every layout change takes effect: for each change naming a known window that no
/// later change names again, the window ends with exactly that change's layout.
pub proof fn law_layout_changes_store_each_last_layout(m: Map<u64, Window>, changes: Seq<(u64, WindowLayout)>, i: int)
    requires
        0 <= i < changes.len(),
        m.contains_key(changes[i].0),
        forall|j: int| i < j < changes.len() ==> (#[trigger] changes[j]).0 != changes[i].0,
    ensures
        apply_layout_changes(m, changes).contains_key(changes[i].0),
        apply_layout_changes(m, changes)[changes[i].0].layout == changes[i].1,
    decreases changes.len(),
{
    law_layouts_change_only_layouts(m, changes.drop_last());
    if i < changes.len() - 1 {
        let rest = changes.drop_last();
        assert forall|j: int| i < j < rest.len() implies (#[trigger] rest[j]).0 != rest[i].0 by {
            assert(rest[j] == changes[j]);
        }
        law_layout_changes_store_each_last_layout(m, rest, i);
        assert(changes[changes.len() - 1].0 != changes[i].0);
    }
}

/// A window that no layout change names keeps its record unchanged.
pub proof fn law_layout_changes_leave_unnamed_windows(m: Map<u64, Window>, changes: Seq<(u64, WindowLayout)>, k: u64)
    requires
        forall|j: int| 0 <= j < changes.len() ==> (#[trigger] changes[j]).0 != k,
    ensures
        apply_layout_changes(m, changes).contains_key(k) == m.contains_key(k),
        m.contains_key(k) ==> apply_layout_changes(m, changes)[k] == m[k],
    decreases changes.len(),
{
    if changes.len() > 0 {
        let rest = changes.drop_last();
        assert forall|j: int| 0 <= j < rest.len() implies (#[trigger] rest[j]).0 != k by {
            assert(rest[j] == changes[j]);
        }
        law_layout_changes_leave_unnamed_windows(m, rest, k);
        assert(changes[changes.len() - 1].0 != k);
    }
}

} // verus!
