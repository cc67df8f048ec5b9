use niri_autostart::model::{Event, Timestamp, Window, WindowLayout, Workspace};
use niri_autostart::reducer::apply_event;
use niri_autostart::state::ActualState;

fn workspace(id: u64, name: &str, output: &str, is_active: bool) -> Workspace {
    Workspace {
        id,
        idx: 1,
        name: Some(name.to_string()),
        output: Some(output.to_string()),
        is_urgent: false,
        is_active,
        is_focused: is_active,
        active_window_id: None,
    }
}

fn window(id: u64, app_id: &str) -> Window {
    Window {
        id,
        title: Some(app_id.to_string()),
        app_id: Some(app_id.to_string()),
        pid: Some(1),
        workspace_id: Some(1),
        is_focused: false,
        is_floating: false,
        is_urgent: false,
        layout: WindowLayout {
            pos_in_scrolling_layout: Some((1, 1)),
            tile_size: (100.0f64.to_bits(), 100.0f64.to_bits()),
            window_size: (100, 100),
            tile_pos_in_workspace_view: None,
            window_offset_in_tile: (0.0f64.to_bits(), 0.0f64.to_bits()),
        },
        focus_timestamp: Some(Timestamp { secs: 0, nanos: 0 }),
    }
}

#[test]
fn windows_changed_replaces_full_map() {
    let mut state = ActualState::default();
    state.replace_windows(vec![window(1, "old")]);

    apply_event(&mut state, Event::WindowsChanged { windows: vec![window(2, "new")] });

    assert!(state.windows.contains_key(&2));
    assert!(!state.windows.contains_key(&1));
    assert_eq!(state.windows.len(), 1);
    assert!(!state.windows_by_app_id.contains_key("old"));
    assert!(state.windows_by_app_id.contains_key("new"));
}

#[test]
fn window_opened_or_changed_updates_one_window() {
    let mut state = ActualState::default();
    state.replace_windows(vec![window(1, "a")]);

    apply_event(&mut state, Event::WindowOpenedOrChanged { window: window(2, "b") });

    assert!(state.windows.contains_key(&1));
    assert!(state.windows.contains_key(&2));
}

#[test]
fn window_layouts_changed_updates_layout_only() {
    let mut state = ActualState::default();
    state.replace_windows(vec![window(1, "a")]);

    let mut layout = state.windows.get(&1).unwrap().layout;
    layout.pos_in_scrolling_layout = Some((2, 3));

    apply_event(&mut state, Event::WindowLayoutsChanged { changes: vec![(1, layout)] });

    assert_eq!(state.windows.get(&1).unwrap().layout, layout);
    assert_eq!(state.windows.get(&1).unwrap().app_id.as_deref(), Some("a"));
}

#[test]
fn workspaces_changed_rebuilds_name_index() {
    let mut state = ActualState::default();
    apply_event(&mut state, Event::WorkspacesChanged { workspaces: vec![workspace(1, "firework", "HDMI-A-1", true)] });

    assert_eq!(state.workspace_id_by_name("firework"), Some(1));
}

#[test]
fn focus_moves_to_exactly_one_window() {
    let mut state = ActualState::default();
    let mut a = window(1, "a");
    a.is_focused = true;
    state.replace_windows(vec![a, window(2, "b")]);

    apply_event(&mut state, Event::WindowFocusChanged { id: Some(2) });
    assert!(!state.windows[&1].is_focused);
    assert!(state.windows[&2].is_focused);

    let mut c = window(3, "c");
    c.is_focused = true;
    apply_event(&mut state, Event::WindowOpenedOrChanged { window: c });
    assert!(!state.windows[&2].is_focused);
    assert!(state.windows[&3].is_focused);

    apply_event(&mut state, Event::WindowFocusChanged { id: None });
    assert!(state.windows.values().all(|w| !w.is_focused));
}

#[test]
fn window_closed_removes_only_that_window() {
    let mut state = ActualState::default();
    state.replace_windows(vec![window(1, "a"), window(2, "b")]);
    apply_event(&mut state, Event::WindowClosed { id: 1 });
    assert!(!state.windows.contains_key(&1));
    assert!(state.windows.contains_key(&2));
    assert_eq!(state.first_window_id_by_app_id("a"), None);
    assert_eq!(state.first_window_id_by_app_id("b"), Some(2));
}

#[test]
fn activation_is_single_per_output() {
    let mut state = ActualState::default();
    state.replace_workspaces(vec![
        workspace(1, "one", "eDP-1", true),
        workspace(2, "two", "eDP-1", false),
        workspace(3, "three", "HDMI-A-1", true),
    ]);
    apply_event(&mut state, Event::WorkspaceActivated { id: 2, focused: true });
    assert!(!state.workspaces[&1].is_active);
    assert!(state.workspaces[&2].is_active);
    assert!(state.workspaces[&3].is_active);
    assert!(state.workspaces[&2].is_focused);
    assert!(!state.workspaces[&3].is_focused);
}

#[test]
fn patches_change_only_their_record() {
    let mut state = ActualState::default();
    state.replace_workspaces(vec![workspace(1, "one", "eDP-1", true), workspace(2, "two", "eDP-1", false)]);
    state.replace_windows(vec![window(1, "a"), window(2, "b")]);
    apply_event(&mut state, Event::WindowUrgencyChanged { id: 2, urgent: true });
    apply_event(&mut state, Event::WorkspaceActiveWindowChanged { workspace_id: 1, active_window_id: Some(1) });
    apply_event(&mut state, Event::WorkspaceUrgencyChanged { id: 2, urgent: true });
    apply_event(&mut state, Event::WindowFocusTimestampChanged { id: 1, focus_timestamp: Some(Timestamp { secs: 5, nanos: 1 }) });
    apply_event(&mut state, Event::WindowUrgencyChanged { id: 99, urgent: true });
    assert!(state.windows[&2].is_urgent);
    assert!(!state.windows[&1].is_urgent);
    assert_eq!(state.workspaces[&1].active_window_id, Some(1));
    assert_eq!(state.workspaces[&2].active_window_id, None);
    assert!(state.workspaces[&2].is_urgent);
    assert!(!state.workspaces[&1].is_urgent);
    assert_eq!(state.windows[&1].focus_timestamp, Some(Timestamp { secs: 5, nanos: 1 }));
    assert!(!state.windows.contains_key(&99));
    apply_event(&mut state, Event::ConfigLoaded { failed: true });
    assert_eq!(state.last_config_loaded_failed, Some(true));
}

#[test]
fn closing_the_last_window_of_an_app_drops_its_index_entry() {
    let mut state = ActualState::default();
    state.replace_windows(vec![window(1, "a"), window(2, "b")]);
    apply_event(&mut state, Event::WindowClosed { id: 1 });
    assert!(!state.windows_by_app_id.contains_key("a"));
    assert_eq!(state.windows_by_app_id.get("b").map(|ids| ids.len()), Some(1));
    assert!(state.positions.values().all(|id| *id == 2));
}

#[test]
fn config_loaded_keeps_maps_and_indices() {
    let mut state = ActualState::default();
    state.replace_workspaces(vec![workspace(1, "firework", "HDMI-A-1", true)]);
    state.replace_windows(vec![window(1, "a")]);
    apply_event(&mut state, Event::ConfigLoaded { failed: false });
    assert_eq!(state.last_config_loaded_failed, Some(false));
    assert_eq!(state.workspace_id_by_name("firework"), Some(1));
    assert_eq!(state.windows_by_app_id.get("a").map(|ids| ids.len()), Some(1));
    assert_eq!(state.positions.get(&(1, 1, 1)), Some(&1));
}
