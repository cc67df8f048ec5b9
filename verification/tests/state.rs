use niri_autostart::model::{Timestamp, Window, WindowLayout, Workspace};
use niri_autostart::predicate::{
    column_has_window_count, window_at_position, window_exists_by_app_id, window_id_at_position,
    window_id_on_workspace, window_on_workspace, workspace_active, workspace_column_counts, workspace_known,
};
use niri_autostart::state::ActualState;

fn layout(column: usize, row: usize, width: f64, height: f64) -> WindowLayout {
    WindowLayout {
        pos_in_scrolling_layout: Some((column, row)),
        tile_size: (width.to_bits(), height.to_bits()),
        window_size: (width as i32, height as i32),
        tile_pos_in_workspace_view: None,
        window_offset_in_tile: (0.0f64.to_bits(), 0.0f64.to_bits()),
    }
}

fn window(id: u64, app_id: &str, workspace_id: u64, column: usize, row: usize) -> Window {
    Window {
        id,
        title: Some(app_id.to_string()),
        app_id: Some(app_id.to_string()),
        pid: Some(1),
        workspace_id: Some(workspace_id),
        is_focused: false,
        is_floating: false,
        is_urgent: false,
        layout: layout(column, row, 100.0, 100.0),
        focus_timestamp: Some(Timestamp { secs: 0, nanos: 0 }),
    }
}

fn workspace(id: u64, idx: u8, name: &str, output: &str, is_active: bool) -> Workspace {
    Workspace {
        id,
        idx,
        name: Some(name.to_string()),
        output: Some(output.to_string()),
        is_urgent: false,
        is_active,
        is_focused: is_active,
        active_window_id: None,
    }
}

fn firework_state() -> ActualState {
    let mut state = ActualState::default();
    state.replace_workspaces(vec![workspace(1, 1, "firework", "HDMI-A-1", true)]);
    let mut fastfetch = window(1, "fw-fastfetch", 1, 1, 1);
    fastfetch.title = Some("fastfetch".to_string());
    fastfetch.is_focused = true;
    fastfetch.layout = layout(1, 1, 633.0, 284.0);
    state.replace_windows(vec![fastfetch]);
    state
}

#[test]
fn computes_workspace_column_counts() {
    let mut state = ActualState::default();
    state.replace_workspaces(vec![workspace(10, 1, "firework", "HDMI-A-1", true)]);
    state.replace_windows(vec![
        window(1, "a", 10, 1, 1),
        window(2, "b", 10, 1, 2),
        window(3, "c", 10, 2, 1),
    ]);

    assert_eq!(state.workspace_column_counts("firework"), Some(vec![2, 1]));
}

#[test]
fn prefers_tiled_window_on_requested_workspace() {
    let mut state = ActualState::default();
    state.replace_workspaces(vec![
        workspace(10, 1, "internet", "eDP-1", true),
        workspace(11, 2, "other", "eDP-1", false),
    ]);

    let mut floating_on_internet = window(1, "org.telegram.desktop", 10, 1, 1);
    floating_on_internet.is_floating = true;
    let tiled_elsewhere = window(2, "org.telegram.desktop", 11, 1, 1);
    let tiled_on_internet = window(3, "org.telegram.desktop", 10, 2, 1);

    state.replace_windows(vec![floating_on_internet, tiled_elsewhere, tiled_on_internet]);

    assert_eq!(state.window_id_by_app_id_on_workspace("org.telegram.desktop", "internet"), Some(3));
}

#[test]
fn preference_falls_back_to_tiled_then_focused_then_highest_id() {
    let mut state = ActualState::default();
    state.replace_workspaces(vec![workspace(10, 1, "internet", "eDP-1", true), workspace(11, 2, "other", "eDP-1", false)]);
    let mut a = window(4, "zen", 11, 1, 1);
    a.is_focused = true;
    let b = window(5, "zen", 11, 2, 1);
    let mut c = window(9, "zen", 11, 3, 1);
    c.is_floating = true;
    state.replace_windows(vec![a, b, c]);
    // No window on "internet": the focused tiled window beats the higher id.
    assert_eq!(state.preferred_window_id_by_app_id("zen", Some("internet")), Some(4));
    assert_eq!(state.preferred_window_id_by_app_id("zen", None), Some(4));
    assert_eq!(state.preferred_window_id_by_app_id("kitty", None), None);
    assert_eq!(state.first_window_id_by_app_id("zen"), Some(4));
}

#[test]
fn name_and_position_lookups() {
    let mut state = ActualState::default();
    state.replace_workspaces(vec![workspace(10, 1, "internet", "eDP-1", true), workspace(11, 2, "other", "eDP-1", false)]);
    state.replace_windows(vec![window(3, "zen", 10, 2, 1)]);
    assert_eq!(state.workspace_id_by_name("other"), Some(11));
    assert_eq!(state.workspace_id_by_name("missing"), None);
    assert_eq!(state.workspace_by_name("internet").map(|w| w.id), Some(10));
    assert_eq!(state.window_position_by_id(3), Some((2, 1)));
    assert_eq!(state.window_position_by_id(4), None);
    let mut ids = state.window_ids();
    ids.sort();
    assert_eq!(ids, vec![3]);
    assert_eq!(state.window_by_app_id("zen").map(|w| w.id), Some(3));
}

#[test]
fn matches_exact_app_id() {
    let state = firework_state();
    assert!(window_exists_by_app_id(&state, "fw-fastfetch"));
    assert!(!window_exists_by_app_id(&state, "kitty"));
}

#[test]
fn matches_position() {
    let state = firework_state();
    assert!(window_at_position(&state, "fw-fastfetch", "firework", 1, 1));
    assert!(!window_at_position(&state, "fw-fastfetch", "firework", 2, 1));
}

#[test]
fn matches_column_counts() {
    let state = firework_state();
    assert!(workspace_column_counts(&state, "firework", &[1]));
    assert!(column_has_window_count(&state, "firework", 1, 1));
}

#[test]
fn workspace_and_window_predicates() {
    let state = firework_state();
    assert!(workspace_known(&state, "firework"));
    assert!(!workspace_known(&state, "notes"));
    assert!(workspace_active(&state, "firework"));
    assert!(window_on_workspace(&state, "fw-fastfetch", "firework"));
    assert!(!window_on_workspace(&state, "fw-fastfetch", "notes"));
    assert!(window_id_on_workspace(&state, 1, "firework"));
    assert!(!window_id_on_workspace(&state, 2, "firework"));
    assert!(window_id_at_position(&state, 1, "firework", 1, 1));
    assert!(!window_id_at_position(&state, 1, "firework", 1, 2));
    assert!(!workspace_column_counts(&state, "firework", &[2]));
    assert!(!column_has_window_count(&state, "firework", 2, 1));
}
