use niri_autostart::config::{SizeSpec, WindowSpec};
use niri_autostart::model::{Timestamp, Window, WindowLayout};
use niri_autostart::runtime_state::{RuntimeState, StoredWindow, WindowKey, STATE_VERSION};
use niri_autostart::state::ActualState;

fn spec(command: &[&str]) -> WindowSpec {
    WindowSpec {
        app_id: "kitty".to_string(),
        command: command.iter().map(|part| part.to_string()).collect(),
        height: SizeSpec::Fixed(100),
        floating: false,
    }
}

fn window(id: u64, app_id: &str, pid: Option<i32>) -> Window {
    Window {
        id,
        title: None,
        app_id: Some(app_id.to_string()),
        pid,
        workspace_id: Some(1),
        is_focused: false,
        is_floating: false,
        is_urgent: false,
        layout: WindowLayout {
            pos_in_scrolling_layout: Some((1, 1)),
            tile_size: (100.0f64.to_bits(), 100.0f64.to_bits()),
            window_size: (100, 100),
            tile_pos_in_workspace_view: None,
            window_offset_in_tile: (0.0f64.to_bits(), 0.0f64.to_bits()),
        },
        focus_timestamp: Some(Timestamp { secs: 0, nanos: 0 }),
    }
}

#[test]
fn resolves_recorded_live_window() {
    let key = WindowKey::new("code", 1, 1);
    let spec = spec(&["terminal", "-e", "nvim"]);
    let window = window(42, "kitty", Some(1000));

    let mut runtime = RuntimeState::default();
    runtime.record(&key, &spec, &window);

    let mut state = ActualState::default();
    state.replace_windows(vec![window]);

    assert_eq!(runtime.window_id(&key, &spec, &state), Some(42));
}

#[test]
fn ignores_stale_or_shifted_entries() {
    let key = WindowKey::new("code", 1, 1);
    let window_spec = spec(&["terminal", "-e", "nvim"]);
    let changed_spec = spec(&["terminal", "-e", "fish"]);
    let recorded_window = window(42, "kitty", Some(1000));

    let mut runtime = RuntimeState::default();
    runtime.record(&key, &window_spec, &recorded_window);

    let mut state = ActualState::default();
    state.replace_windows(vec![window(42, "kitty", Some(1001))]);

    assert_eq!(runtime.window_id(&key, &window_spec, &state), None);
    assert_eq!(runtime.window_id(&key, &changed_spec, &state), None);
}

#[test]
fn recording_replaces_the_position_and_keeps_the_order() {
    let spec = spec(&["kitty"]);
    let mut runtime = RuntimeState::default();
    runtime.record(&WindowKey::new("web", 2, 1), &spec, &window(5, "kitty", Some(50)));
    runtime.record(&WindowKey::new("code", 1, 2), &spec, &window(6, "kitty", Some(60)));
    runtime.record(&WindowKey::new("code", 1, 1), &spec, &window(7, "kitty", None));
    runtime.record(&WindowKey::new("web", 2, 1), &spec, &window(8, "kitty", Some(80)));

    let positions: Vec<(String, usize, usize, u64)> = runtime
        .windows
        .iter()
        .map(|w| (w.workspace.clone(), w.column, w.row, w.window_id))
        .collect();
    assert_eq!(
        positions,
        vec![
            ("code".to_string(), 1, 1, 7),
            ("code".to_string(), 1, 2, 6),
            ("web".to_string(), 2, 1, 8),
        ]
    );
    assert_eq!(runtime.version, STATE_VERSION);
    assert_eq!(runtime.windows[2].pid, Some(80));
    assert_eq!(runtime.windows[0].pid, None);
    assert_eq!(runtime.windows[0].command, vec!["kitty".to_string()]);
}

#[test]
fn keys_and_matches() {
    let key = WindowKey::new("code", 3, 2);
    assert_eq!(key.to_text(), "code:3:2");
    let stored = StoredWindow {
        workspace: "code".to_string(),
        column: 3,
        row: 2,
        window_id: 1,
        app_id: "kitty".to_string(),
        pid: None,
        command: vec![],
    };
    assert!(stored.matches_key(&key));
    assert!(!stored.matches_key(&WindowKey::new("code", 3, 1)));
    assert!(!stored.matches_key(&WindowKey::new("web", 3, 2)));
}

#[test]
fn loaded_state_takes_the_current_version() {
    let loaded = RuntimeState { version: 0, windows: vec![] };
    let upgraded = loaded.with_current_version();
    assert_eq!(upgraded.version, STATE_VERSION);
    assert!(upgraded.windows.is_empty());
}
