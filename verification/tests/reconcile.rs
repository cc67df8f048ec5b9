use niri_autostart::config::{
    ColumnSpec, Config, RawAutostartConfig, RawColumnSpec, RawSizeSpec, RawWindowSpec, RawWorkspaceSpec, SizeSpec,
    WindowSpec, WorkspaceSpec,
};
use niri_autostart::error::NiriAutostartError;
use niri_autostart::model::{Event, Timestamp, Window, WindowLayout, Workspace};
use niri_autostart::predicate;
use niri_autostart::reconcile::{
    app_id_unique, condition_holds, describe, describe_quiet, label_of, scrolling_layout_target,
    spawned_window_id_in_state, window_id_by_spec, Command, Condition, NiriAction, Reconciler, WindowMatch,
};
use niri_autostart::reducer::apply_event;
use niri_autostart::runtime_state::{RuntimeState, WindowKey};
use niri_autostart::state::ActualState;

fn window(id: u64, app_id: &str, workspace_id: u64, column: usize, row: usize) -> Window {
    Window {
        id,
        title: Some(app_id.to_string()),
        app_id: Some(app_id.to_string()),
        pid: Some(1),
        workspace_id: Some(workspace_id),
        is_focused: false,
        is_floating: false,
        is_urgent: false,
        layout: WindowLayout {
            pos_in_scrolling_layout: Some((column, row)),
            tile_size: (100.0f64.to_bits(), 100.0f64.to_bits()),
            window_size: (100, 100),
            tile_pos_in_workspace_view: None,
            window_offset_in_tile: (0.0f64.to_bits(), 0.0f64.to_bits()),
        },
        focus_timestamp: Some(Timestamp { secs: 0, nanos: 0 }),
    }
}

fn workspace(id: u64, name: &str, is_active: bool) -> Workspace {
    Workspace {
        id,
        idx: id as u8,
        name: Some(name.to_string()),
        output: Some("HDMI-A-1".to_string()),
        is_urgent: false,
        is_active,
        is_focused: is_active,
        active_window_id: None,
    }
}

fn spec(app_id: &str, height: i32, floating: bool) -> WindowSpec {
    WindowSpec {
        app_id: app_id.to_string(),
        command: vec!["terminal".to_string(), "--class".to_string(), app_id.to_string()],
        height: SizeSpec::Fixed(height),
        floating,
    }
}

fn config(workspaces: Vec<(&str, Vec<Vec<WindowSpec>>)>) -> Config {
    Config {
        workspaces: workspaces
            .into_iter()
            .map(|(name, columns)| WorkspaceSpec {
                name: name.to_string(),
                columns: columns
                    .into_iter()
                    .map(|windows| ColumnSpec { width: SizeSpec::Proportion(0.5f64.to_bits()), windows })
                    .collect(),
            })
            .collect(),
    }
}

/// A small stand-in for niri: it applies actions to a tracked state the way niri would
/// report them on its event stream.
struct Niri {
    state: ActualState,
    next_id: u64,
    focused_column: usize,
    actions: Vec<NiriAction>,
}

impl Niri {
    fn new(workspaces: Vec<Workspace>, windows: Vec<Window>) -> Self {
        let mut state = ActualState::default();
        state.replace_workspaces(workspaces);
        state.replace_windows(windows);
        Niri { state, next_id: 100, focused_column: 1, actions: Vec::new() }
    }

    fn focused_workspace(&self) -> u64 {
        self.state.workspaces.values().find(|w| w.is_focused).map(|w| w.id).unwrap()
    }

    fn last_column(&self, workspace: u64) -> usize {
        self.state
            .windows
            .values()
            .filter(|w| w.workspace_id == Some(workspace))
            .filter_map(|w| w.layout.pos_in_scrolling_layout.map(|(c, _)| c))
            .max()
            .unwrap_or(0)
    }

    fn update(&mut self, id: u64, change: impl FnOnce(&mut Window)) {
        let mut w = self.state.windows[&id].clone();
        change(&mut w);
        apply_event(&mut self.state, Event::WindowOpenedOrChanged { window: w });
    }

    fn focused_window(&self) -> u64 {
        self.state.windows.values().find(|w| w.is_focused).map(|w| w.id).unwrap()
    }

    fn perform(&mut self, action: &NiriAction) {
        match action {
            NiriAction::Spawn { command } => {
                let app_id = command[2].clone();
                let ws = self.focused_workspace();
                let column = self.last_column(ws) + 1;
                let mut w = window(self.next_id, &app_id, ws, column, 1);
                w.pid = Some(4242);
                self.next_id += 1;
                apply_event(&mut self.state, Event::WindowOpenedOrChanged { window: w });
            },
            NiriAction::FocusWorkspace { workspace } => {
                let id = self.state.workspace_id_by_name(workspace).unwrap();
                apply_event(&mut self.state, Event::WorkspaceActivated { id, focused: true });
            },
            NiriAction::FocusWindow { id } => {
                apply_event(&mut self.state, Event::WindowFocusChanged { id: Some(*id) });
                let window = &self.state.windows[id];
                let ws = window.workspace_id.unwrap();
                if let Some((column, _)) = window.layout.pos_in_scrolling_layout {
                    self.focused_column = column;
                }
                apply_event(
                    &mut self.state,
                    Event::WorkspaceActiveWindowChanged { workspace_id: ws, active_window_id: Some(*id) },
                );
            },
            NiriAction::FocusColumn { index } => self.focused_column = *index,
            NiriAction::MoveWindowToWorkspace { window_id, workspace } => {
                let ws = self.state.workspace_id_by_name(workspace).unwrap();
                let column = self.last_column(ws) + 1;
                self.update(*window_id, |w| {
                    w.workspace_id = Some(ws);
                    w.layout.pos_in_scrolling_layout = Some((column, 1));
                });
            },
            NiriAction::MoveWindowToFloating { id } => self.update(*id, |w| {
                w.is_floating = true;
                w.layout.pos_in_scrolling_layout = None;
            }),
            NiriAction::MoveWindowToTiling { id } => {
                let ws = self.state.windows[id].workspace_id.unwrap();
                let column = self.last_column(ws) + 1;
                self.update(*id, |w| {
                    w.is_floating = false;
                    w.layout.pos_in_scrolling_layout = Some((column, 1));
                });
            },
            NiriAction::ConsumeWindowIntoColumn => {
                let ws = self.focused_workspace();
                let target = self.focused_column;
                let below = self
                    .state
                    .windows
                    .values()
                    .filter(|w| w.workspace_id == Some(ws) && w.layout.pos_in_scrolling_layout.map(|p| p.0) == Some(target))
                    .count();
                let moved = self
                    .state
                    .windows
                    .values()
                    .find(|w| w.workspace_id == Some(ws) && w.layout.pos_in_scrolling_layout == Some((target + 1, 1)))
                    .map(|w| w.id)
                    .unwrap();
                self.update(moved, |w| w.layout.pos_in_scrolling_layout = Some((target, below + 1)));
            },
            NiriAction::MoveColumnToIndex { index } => {
                let id = self.focused_window();
                self.update(id, |w| {
                    let row = w.layout.pos_in_scrolling_layout.map(|p| p.1).unwrap_or(1);
                    w.layout.pos_in_scrolling_layout = Some((*index, row));
                });
            },
            NiriAction::MoveWindowDown | NiriAction::MoveWindowUp => {
                let id = self.focused_window();
                let down = matches!(action, NiriAction::MoveWindowDown);
                self.update(id, |w| {
                    let (c, r) = w.layout.pos_in_scrolling_layout.unwrap();
                    w.layout.pos_in_scrolling_layout = Some((c, if down { r + 1 } else { r - 1 }));
                });
            },
            NiriAction::SetColumnWidth { .. }
            | NiriAction::SetWindowWidth { .. }
            | NiriAction::SetWindowHeight { .. } => {},
        }
    }
}

fn drive(reconciler: &mut Reconciler, niri: &mut Niri) -> Result<(), NiriAutostartError> {
    for _ in 0..1000 {
        match reconciler.next_command() {
            Command::Done => return Ok(()),
            Command::Fail { error } => return Err(error),
            Command::Act { action } => {
                niri.perform(&action);
                niri.actions.push(action);
            },
            Command::WaitFor { condition, label } | Command::WaitForStable { condition, label } => {
                let holds = condition_holds(&niri.state, &condition);
                assert_ne!(holds, Some(false), "{}", describe(&condition, &label));
                reconciler.observe(niri.state.snapshot());
            },
            Command::WaitUntilQuiet { .. } | Command::Sync => reconciler.observe(niri.state.snapshot()),
            Command::Persist | Command::Proceed => {},
        }
    }
    panic!("the run did not finish");
}

#[test]
fn integration_like_sequence_reaches_final_layout_without_sleep() {
    let mut state = ActualState::default();
    state.replace_workspaces(vec![workspace(1, "firework", true)]);

    apply_event(&mut state, Event::WindowsChanged { windows: vec![window(1, "fw-fastfetch", 1, 1, 1)] });
    apply_event(&mut state, Event::WindowOpenedOrChanged { window: window(2, "fw-tty-clock", 1, 2, 1) });
    apply_event(
        &mut state,
        Event::WindowLayoutsChanged {
            changes: vec![(
                2,
                WindowLayout {
                    pos_in_scrolling_layout: Some((1, 2)),
                    tile_size: (633.0f64.to_bits(), 207.0f64.to_bits()),
                    window_size: (633, 207),
                    tile_pos_in_workspace_view: None,
                    window_offset_in_tile: (0.0f64.to_bits(), 0.0f64.to_bits()),
                },
            )],
        },
    );

    assert!(predicate::window_at_position(&state, "fw-tty-clock", "firework", 1, 2));
}

#[test]
fn floating_windows_have_no_scrolling_layout_target() {
    let mut floating = window(1, "btop", 1, 1, 1);
    floating.is_floating = true;
    floating.layout.pos_in_scrolling_layout = None;

    let spec = WindowSpec {
        app_id: "btop".to_string(),
        command: vec!["btop".to_string()],
        height: SizeSpec::Fixed(822),
        floating: true,
    };

    assert!(floating.layout.pos_in_scrolling_layout.is_none());
    assert_eq!(scrolling_layout_target(&spec, 1, 1), None);

    let tiled_spec = WindowSpec { floating: false, ..spec };
    assert_eq!(scrolling_layout_target(&tiled_spec, 1, 1), Some((1, 1)));
}

#[test]
fn reuses_a_window_already_in_place() {
    let mut fastfetch = window(1, "fw-fastfetch", 1, 1, 1);
    fastfetch.is_focused = true;
    let mut niri = Niri::new(vec![workspace(1, "firework", true)], vec![fastfetch]);
    let mut reconciler = Reconciler::new(RuntimeState::default(), niri.state.snapshot());
    reconciler.run(config(vec![("firework", vec![vec![spec("fw-fastfetch", 284, false)]])]));

    drive(&mut reconciler, &mut niri).unwrap();

    assert!(!niri.actions.iter().any(|a| matches!(a, NiriAction::Spawn { .. })));
    assert!(niri.actions.contains(&NiriAction::SetColumnWidth { change: SizeSpec::Proportion(0.5f64.to_bits()) }));
    assert!(niri.actions.contains(&NiriAction::SetWindowHeight { id: 1, change: SizeSpec::Fixed(284) }));
    assert_eq!(niri.actions.last(), Some(&NiriAction::FocusWindow { id: 1 }));
    let recorded = &reconciler.runtime_state().windows;
    assert_eq!(recorded.len(), 1);
    assert_eq!(recorded[0].window_id, 1);
    assert_eq!((recorded[0].workspace.as_str(), recorded[0].column, recorded[0].row), ("firework", 1, 1));
    assert!(matches!(reconciler.next_command(), Command::Done));
}

#[test]
fn spawns_a_missing_window_and_records_it() {
    let mut niri = Niri::new(vec![workspace(1, "firework", true)], vec![]);
    let mut reconciler = Reconciler::new(RuntimeState::default(), niri.state.snapshot());
    reconciler.run(config(vec![("firework", vec![vec![spec("fw-cava", 392, false)]])]));

    drive(&mut reconciler, &mut niri).unwrap();

    let spawns: Vec<&NiriAction> = niri.actions.iter().filter(|a| matches!(a, NiriAction::Spawn { .. })).collect();
    assert_eq!(
        spawns,
        vec![&NiriAction::Spawn {
            command: vec!["terminal".to_string(), "--class".to_string(), "fw-cava".to_string()]
        }]
    );
    let recorded = &reconciler.runtime_state().windows;
    assert_eq!(recorded.len(), 1);
    assert_eq!(recorded[0].window_id, 100);
    assert_eq!(recorded[0].pid, Some(4242));
    assert!(predicate::window_id_at_position(&niri.state, 100, "firework", 1, 1));
}

#[test]
fn stacks_a_second_window_into_the_first_column() {
    let mut first = window(1, "fw-fastfetch", 1, 1, 1);
    first.is_focused = true;
    let second = window(2, "fw-tty-clock", 1, 2, 1);
    let mut niri = Niri::new(vec![workspace(1, "firework", true)], vec![first, second]);
    let mut reconciler = Reconciler::new(RuntimeState::default(), niri.state.snapshot());
    reconciler.run(config(vec![(
        "firework",
        vec![vec![spec("fw-fastfetch", 284, false), spec("fw-tty-clock", 207, false)]],
    )]));

    drive(&mut reconciler, &mut niri).unwrap();

    assert!(niri.actions.contains(&NiriAction::ConsumeWindowIntoColumn));
    assert!(predicate::window_id_at_position(&niri.state, 2, "firework", 1, 2));
    assert!(predicate::workspace_column_counts(&niri.state, "firework", &[2]));
}

#[test]
fn moves_a_window_from_another_workspace_and_floats_it() {
    let mut other = window(5, "scratchpad", 2, 1, 1);
    other.is_focused = true;
    let mut niri = Niri::new(vec![workspace(1, "scratch", false), workspace(2, "other", true)], vec![other]);
    let mut reconciler = Reconciler::new(RuntimeState::default(), niri.state.snapshot());
    reconciler.run(config(vec![("scratch", vec![vec![spec("scratchpad", 400, true)]])]));

    drive(&mut reconciler, &mut niri).unwrap();

    assert!(niri.actions.contains(&NiriAction::MoveWindowToWorkspace { window_id: 5, workspace: "scratch".to_string() }));
    assert!(niri.actions.contains(&NiriAction::MoveWindowToFloating { id: 5 }));
    assert!(niri.actions.contains(&NiriAction::SetWindowWidth { id: 5, change: SizeSpec::Proportion(0.5f64.to_bits()) }));
    assert!(!niri.actions.iter().any(|a| matches!(a, NiriAction::SetColumnWidth { .. })));
    assert!(niri.state.windows[&5].is_floating);
    assert!(predicate::window_id_on_workspace(&niri.state, 5, "scratch"));
}

#[test]
fn fails_on_a_missing_workspace() {
    let mut niri = Niri::new(vec![workspace(1, "firework", true)], vec![]);
    let mut reconciler = Reconciler::new(RuntimeState::default(), niri.state.snapshot());
    reconciler.run(config(vec![("notes", vec![vec![spec("obsidian", 100, false)]])]));

    let error = drive(&mut reconciler, &mut niri).unwrap_err();

    assert_eq!(error, NiriAutostartError::MissingWorkspace("notes".to_string()));
    assert!(niri.actions.is_empty());
}

#[test]
fn fails_on_a_column_without_windows() {
    let mut niri = Niri::new(vec![workspace(1, "firework", true)], vec![]);
    let mut reconciler = Reconciler::new(RuntimeState::default(), niri.state.snapshot());
    reconciler.run(config(vec![("firework", vec![vec![]])]));

    let error = drive(&mut reconciler, &mut niri).unwrap_err();

    assert_eq!(error, NiriAutostartError::Validation("column without windows".to_string()));
}

#[test]
fn a_reconciler_without_a_run_is_done() {
    let mut reconciler = Reconciler::new(RuntimeState::default(), ActualState::default());
    assert!(matches!(reconciler.next_command(), Command::Done));
}

#[test]
fn finds_windows_by_memory_then_by_unique_app_id() {
    let mut state = ActualState::default();
    state.replace_workspaces(vec![workspace(1, "code", true)]);
    state.replace_windows(vec![window(42, "kitty", 1, 1, 1), window(43, "kitty", 1, 2, 1)]);
    let kitty = spec("kitty", 100, false);
    let key = WindowKey::new("code", 1, 1);
    let unique = config(vec![("code", vec![vec![kitty.clone()]])]);
    let shared = config(vec![("code", vec![vec![kitty.clone()], vec![kitty.clone()]])]);

    assert!(app_id_unique(&unique, &"kitty".to_string()));
    assert!(!app_id_unique(&shared, &"kitty".to_string()));

    let empty = RuntimeState::default();
    assert_eq!(window_id_by_spec(&unique, &empty, &state, &key, &kitty, "code"), WindowMatch::Adopted(43));
    assert_eq!(window_id_by_spec(&shared, &empty, &state, &key, &kitty, "code"), WindowMatch::Absent);

    let mut remembered = RuntimeState::default();
    remembered.record(&key, &kitty, &window(42, "kitty", 1, 1, 1));
    assert_eq!(window_id_by_spec(&shared, &remembered, &state, &key, &kitty, "code"), WindowMatch::Remembered(42));
}

#[test]
fn picks_the_spawned_window() {
    let mut state = ActualState::default();
    let mut floating = window(7, "kitty", 1, 1, 1);
    floating.is_floating = true;
    state.replace_windows(vec![window(3, "kitty", 1, 1, 1), floating, window(5, "kitty", 1, 2, 1), window(9, "zen", 1, 3, 1)]);
    let kitty = spec("kitty", 100, false);
    assert_eq!(spawned_window_id_in_state(&state, &vec![3], &kitty), Some(5));
    assert_eq!(spawned_window_id_in_state(&state, &vec![3, 5], &kitty), Some(7));
    assert_eq!(spawned_window_id_in_state(&state, &vec![3, 5, 7], &kitty), None);
}

#[test]
fn labels_and_descriptions() {
    let key = WindowKey::new("firework", 1, 2);
    let label = label_of(&key, &spec("fw-tty-clock", 207, false));
    assert_eq!(label, "fw-tty-clock at firework:1:2");
    assert_eq!(
        describe(&Condition::WindowInRow { window_id: 2, row: 3, down: true }, &label),
        "window \"fw-tty-clock at firework:1:2\" to move down to row 3"
    );
    assert_eq!(
        describe(&Condition::WindowHeight { window_id: 2, height: -5 }, &label),
        "window \"fw-tty-clock at firework:1:2\" height to become -5"
    );
    assert_eq!(
        describe(&Condition::WorkspaceActive { workspace: "firework".to_string() }, &label),
        "workspace \"firework\" to become active"
    );
    assert_eq!(
        describe(&Condition::FirstWindowFocused { window_id: 2, workspace: "firework".to_string() }, &label),
        "workspace \"firework\" first window \"fw-tty-clock at firework:1:2\" to become focused"
    );
    assert_eq!(describe_quiet(&None), "event stream to settle before final focus");
    assert_eq!(describe_quiet(&Some("firework".to_string())), "workspace \"firework\" to settle before final focus");
}

#[test]
fn moves_a_window_up_to_its_row() {
    let other = window(1, "fw-other", 1, 1, 1);
    let mut clock = window(2, "fw-tty-clock", 1, 1, 2);
    clock.is_focused = true;
    let mut niri = Niri::new(vec![workspace(1, "firework", true)], vec![other, clock]);
    let mut reconciler = Reconciler::new(RuntimeState::default(), niri.state.snapshot());
    reconciler.run(config(vec![("firework", vec![vec![spec("fw-tty-clock", 207, false)]])]));

    drive(&mut reconciler, &mut niri).unwrap();

    assert!(niri.actions.contains(&NiriAction::MoveWindowUp));
    assert!(!niri.actions.contains(&NiriAction::MoveWindowDown));
    assert_eq!(niri.state.window_position_by_id(2), Some((1, 1)));
}

#[test]
fn validated_configs_have_unique_app_ids() {
    let size = RawSizeSpec { fixed: Some(100), proportion: None };
    let raw_window = |app: &str| RawWindowSpec {
        app_id: app.to_string(),
        command: Some(vec![app.to_string()]),
        height: size,
        floating: false,
    };
    let config = Config::from_document(vec![RawAutostartConfig {
        workspaces: vec![
            RawWorkspaceSpec {
                name: "one".to_string(),
                columns: vec![RawColumnSpec { width: size, windows: vec![raw_window("a"), raw_window("b")] }],
            },
            RawWorkspaceSpec {
                name: "two".to_string(),
                columns: vec![RawColumnSpec { width: size, windows: vec![raw_window("c")] }],
            },
        ],
    }])
    .unwrap();
    for app in ["a", "b", "c"] {
        assert!(app_id_unique(&config, &app.to_string()));
    }
    assert!(!app_id_unique(&config, &"d".to_string()));
    assert!(niri_autostart::reconcile::fits(&config));
}
