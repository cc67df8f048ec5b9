use niri_autostart::event_adapter::{
    event_affects_reconciliation, f64_bits_equal, plan_wait_for, plan_wait_for_stable, plan_wait_until_quiet, resume_wait_for,
    resume_wait_for_stable, resume_wait_until_quiet, EventAdapterState, EventMessage, WaitPlan, WaitResume,
    HISTORY_LIMIT,
};
use niri_autostart::model::{Event, Timestamp, Window, WindowLayout, Workspace};
use niri_autostart::state::ActualState;

fn window() -> Window {
    Window {
        id: 1,
        title: Some("spinner 1".to_string()),
        app_id: Some("kitty".to_string()),
        pid: Some(1),
        workspace_id: Some(1),
        is_focused: true,
        is_floating: false,
        is_urgent: false,
        layout: WindowLayout {
            pos_in_scrolling_layout: Some((1, 1)),
            tile_size: (100.0f64.to_bits(), 100.0f64.to_bits()),
            window_size: (100, 100),
            tile_pos_in_workspace_view: None,
            window_offset_in_tile: (0.0f64.to_bits(), 0.0f64.to_bits()),
        },
        focus_timestamp: Some(Timestamp { secs: 0, nanos: 0 }),
    }
}

fn state() -> ActualState {
    let mut state = ActualState::default();
    state.replace_windows(vec![window()]);
    state
}

fn workspace() -> Workspace {
    Workspace {
        id: 1,
        idx: 1,
        name: Some("firework".to_string()),
        output: Some("HDMI-A-1".to_string()),
        is_urgent: false,
        is_active: true,
        is_focused: true,
        active_window_id: None,
    }
}

#[test]
fn ignores_title_only_window_updates() {
    let state = state();
    let mut changed = window();
    changed.title = Some("spinner 2".to_string());

    assert!(!event_affects_reconciliation(&state, &Event::WindowOpenedOrChanged { window: changed }));
}

#[test]
fn observes_window_layout_updates() {
    let state = state();
    let mut layout = window().layout;
    layout.tile_size = (200.0f64.to_bits(), 100.0f64.to_bits());

    assert!(event_affects_reconciliation(&state, &Event::WindowLayoutsChanged { changes: vec![(1, layout)] }));
}

#[test]
fn relevant_and_irrelevant_events() {
    let state = state();
    let same_layout = window().layout;
    assert!(!event_affects_reconciliation(&state, &Event::WindowLayoutsChanged { changes: vec![(1, same_layout)] }));
    assert!(!event_affects_reconciliation(&state, &Event::WindowLayoutsChanged { changes: vec![(7, same_layout)] }));
    assert!(event_affects_reconciliation(&state, &Event::WindowClosed { id: 1 }));
    assert!(event_affects_reconciliation(&state, &Event::WindowsChanged { windows: vec![] }));
    assert!(!event_affects_reconciliation(&state, &Event::WindowUrgencyChanged { id: 1, urgent: true }));
    assert!(!event_affects_reconciliation(&state, &Event::Other));
    let mut moved = window();
    moved.workspace_id = Some(2);
    assert!(event_affects_reconciliation(&state, &Event::WindowOpenedOrChanged { window: moved }));
}

#[test]
fn bootstrap_collects_initial_state() {
    let mut adapter = EventAdapterState::new();
    assert!(!adapter.initial_state_seen());
    let woke = adapter.apply_message(EventMessage::Event(Event::WorkspacesChanged { workspaces: vec![workspace()] }));
    assert!(woke);
    assert!(!adapter.initial_state_seen());
    let mut fastfetch = window();
    fastfetch.app_id = Some("fw-fastfetch".to_string());
    let woke = adapter.apply_message(EventMessage::Event(Event::WindowsChanged { windows: vec![fastfetch] }));
    assert!(woke);
    assert!(adapter.initial_state_seen());

    assert_eq!(adapter.state.workspace_id_by_name("firework"), Some(1));
    assert_eq!(adapter.state.first_window_id_by_app_id("fw-fastfetch"), Some(1));
}

#[test]
fn bootstrap_times_out_when_stream_never_delivers_state() {
    // The initial-state wait is a wait for a condition; with no time left it times out.
    assert_eq!(plan_wait_for(false, &None, None), WaitPlan::TimedOut);
    assert_eq!(resume_wait_for(true, false), WaitResume::TimedOut);
}

#[test]
fn sequence_counts_relevant_events_and_history_is_bounded() {
    let mut adapter = EventAdapterState::new();
    adapter.apply_message(EventMessage::Event(Event::WindowsChanged { windows: vec![window()] }));
    assert_eq!(adapter.seq, 1);
    let woke = adapter.apply_message(EventMessage::Event(Event::WindowUrgencyChanged { id: 1, urgent: true }));
    assert!(!woke);
    assert_eq!(adapter.seq, 1);
    assert!(adapter.state.windows[&1].is_urgent);
    for _ in 0..(HISTORY_LIMIT + 10) {
        adapter.apply_message(EventMessage::Event(Event::Other));
    }
    assert_eq!(adapter.history.len(), HISTORY_LIMIT);
    let woke = adapter.apply_message(EventMessage::Closed("gone".to_string()));
    assert!(woke);
    assert_eq!(adapter.closed, Some("gone".to_string()));
}

#[test]
fn wait_plans() {
    assert_eq!(plan_wait_for(true, &Some("x".to_string()), None), WaitPlan::Done);
    assert_eq!(plan_wait_for(false, &Some("x".to_string()), Some(5)), WaitPlan::Closed("x".to_string()));
    assert_eq!(plan_wait_for(false, &None, Some(5)), WaitPlan::Sleep { nanos: 5, watch: None });
    assert_eq!(resume_wait_for(true, true), WaitResume::Continue);
    assert_eq!(plan_wait_for_stable(true, &None, Some(1000), 150, 7), WaitPlan::Sleep { nanos: 150, watch: Some(7) });
    assert_eq!(plan_wait_for_stable(true, &None, Some(100), 150, 7), WaitPlan::Sleep { nanos: 100, watch: Some(7) });
    assert_eq!(plan_wait_for_stable(false, &None, Some(100), 150, 7), WaitPlan::Sleep { nanos: 100, watch: None });
    assert_eq!(resume_wait_for_stable(true, Some(7), 150, 150, 7, true), WaitResume::Done);
    assert_eq!(resume_wait_for_stable(true, Some(7), 100, 150, 7, true), WaitResume::TimedOut);
    assert_eq!(resume_wait_for_stable(true, Some(7), 150, 150, 8, true), WaitResume::Continue);
    assert_eq!(plan_wait_until_quiet(&None, None, 150, 3), WaitPlan::TimedOut);
    assert_eq!(plan_wait_until_quiet(&None, Some(40), 150, 3), WaitPlan::Sleep { nanos: 40, watch: Some(3) });
    assert_eq!(resume_wait_until_quiet(true, 3, 150, 150, 3), WaitResume::Done);
    assert_eq!(resume_wait_until_quiet(false, 3, 150, 150, 3), WaitResume::Continue);
}

#[test]
fn ignored_events_leave_what_the_reconciler_reads() {
    let mut adapter = EventAdapterState::new();
    adapter.apply_message(EventMessage::Event(Event::WorkspacesChanged { workspaces: vec![workspace()] }));
    adapter.apply_message(EventMessage::Event(Event::WindowsChanged { windows: vec![window()] }));
    let seq = adapter.seq;

    let mut retitled = window();
    retitled.title = Some("spinner 2".to_string());
    let mut resized = window().layout;
    resized.window_size = (90, 90);
    let ignored = vec![
        Event::WindowOpenedOrChanged { window: retitled },
        Event::WindowUrgencyChanged { id: 1, urgent: true },
        Event::WindowLayoutsChanged { changes: vec![(1, resized)] },
        Event::WindowClosed { id: 9 },
        Event::WorkspacesChanged { workspaces: vec![workspace()] },
        Event::ConfigLoaded { failed: false },
    ];
    for event in ignored {
        let woke = adapter.apply_message(EventMessage::Event(event));
        assert!(!woke);
    }

    assert_eq!(adapter.seq, seq);
    let w = &adapter.state.windows[&1];
    assert_eq!(w.app_id.as_deref(), Some("kitty"));
    assert_eq!(w.layout.pos_in_scrolling_layout, Some((1, 1)));
    assert_eq!(w.layout.tile_size, (100.0f64.to_bits(), 100.0f64.to_bits()));
    assert!(w.is_focused);
    assert_eq!(w.title.as_deref(), Some("spinner 2"));
    assert_eq!(w.layout.window_size, (90, 90));
    assert_eq!(adapter.state.workspace_id_by_name("firework"), Some(1));
}

#[test]
fn tile_sizes_compare_as_floats() {
    assert!(f64_bits_equal(0.0f64.to_bits(), (-0.0f64).to_bits()));
    assert!(f64_bits_equal(633.0f64.to_bits(), 633.0f64.to_bits()));
    assert!(!f64_bits_equal(f64::NAN.to_bits(), f64::NAN.to_bits()));
    assert!(!f64_bits_equal(1.0f64.to_bits(), 2.0f64.to_bits()));
    assert!(f64_bits_equal(f64::INFINITY.to_bits(), f64::INFINITY.to_bits()));

    let mut state = ActualState::default();
    let mut zero = window();
    zero.layout.tile_size = (0.0f64.to_bits(), 100.0f64.to_bits());
    state.replace_windows(vec![zero]);
    let mut negative_zero = window().layout;
    negative_zero.tile_size = ((-0.0f64).to_bits(), 100.0f64.to_bits());
    assert!(!event_affects_reconciliation(&state, &Event::WindowLayoutsChanged { changes: vec![(1, negative_zero)] }));

    let mut nan = window();
    nan.layout.tile_size = (f64::NAN.to_bits(), 100.0f64.to_bits());
    let mut nan_state = ActualState::default();
    nan_state.replace_windows(vec![nan.clone()]);
    assert!(event_affects_reconciliation(&nan_state, &Event::WindowLayoutsChanged { changes: vec![(1, nan.layout)] }));
    assert!(event_affects_reconciliation(&nan_state, &Event::WindowOpenedOrChanged { window: nan }));
}
