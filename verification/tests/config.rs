use niri_autostart::config::{
    Cli, Config, RawAutostartConfig, RawColumnSpec, RawSizeSpec, RawWindowSpec, RawWorkspaceSpec, SizeSpec,
};
use niri_autostart::error::NiriAutostartError;

fn fixed(value: i32) -> RawSizeSpec {
    RawSizeSpec { fixed: Some(value), proportion: None }
}

fn raw_window(app_id: &str, command: Option<Vec<&str>>, height: RawSizeSpec) -> RawWindowSpec {
    RawWindowSpec {
        app_id: app_id.to_string(),
        command: command.map(|c| c.into_iter().map(String::from).collect()),
        height,
        floating: false,
    }
}

fn document(columns: Vec<RawColumnSpec>) -> Vec<RawAutostartConfig> {
    vec![RawAutostartConfig {
        workspaces: vec![RawWorkspaceSpec { name: "firework".to_string(), columns }],
    }]
}

fn validation_message(result: Result<Config, NiriAutostartError>) -> String {
    match result {
        Err(NiriAutostartError::Validation(message)) => message,
        other => panic!("expected a validation error, got {:?}", other),
    }
}

#[test]
fn parses_minimal_valid_config() {
    let config = Config::from_document(document(vec![RawColumnSpec {
        width: fixed(640),
        windows: vec![raw_window(
            "fw-fastfetch",
            Some(vec!["terminal", "--class", "fw-fastfetch", "-e", "fastfetch"]),
            fixed(284),
        )],
    }]))
    .unwrap();

    assert_eq!(config.workspaces.len(), 1);
    assert_eq!(config.workspaces[0].columns[0].windows[0].app_id, "fw-fastfetch");
}

#[test]
fn rejects_duplicate_app_ids() {
    let err = validation_message(Config::from_document(document(vec![
        RawColumnSpec { width: fixed(640), windows: vec![raw_window("dup", Some(vec!["a"]), fixed(1))] },
        RawColumnSpec { width: fixed(640), windows: vec![raw_window("dup", Some(vec!["b"]), fixed(1))] },
    ])));

    assert!(err.contains("duplicate app-id"));
}

#[test]
fn rejects_missing_command() {
    let err = validation_message(Config::from_document(document(vec![RawColumnSpec {
        width: fixed(640),
        windows: vec![raw_window("fw-fastfetch", None, fixed(284))],
    }])));

    assert!(err.contains("non-empty command"));
}

#[test]
fn rejects_invalid_width_or_height_nodes() {
    let err = validation_message(Config::from_document(document(vec![RawColumnSpec {
        width: RawSizeSpec { fixed: Some(640), proportion: Some(0.5f64.to_bits()) },
        windows: vec![raw_window("fw-fastfetch", Some(vec!["terminal"]), fixed(284))],
    }])));

    assert!(err.contains("exactly one"));
}

#[test]
fn error_messages_name_the_offending_item() {
    let duplicate = validation_message(Config::from_document(document(vec![
        RawColumnSpec { width: fixed(640), windows: vec![raw_window("dup", Some(vec!["a"]), fixed(1))] },
        RawColumnSpec { width: fixed(640), windows: vec![raw_window("dup", Some(vec!["b"]), fixed(1))] },
    ])));
    assert_eq!(duplicate, "duplicate app-id \"dup\" in config");

    let missing = validation_message(Config::from_document(document(vec![RawColumnSpec {
        width: fixed(640),
        windows: vec![raw_window("fw-fastfetch", Some(vec![]), fixed(284))],
    }])));
    assert_eq!(missing, "window \"fw-fastfetch\" must have a non-empty command");

    let empty_column = validation_message(Config::from_document(document(vec![RawColumnSpec {
        width: fixed(640),
        windows: vec![],
    }])));
    assert_eq!(empty_column, "workspace \"firework\" contains a column without windows");

    let no_columns = validation_message(Config::from_document(document(vec![])));
    assert_eq!(no_columns, "workspace \"firework\" must contain at least one column");
}

#[test]
fn document_needs_exactly_one_autostart_node() {
    let none = validation_message(Config::from_document(vec![]));
    assert_eq!(none, "expected a single top-level `autostart` node");

    let two = validation_message(Config::from_document(vec![
        RawAutostartConfig { workspaces: vec![] },
        RawAutostartConfig { workspaces: vec![] },
    ]));
    assert_eq!(two, "duplicate top-level `autostart` nodes are not allowed");

    let empty = validation_message(Config::from_document(vec![RawAutostartConfig { workspaces: vec![] }]));
    assert_eq!(empty, "at least one `workspace` node is required");
}

#[test]
fn size_nodes_become_size_specs() {
    assert_eq!(fixed(640).into_size_spec("width"), Ok(SizeSpec::Fixed(640)));
    let half = RawSizeSpec { fixed: None, proportion: Some(0.5f64.to_bits()) };
    assert_eq!(half.into_size_spec("height"), Ok(SizeSpec::Proportion(0.5f64.to_bits())));
    let neither = RawSizeSpec { fixed: None, proportion: None };
    assert_eq!(
        neither.into_size_spec("height"),
        Err(NiriAutostartError::Validation("height must contain one of `fixed` or `proportion`".to_string()))
    );
    let both = RawSizeSpec { fixed: Some(1), proportion: Some(0.5f64.to_bits()) };
    assert_eq!(
        both.into_size_spec("width"),
        Err(NiriAutostartError::Validation("width must contain exactly one of `fixed` or `proportion`".to_string()))
    );
}

#[test]
fn floating_flag_and_command_are_kept() {
    let mut window = raw_window("scratchpad", Some(vec!["kitty", "--class", "scratchpad", "-1"]), fixed(100));
    window.floating = true;
    let config = Config::from_document(document(vec![RawColumnSpec { width: fixed(720), windows: vec![window] }]))
        .unwrap();
    let spec = &config.workspaces[0].columns[0].windows[0];
    assert!(spec.floating);
    assert_eq!(spec.command, vec!["kitty", "--class", "scratchpad", "-1"]);
    assert_eq!(spec.height, SizeSpec::Fixed(100));
    assert_eq!(config.workspaces[0].columns[0].width, SizeSpec::Fixed(720));
}

#[test]
fn explicit_config_path_wins() {
    let cli = Cli { config: Some("/etc/layout.kdl".to_string()), state: None };
    assert_eq!(
        niri_autostart::config::resolve_config_path(&cli, Some("/custom/config"), Some("/home/test")),
        Ok("/etc/layout.kdl".to_string())
    );
    let cli = Cli { config: None, state: Some("/tmp/state.json".to_string()) };
    assert_eq!(
        niri_autostart::config::resolve_config_path(&cli, None, Some("/home/test")),
        Ok("/home/test/.config/niri-autostart/config.kdl".to_string())
    );
    assert_eq!(
        niri_autostart::config::resolve_config_path(&cli, None, None),
        Err(NiriAutostartError::MissingDefaultConfigBase)
    );
}
