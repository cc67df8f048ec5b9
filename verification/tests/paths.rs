use niri_autostart::error::NiriAutostartError;
use niri_autostart::paths::{
    config_path_from, private_dir_outcome, runtime_state_path_from, CreateDirOutcome, RuntimeStatePlan,
};

#[test]
fn config_uses_absolute_xdg_config_home() {
    let path = config_path_from(Some("/custom/config"), Some("/home/test")).unwrap();

    assert_eq!(path, "/custom/config/niri-autostart/config.kdl");
}

#[test]
fn config_ignores_relative_xdg_config_home() {
    let path = config_path_from(Some("relative/config"), Some("/home/test")).unwrap();

    assert_eq!(path, "/home/test/.config/niri-autostart/config.kdl");
}

#[test]
fn config_requires_an_absolute_base() {
    let error = config_path_from(Some("relative"), None).unwrap_err();

    assert!(matches!(error, NiriAutostartError::MissingDefaultConfigBase));
}

#[test]
fn runtime_uses_a_secure_absolute_xdg_runtime_dir() {
    let plan = runtime_state_path_from(
        Some("/run/user/1000/xdg"),
        true,
        &"/missing-system-fallback".to_string(),
        false,
        &"/unused-private-fallback".to_string(),
    );

    assert_eq!(plan, RuntimeStatePlan::Xdg { path: "/run/user/1000/xdg/niri-autostart/windows.json".to_string() });
}

#[test]
fn runtime_ignores_a_relative_xdg_runtime_dir() {
    let plan = runtime_state_path_from(
        Some("relative/runtime"),
        true,
        &"/tmp/system-fallback".to_string(),
        true,
        &"/unused-private-fallback".to_string(),
    );

    assert_eq!(plan, RuntimeStatePlan::System { path: "/tmp/system-fallback/niri-autostart/windows.json".to_string() });
}

#[test]
fn runtime_creates_a_private_last_resort_fallback() {
    let plan = runtime_state_path_from(
        None,
        false,
        &"/missing-system-fallback".to_string(),
        false,
        &"/tmp/private-fallback".to_string(),
    );

    assert_eq!(
        plan,
        RuntimeStatePlan::Private {
            dir: "/tmp/private-fallback".to_string(),
            path: "/tmp/private-fallback/windows.json".to_string(),
        }
    );
    assert_eq!(private_dir_outcome(&"/tmp/private-fallback".to_string(), CreateDirOutcome::Created, true), Ok(()));
}

#[test]
fn insecure_or_failed_runtime_directories_are_refused() {
    let dir = "/tmp/private-fallback".to_string();
    assert_eq!(private_dir_outcome(&dir, CreateDirOutcome::AlreadyExists, true), Ok(()));
    assert_eq!(
        private_dir_outcome(&dir, CreateDirOutcome::AlreadyExists, false),
        Err(NiriAutostartError::InsecureRuntimeDirectory { path: dir.clone() })
    );
    assert_eq!(
        private_dir_outcome(&dir, CreateDirOutcome::Failed("denied".to_string()), true),
        Err(NiriAutostartError::RuntimeStateWrite { path: dir.clone(), source: "denied".to_string() })
    );
    let insecure_xdg = runtime_state_path_from(
        Some("/run/user/1000"),
        false,
        &"/run/user/1000".to_string(),
        true,
        &"/tmp/x".to_string(),
    );
    assert_eq!(insecure_xdg, RuntimeStatePlan::System { path: "/run/user/1000/niri-autostart/windows.json".to_string() });
}

#[test]
fn trailing_slashes_join_cleanly() {
    assert_eq!(config_path_from(Some("/custom/"), None).unwrap(), "/custom/niri-autostart/config.kdl");
    assert_eq!(config_path_from(Some(""), Some("/home/test")).unwrap(), "/home/test/.config/niri-autostart/config.kdl");
}
