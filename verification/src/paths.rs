//! Where the config and the runtime state live, chosen from the environment.
//!
//! Paths are Unix paths held as strings: a path is absolute when it starts with `/`, and
//! joining a relative component appends it after a `/` unless the base already ends
//! with one.
use vstd::prelude::*;

use crate::error::NiriAutostartError;

verus! {

/// The application's directory name.
pub const APP_DIR: &'static str = "niri-autostart";
/// The config file's name.
pub const CONFIG_FILE: &'static str = "config.kdl";
/// The runtime state file's name.
pub const RUNTIME_STATE_FILE: &'static str = "windows.json";

/// A Unix path is absolute when it starts at the root.
pub open spec fn is_absolute(p: Seq<char>) -> bool {
    p.len() > 0 && p[0] == '/'
}

/// `base` joined with the relative component `component`.
pub open spec fn join_path(base: Seq<char>, component: Seq<char>) -> Seq<char> {
    if base.len() > 0 && base.last() == '/' {
        base + component
    } else {
        base + "/"@ + component
    }
}

/// Whether a path is absolute.
pub fn path_is_absolute(p: &str) -> (r: bool)
    ensures
        r == is_absolute(p@),
{
    if p.unicode_len() == 0 {
        return false;
    }
    let first = p.get_char(0);
    first == '/'
}

/// Joins a relative component onto a base path.
pub fn join(base: &String, component: &str) -> (r: String)
    ensures
        r@ == join_path(base@, component@),
{
    let mut r = base.clone();
    let n = base.as_str().unicode_len();
    let ends_with_separator = n > 0 && base.as_str().get_char(n - 1) == '/';
    if !ends_with_separator {
        r.append("/");
    }
    r.append(component);
    r
}

/// The value, when it is set and is an absolute path.
pub fn absolute_path(value: Option<&str>) -> (r: Option<String>)
    ensures
        match value {
            Some(v) => if is_absolute(v@) { r matches Some(p) && p@ == v@ } else { r is None },
            None => r is None,
        },
{
    match value {
        Some(v) => {
            if path_is_absolute(v) {
                Some(v.to_string())
            } else {
                None
            }
        },
        None => None,
    }
}

/// The default config path: under an absolute `XDG_CONFIG_HOME`, or else under an
/// absolute `HOME` (in `.config`); `None` when neither is set and absolute.
pub open spec fn default_config_path(xdg_config_home: Option<Seq<char>>, home: Option<Seq<char>>) -> Option<Seq<char>> {
    match (xdg_config_home, home) {
        (Some(x), _) if is_absolute(x) => Some(join_path(join_path(x, APP_DIR@), CONFIG_FILE@)),
        (_, Some(h)) if is_absolute(h) => Some(join_path(join_path(join_path(h, ".config"@), APP_DIR@), CONFIG_FILE@)),
        _ => None,
    }
}

/// The optional text's characters.
pub open spec fn opt_view(s: Option<&str>) -> Option<Seq<char>> {
    match s {
        Some(x) => Some(x@),
        None => None,
    }
}

/// The config path under an absolute `XDG_CONFIG_HOME`, or else under an absolute
/// `HOME` (in `.config`); neither is an error.
pub fn config_path_from(xdg_config_home: Option<&str>, home: Option<&str>) -> (r: Result<String, NiriAutostartError>)
    ensures
        match default_config_path(opt_view(xdg_config_home), opt_view(home)) {
            Some(path) => r matches Ok(p) && p@ == path,
            None => r == Err::<String, NiriAutostartError>(NiriAutostartError::MissingDefaultConfigBase),
        },
{
    match absolute_path(xdg_config_home) {
        Some(base) => {
            let app_dir = join(&base, APP_DIR);
            return Ok(join(&app_dir, CONFIG_FILE));
        },
        None => {},
    }
    match absolute_path(home) {
        Some(base) => {
            let dot_config = join(&base, ".config");
            let app_dir = join(&dot_config, APP_DIR);
            Ok(join(&app_dir, CONFIG_FILE))
        },
        None => Err(NiriAutostartError::MissingDefaultConfigBase),
    }
}

/// Where to keep the runtime state.
#[derive(Debug, PartialEq, Eq)]
pub enum RuntimeStatePlan {
    /// Under `XDG_RUNTIME_DIR`.
    Xdg { path: String },
    /// Under the system's per-user runtime directory.
    System { path: String },
    /// Under the private last-resort directory `dir`, which must first be made sure to
    /// exist, be owned by the user and have mode 0700.
    Private { dir: String, path: String },
}

/// Chooses where the runtime state lives: under `XDG_RUNTIME_DIR` when it is absolute
/// and a private directory of the user (`xdg_is_private`), else under the system
/// fallback when that is private (`system_is_private`), else in the private fallback.
pub fn runtime_state_path_from(
    xdg_runtime_dir: Option<&str>,
    xdg_is_private: bool,
    system_fallback: &String,
    system_is_private: bool,
    private_fallback: &String,
) -> (r: RuntimeStatePlan)
    ensures
        match xdg_runtime_dir {
            Some(x) if is_absolute(x@) && xdg_is_private => r matches RuntimeStatePlan::Xdg { path }
                && path@ == join_path(join_path(x@, APP_DIR@), RUNTIME_STATE_FILE@),
            _ => if system_is_private {
                r matches RuntimeStatePlan::System { path }
                    && path@ == join_path(join_path(system_fallback@, APP_DIR@), RUNTIME_STATE_FILE@)
            } else {
                r matches RuntimeStatePlan::Private { dir, path } && dir@ == private_fallback@
                    && path@ == join_path(private_fallback@, RUNTIME_STATE_FILE@)
            },
        },
{
    match absolute_path(xdg_runtime_dir) {
        Some(base) => {
            if xdg_is_private {
                let app_dir = join(&base, APP_DIR);
                return RuntimeStatePlan::Xdg { path: join(&app_dir, RUNTIME_STATE_FILE) };
            }
        },
        None => {},
    }
    if system_is_private {
        let app_dir = join(system_fallback, APP_DIR);
        RuntimeStatePlan::System { path: join(&app_dir, RUNTIME_STATE_FILE) }
    } else {
        RuntimeStatePlan::Private { dir: private_fallback.clone(), path: join(private_fallback, RUNTIME_STATE_FILE) }
    }
}

/// How creating a directory went.
#[derive(Debug, PartialEq, Eq)]
pub enum CreateDirOutcome {
    Created,
    AlreadyExists,
    Failed(String),
}

/// Whether a private runtime directory is usable after trying to create it: a failure
/// other than "already exists" is a write error, and a directory that is not private
/// afterwards is refused as insecure.
pub fn private_dir_outcome(path: &String, created: CreateDirOutcome, is_private: bool) -> (r: Result<(), NiriAutostartError>)
    ensures
        match created {
            CreateDirOutcome::Failed(source) => r == Err::<(), NiriAutostartError>(
                NiriAutostartError::RuntimeStateWrite { path: *path, source: source },
            ),
            _ => if is_private {
                r is Ok
            } else {
                r == Err::<(), NiriAutostartError>(NiriAutostartError::InsecureRuntimeDirectory { path: *path })
            },
        },
{
    match created {
        CreateDirOutcome::Failed(source) => Err(NiriAutostartError::RuntimeStateWrite { path: path.clone(), source }),
        _ => {
            if is_private {
                Ok(())
            } else {
                Err(NiriAutostartError::InsecureRuntimeDirectory { path: path.clone() })
            }
        },
    }
}

} // verus!
