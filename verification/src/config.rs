//! The declared layout: workspaces, their columns and the windows stacked in each column.
//!
//! The KDL document is decoded elsewhere into the `Raw*` records; this module turns them
//! into a `Config` and validates it. A proportion is carried as the bit pattern of its
//! `f64` value.
use vstd::hash_set::StringHashSet;
use vstd::prelude::*;

use crate::error::NiriAutostartError;
use crate::text::{debug_quoted, quote_debug, text, text3};
use crate::paths::{config_path_from, default_config_path, opt_view};

verus! {

/// Command-line arguments: an optional explicit config path (`--config`) and runtime
/// state path (`--state`).
#[derive(Debug, Clone, PartialEq)]
pub struct Cli {
    pub config: Option<String>,
    pub state: Option<String>,
}

/// A width or height: a fixed number of logical pixels, or a proportion of the output
/// (the bit pattern of the `f64` fraction written in the config, such as 0.5).
#[derive(Debug, Clone, Copy, PartialEq, Eq, Structural)]
pub enum SizeSpec {
    Fixed(i32),
    Proportion(u64),
}

/// The declared layout.
#[derive(Debug, Clone, PartialEq)]
pub struct Config {
    pub workspaces: Vec<WorkspaceSpec>,
}

/// A named workspace and its columns, left to right.
#[derive(Debug, Clone, PartialEq)]
pub struct WorkspaceSpec {
    pub name: String,
    pub columns: Vec<ColumnSpec>,
}

/// A column's width and its windows, top to bottom.
#[derive(Debug, Clone, PartialEq)]
pub struct ColumnSpec {
    pub width: SizeSpec,
    pub windows: Vec<WindowSpec>,
}

/// A window: matched by exact application id, started by `command`.
#[derive(Debug, Clone, PartialEq)]
pub struct WindowSpec {
    pub app_id: String,
    pub command: Vec<String>,
    pub height: SizeSpec,
    pub floating: bool,
}

/// The `autostart` node as decoded from KDL.
#[derive(Debug, Clone, PartialEq)]
pub struct RawAutostartConfig {
    pub workspaces: Vec<RawWorkspaceSpec>,
}

/// A `workspace` node as decoded from KDL.
#[derive(Debug, Clone, PartialEq)]
pub struct RawWorkspaceSpec {
    pub name: String,
    pub columns: Vec<RawColumnSpec>,
}

/// A `column` node as decoded from KDL.
#[derive(Debug, Clone, PartialEq)]
pub struct RawColumnSpec {
    pub width: RawSizeSpec,
    pub windows: Vec<RawWindowSpec>,
}

/// A `window` node as decoded from KDL.
#[derive(Debug, Clone, PartialEq)]
pub struct RawWindowSpec {
    pub app_id: String,
    pub command: Option<Vec<String>>,
    pub height: RawSizeSpec,
    pub floating: bool,
}

/// A `width` or `height` node as decoded from KDL: its optional `fixed` and
/// `proportion` children (the latter as an `f64` bit pattern).
#[derive(Debug, Clone, Copy, PartialEq, Eq)]
pub struct RawSizeSpec {
    pub fixed: Option<i32>,
    pub proportion: Option<u64>,
}

// ---------------------------------------------------------------------------------
// Sizes
// ---------------------------------------------------------------------------------

/// Why a size node named `field` is refused, if it is.
pub open spec fn size_failure(raw: RawSizeSpec, field: Seq<char>) -> Option<Seq<char>> {
    match (raw.fixed, raw.proportion) {
        (Some(_), Some(_)) => Some(field + " must contain exactly one of `fixed` or `proportion`"@),
        (None, None) => Some(field + " must contain one of `fixed` or `proportion`"@),
        _ => None,
    }
}

/// The size that an accepted size node denotes.
pub open spec fn size_of_raw(raw: RawSizeSpec) -> SizeSpec {
    match raw.fixed {
        Some(v) => SizeSpec::Fixed(v),
        None => SizeSpec::Proportion(raw.proportion->0),
    }
}

/// `r` is the validation error with message `m`.
pub open spec fn is_validation(r: NiriAutostartError, m: Seq<char>) -> bool {
    r matches NiriAutostartError::Validation(e) && e@ == m
}

impl RawSizeSpec {
    /// A size node must hold exactly one of `fixed` and `proportion`.
    pub fn into_size_spec(self, field: &str) -> (r: Result<SizeSpec, NiriAutostartError>)
        ensures
            match size_failure(self, field@) {
                Some(m) => r matches Err(e) && is_validation(e, m),
                None => r == Ok::<SizeSpec, NiriAutostartError>(size_of_raw(self)),
            },
    {
        match (self.fixed, self.proportion) {
            (Some(value), None) => Ok(SizeSpec::Fixed(value)),
            (None, Some(value)) => Ok(SizeSpec::Proportion(value)),
            (Some(_), Some(_)) => {
                let mut m = String::new();
                m.append(field);
                m.append(" must contain exactly one of `fixed` or `proportion`");
                Err(NiriAutostartError::Validation(m))
            },
            (None, None) => {
                let mut m = String::new();
                m.append(field);
                m.append(" must contain one of `fixed` or `proportion`");
                Err(NiriAutostartError::Validation(m))
            },
        }
    }
}

// ---------------------------------------------------------------------------------
// From decoded nodes to the config
// ---------------------------------------------------------------------------------

/// The command a window node declares (none declared reads as empty).
pub open spec fn raw_command(raw: RawWindowSpec) -> Seq<String> {
    match raw.command {
        Some(c) => c@,
        None => Seq::empty(),
    }
}

/// `w` is the window spec built from the window node `raw`.
pub open spec fn window_built_from(raw: RawWindowSpec, w: WindowSpec) -> bool {
    &&& w.app_id == raw.app_id
    &&& w.command@ == raw_command(raw)
    &&& w.height == size_of_raw(raw.height)
    &&& w.floating == raw.floating
}

/// The first refusal among the heights of a sequence of window nodes.
pub open spec fn first_height_failure(s: Seq<RawWindowSpec>) -> Option<Seq<char>>
    decreases s.len(),
{
    if s.len() == 0 {
        None
    } else {
        match size_failure(s[0].height, "height"@) {
            Some(m) => Some(m),
            None => first_height_failure(s.drop_first()),
        }
    }
}

/// Why a column node is refused: its width first, then its windows' heights in order.
pub open spec fn column_failure(raw: RawColumnSpec) -> Option<Seq<char>> {
    match size_failure(raw.width, "width"@) {
        Some(m) => Some(m),
        None => first_height_failure(raw.windows@),
    }
}

/// `c` is the column spec built from the column node `raw`.
pub open spec fn column_built_from(raw: RawColumnSpec, c: ColumnSpec) -> bool {
    &&& c.width == size_of_raw(raw.width)
    &&& c.windows@.len() == raw.windows@.len()
    &&& forall|i: int| 0 <= i < c.windows@.len() ==> #[trigger] window_built_from(raw.windows@[i], c.windows@[i])
}

/// The first refusal among a sequence of column nodes.
pub open spec fn first_column_failure(s: Seq<RawColumnSpec>) -> Option<Seq<char>>
    decreases s.len(),
{
    if s.len() == 0 {
        None
    } else {
        match column_failure(s[0]) {
            Some(m) => Some(m),
            None => first_column_failure(s.drop_first()),
        }
    }
}

/// `w` is the workspace spec built from the workspace node `raw`.
pub open spec fn workspace_built_from(raw: RawWorkspaceSpec, w: WorkspaceSpec) -> bool {
    &&& w.name == raw.name
    &&& w.columns@.len() == raw.columns@.len()
    &&& forall|i: int| 0 <= i < w.columns@.len() ==> #[trigger] column_built_from(raw.columns@[i], w.columns@[i])
}

/// The first refusal among a sequence of workspace nodes.
pub open spec fn first_workspace_failure(s: Seq<RawWorkspaceSpec>) -> Option<Seq<char>>
    decreases s.len(),
{
    if s.len() == 0 {
        None
    } else {
        match first_column_failure(s[0].columns@) {
            Some(m) => Some(m),
            None => first_workspace_failure(s.drop_first()),
        }
    }
}

/// `c` is the config built from the `autostart` node `raw`.
pub open spec fn config_built_from(raw: RawAutostartConfig, c: Config) -> bool {
    &&& c.workspaces@.len() == raw.workspaces@.len()
    &&& forall|i: int| 0 <= i < c.workspaces@.len() ==> #[trigger] workspace_built_from(raw.workspaces@[i], c.workspaces@[i])
}

proof fn lemma_height_failure_skip(s: Seq<RawWindowSpec>, i: int)
    requires
        0 <= i < s.len(),
    ensures
        first_height_failure(s.skip(i)) == match size_failure(s[i].height, "height"@) {
            Some(m) => Some(m),
            None => first_height_failure(s.skip(i + 1)),
        },
{
    assert(s.skip(i).drop_first() =~= s.skip(i + 1));
}

proof fn lemma_column_failure_skip(s: Seq<RawColumnSpec>, i: int)
    requires
        0 <= i < s.len(),
    ensures
        first_column_failure(s.skip(i)) == match column_failure(s[i]) {
            Some(m) => Some(m),
            None => first_column_failure(s.skip(i + 1)),
        },
{
    assert(s.skip(i).drop_first() =~= s.skip(i + 1));
}

proof fn lemma_workspace_failure_skip(s: Seq<RawWorkspaceSpec>, i: int)
    requires
        0 <= i < s.len(),
    ensures
        first_workspace_failure(s.skip(i)) == match first_column_failure(s[i].columns@) {
            Some(m) => Some(m),
            None => first_workspace_failure(s.skip(i + 1)),
        },
{
    assert(s.skip(i).drop_first() =~= s.skip(i + 1));
}

fn build_window(raw: &RawWindowSpec) -> (r: Result<WindowSpec, NiriAutostartError>)
    ensures
        match size_failure(raw.height, "height"@) {
            Some(m) => r matches Err(e) && is_validation(e, m),
            None => r matches Ok(w) && window_built_from(*raw, w),
        },
{
    let height = match raw.height.into_size_spec("height") {
        Ok(h) => h,
        Err(e) => return Err(e),
    };
    let command = match &raw.command {
        Some(c) => copy_strings(c),
        None => Vec::new(),
    };
    Ok(WindowSpec { app_id: raw.app_id.clone(), command, height, floating: raw.floating })
}

#[verifier::loop_isolation(false)]
fn build_column(raw: &RawColumnSpec) -> (r: Result<ColumnSpec, NiriAutostartError>)
    ensures
        match column_failure(*raw) {
            Some(m) => r matches Err(e) && is_validation(e, m),
            None => r matches Ok(c) && column_built_from(*raw, c),
        },
{
    let width = match raw.width.into_size_spec("width") {
        Ok(w) => w,
        Err(e) => return Err(e),
    };
    assert(raw.windows@.skip(0) =~= raw.windows@);
    let mut windows: Vec<WindowSpec> = Vec::new();
    let mut i: usize = 0;
    while i < raw.windows.len()
        invariant
            i <= raw.windows.len(),
            windows@.len() == i,
            forall|j: int| 0 <= j < i ==> #[trigger] window_built_from(raw.windows@[j], windows@[j]),
            first_height_failure(raw.windows@) == first_height_failure(raw.windows@.skip(i as int)),
        decreases raw.windows.len() - i,
    {
        proof {
            lemma_height_failure_skip(raw.windows@, i as int);
        }
        let w = match build_window(&raw.windows[i]) {
            Ok(w) => w,
            Err(e) => return Err(e),
        };
        windows.push(w);
        i += 1;
    }
    assert(raw.windows@.skip(i as int) =~= Seq::<RawWindowSpec>::empty());
    Ok(ColumnSpec { width, windows })
}

#[verifier::loop_isolation(false)]
fn build_workspace(raw: &RawWorkspaceSpec) -> (r: Result<WorkspaceSpec, NiriAutostartError>)
    ensures
        match first_column_failure(raw.columns@) {
            Some(m) => r matches Err(e) && is_validation(e, m),
            None => r matches Ok(w) && workspace_built_from(*raw, w),
        },
{
    assert(raw.columns@.skip(0) =~= raw.columns@);
    let mut columns: Vec<ColumnSpec> = Vec::new();
    let mut i: usize = 0;
    while i < raw.columns.len()
        invariant
            i <= raw.columns.len(),
            columns@.len() == i,
            forall|j: int| 0 <= j < i ==> #[trigger] column_built_from(raw.columns@[j], columns@[j]),
            first_column_failure(raw.columns@) == first_column_failure(raw.columns@.skip(i as int)),
        decreases raw.columns.len() - i,
    {
        proof {
            lemma_column_failure_skip(raw.columns@, i as int);
        }
        let c = match build_column(&raw.columns[i]) {
            Ok(c) => c,
            Err(e) => return Err(e),
        };
        columns.push(c);
        i += 1;
    }
    assert(raw.columns@.skip(i as int) =~= Seq::<RawColumnSpec>::empty());
    Ok(WorkspaceSpec { name: raw.name.clone(), columns })
}

#[verifier::loop_isolation(false)]
fn build_config(raw: &RawAutostartConfig) -> (r: Result<Config, NiriAutostartError>)
    ensures
        match first_workspace_failure(raw.workspaces@) {
            Some(m) => r matches Err(e) && is_validation(e, m),
            None => r matches Ok(c) && config_built_from(*raw, c),
        },
{
    assert(raw.workspaces@.skip(0) =~= raw.workspaces@);
    let mut workspaces: Vec<WorkspaceSpec> = Vec::new();
    let mut i: usize = 0;
    while i < raw.workspaces.len()
        invariant
            i <= raw.workspaces.len(),
            workspaces@.len() == i,
            forall|j: int| 0 <= j < i ==> #[trigger] workspace_built_from(raw.workspaces@[j], workspaces@[j]),
            first_workspace_failure(raw.workspaces@) == first_workspace_failure(raw.workspaces@.skip(i as int)),
        decreases raw.workspaces.len() - i,
    {
        proof {
            lemma_workspace_failure_skip(raw.workspaces@, i as int);
        }
        let w = match build_workspace(&raw.workspaces[i]) {
            Ok(w) => w,
            Err(e) => return Err(e),
        };
        workspaces.push(w);
        i += 1;
    }
    assert(raw.workspaces@.skip(i as int) =~= Seq::<RawWorkspaceSpec>::empty());
    Ok(Config { workspaces })
}

impl WindowSpec {
    /// Builds a window spec from its node; the height must be a valid size.
    pub fn from_raw(raw: RawWindowSpec) -> (r: Result<WindowSpec, NiriAutostartError>)
        ensures
            match size_failure(raw.height, "height"@) {
                Some(m) => r matches Err(e) && is_validation(e, m),
                None => r matches Ok(w) && window_built_from(raw, w),
            },
    {
        build_window(&raw)
    }
}

impl ColumnSpec {
    /// Builds a column spec from its node: the width first, then each window in order;
    /// the first refusal is returned.
    pub fn from_raw(raw: RawColumnSpec) -> (r: Result<ColumnSpec, NiriAutostartError>)
        ensures
            match column_failure(raw) {
                Some(m) => r matches Err(e) && is_validation(e, m),
                None => r matches Ok(c) && column_built_from(raw, c),
            },
    {
        build_column(&raw)
    }
}

impl WorkspaceSpec {
    /// Builds a workspace spec from its node, column by column; the first refusal is
    /// returned.
    pub fn from_raw(raw: RawWorkspaceSpec) -> (r: Result<WorkspaceSpec, NiriAutostartError>)
        ensures
            match first_column_failure(raw.columns@) {
                Some(m) => r matches Err(e) && is_validation(e, m),
                None => r matches Ok(w) && workspace_built_from(raw, w),
            },
    {
        build_workspace(&raw)
    }
}

/// Copies a list of strings.
pub fn copy_strings(v: &Vec<String>) -> (r: Vec<String>)
    ensures
        r@ == v@,
{
    let mut r: Vec<String> = Vec::new();
    let mut i: usize = 0;
    while i < v.len()
        invariant
            i <= v.len(),
            r@ == v@.take(i as int),
        decreases v.len() - i,
    {
        r.push(v[i].clone());
        assert(v@.take(i + 1) =~= v@.take(i as int).push(v@[i as int]));
        i += 1;
    }
    assert(v@.take(i as int) =~= v@);
    r
}

// ---------------------------------------------------------------------------------
// Validation
// ---------------------------------------------------------------------------------

/// Checks windows in order against the application ids seen so far: an id seen before
/// or an empty command is refused; otherwise the ids seen afterwards are returned.
pub open spec fn check_windows(windows: Seq<WindowSpec>, seen: Set<Seq<char>>) -> Result<Set<Seq<char>>, Seq<char>>
    decreases windows.len(),
{
    if windows.len() == 0 {
        Ok(seen)
    } else {
        let w = windows[0];
        if seen.contains(w.app_id@) {
            Err("duplicate app-id "@ + debug_quoted(w.app_id@) + " in config"@)
        } else if w.command@.len() == 0 {
            Err("window "@ + debug_quoted(w.app_id@) + " must have a non-empty command"@)
        } else {
            check_windows(windows.drop_first(), seen.insert(w.app_id@))
        }
    }
}

/// Checks the columns of the workspace named `name` in order: a column without windows
/// is refused, and each column's windows are checked.
pub open spec fn check_columns(name: Seq<char>, columns: Seq<ColumnSpec>, seen: Set<Seq<char>>) -> Result<Set<Seq<char>>, Seq<char>>
    decreases columns.len(),
{
    if columns.len() == 0 {
        Ok(seen)
    } else {
        let c = columns[0];
        if c.windows@.len() == 0 {
            Err("workspace "@ + debug_quoted(name) + " contains a column without windows"@)
        } else {
            match check_windows(c.windows@, seen) {
                Err(m) => Err(m),
                Ok(after) => check_columns(name, columns.drop_first(), after),
            }
        }
    }
}

/// Checks workspaces in order: a workspace without columns is refused, and each
/// workspace's columns are checked.
pub open spec fn check_workspaces(workspaces: Seq<WorkspaceSpec>, seen: Set<Seq<char>>) -> Result<Set<Seq<char>>, Seq<char>>
    decreases workspaces.len(),
{
    if workspaces.len() == 0 {
        Ok(seen)
    } else {
        let w = workspaces[0];
        if w.columns@.len() == 0 {
            Err("workspace "@ + debug_quoted(w.name@) + " must contain at least one column"@)
        } else {
            match check_columns(w.name@, w.columns@, seen) {
                Err(m) => Err(m),
                Ok(after) => check_workspaces(workspaces.drop_first(), after),
            }
        }
    }
}

/// Why a config is refused, if it is: the first violation met walking the workspaces,
/// their columns and their windows in order.
pub open spec fn validation_failure(config: Config) -> Option<Seq<char>> {
    if config.workspaces@.len() == 0 {
        Some("at least one `workspace` node is required"@)
    } else {
        match check_workspaces(config.workspaces@, Set::empty()) {
            Err(m) => Some(m),
            Ok(_) => None,
        }
    }
}

proof fn lemma_check_windows_skip(s: Seq<WindowSpec>, i: int, seen: Set<Seq<char>>)
    requires
        0 <= i < s.len(),
    ensures
        check_windows(s.skip(i), seen) == (if seen.contains(s[i].app_id@) {
            Err("duplicate app-id "@ + debug_quoted(s[i].app_id@) + " in config"@)
        } else if s[i].command@.len() == 0 {
            Err("window "@ + debug_quoted(s[i].app_id@) + " must have a non-empty command"@)
        } else {
            check_windows(s.skip(i + 1), seen.insert(s[i].app_id@))
        }),
{
    assert(s.skip(i).drop_first() =~= s.skip(i + 1));
}

proof fn lemma_check_columns_skip(name: Seq<char>, s: Seq<ColumnSpec>, i: int, seen: Set<Seq<char>>)
    requires
        0 <= i < s.len(),
    ensures
        check_columns(name, s.skip(i), seen) == (if s[i].windows@.len() == 0 {
            Err("workspace "@ + debug_quoted(name) + " contains a column without windows"@)
        } else {
            match check_windows(s[i].windows@, seen) {
                Err(m) => Err(m),
                Ok(after) => check_columns(name, s.skip(i + 1), after),
            }
        }),
{
    assert(s.skip(i).drop_first() =~= s.skip(i + 1));
}

proof fn lemma_check_workspaces_skip(s: Seq<WorkspaceSpec>, i: int, seen: Set<Seq<char>>)
    requires
        0 <= i < s.len(),
    ensures
        check_workspaces(s.skip(i), seen) == (if s[i].columns@.len() == 0 {
            Err("workspace "@ + debug_quoted(s[i].name@) + " must contain at least one column"@)
        } else {
            match check_columns(s[i].name@, s[i].columns@, seen) {
                Err(m) => Err(m),
                Ok(after) => check_workspaces(s.skip(i + 1), after),
            }
        }),
{
    assert(s.skip(i).drop_first() =~= s.skip(i + 1));
}

/// Checks one column's windows, adding their application ids to `app_ids`.
#[verifier::loop_isolation(false)]
fn validate_windows(windows: &Vec<WindowSpec>, app_ids: &mut StringHashSet) -> (r: Result<(), NiriAutostartError>)
    ensures
        match check_windows(windows@, old(app_ids)@) {
            Err(m) => r matches Err(e) && is_validation(e, m),
            Ok(after) => r is Ok && final(app_ids)@ == after,
        },
{
    let ghost start = app_ids@;
    assert(windows@.skip(0) =~= windows@);
    let mut k: usize = 0;
    while k < windows.len()
        invariant
            k <= windows.len(),
            check_windows(windows@, start) == check_windows(windows@.skip(k as int), app_ids@),
        decreases windows.len() - k,
    {
        proof {
            lemma_check_windows_skip(windows@, k as int, app_ids@);
        }
        let window = &windows[k];
        if !app_ids.insert(window.app_id.clone()) {
            let quoted = quote_debug(&window.app_id);
            return Err(NiriAutostartError::Validation(text3("duplicate app-id ", &quoted, " in config")));
        }
        if window.command.len() == 0 {
            let quoted = quote_debug(&window.app_id);
            return Err(NiriAutostartError::Validation(text3("window ", &quoted, " must have a non-empty command")));
        }
        k += 1;
    }
    assert(windows@.skip(k as int) =~= Seq::<WindowSpec>::empty());
    Ok(())
}

/// Checks one workspace's columns, adding their application ids to `app_ids`.
#[verifier::loop_isolation(false)]
fn validate_columns(workspace: &WorkspaceSpec, app_ids: &mut StringHashSet) -> (r: Result<(), NiriAutostartError>)
    ensures
        match check_columns(workspace.name@, workspace.columns@, old(app_ids)@) {
            Err(m) => r matches Err(e) && is_validation(e, m),
            Ok(after) => r is Ok && final(app_ids)@ == after,
        },
{
    let ghost start = app_ids@;
    let columns = &workspace.columns;
    assert(columns@.skip(0) =~= columns@);
    let mut j: usize = 0;
    while j < columns.len()
        invariant
            j <= columns.len(),
            check_columns(workspace.name@, columns@, start) == check_columns(workspace.name@, columns@.skip(j as int), app_ids@),
        decreases columns.len() - j,
    {
        proof {
            lemma_check_columns_skip(workspace.name@, columns@, j as int, app_ids@);
        }
        let column = &columns[j];
        if column.windows.len() == 0 {
            let quoted = quote_debug(&workspace.name);
            return Err(NiriAutostartError::Validation(text3("workspace ", &quoted, " contains a column without windows")));
        }
        match validate_windows(&column.windows, app_ids) {
            Ok(()) => {},
            Err(e) => return Err(e),
        }
        j += 1;
    }
    assert(columns@.skip(j as int) =~= Seq::<ColumnSpec>::empty());
    Ok(())
}

impl Config {
    /// Checks the rules of the config: at least one workspace, no workspace without
    /// columns, no column without windows, no application id twice, no window without a
    /// command. The first violation met in order is reported.
    #[verifier::loop_isolation(false)]
    pub fn validate(&self) -> (r: Result<(), NiriAutostartError>)
        ensures
            match validation_failure(*self) {
                Some(m) => r matches Err(e) && is_validation(e, m),
                None => r is Ok,
            },
    {
        let mut app_ids = StringHashSet::new();
        if self.workspaces.len() == 0 {
            return Err(NiriAutostartError::Validation(text("at least one `workspace` node is required")));
        }
        let workspaces = &self.workspaces;
        assert(workspaces@.skip(0) =~= workspaces@);
        let mut i: usize = 0;
        while i < workspaces.len()
            invariant
                i <= workspaces.len(),
                check_workspaces(workspaces@, Set::empty()) == check_workspaces(workspaces@.skip(i as int), app_ids@),
            decreases workspaces.len() - i,
        {
            proof {
                lemma_check_workspaces_skip(workspaces@, i as int, app_ids@);
            }
            let workspace = &workspaces[i];
            if workspace.columns.len() == 0 {
                let quoted = quote_debug(&workspace.name);
                return Err(NiriAutostartError::Validation(text3("workspace ", &quoted, " must contain at least one column")));
            }
            match validate_columns(workspace, &mut app_ids) {
                Ok(()) => {},
                Err(e) => return Err(e),
            }
            i += 1;
        }
        assert(workspaces@.skip(i as int) =~= Seq::<WorkspaceSpec>::empty());
        Ok(())
    }

    /// Builds the config from the `autostart` node and validates it: decoding refusals
    /// (sizes) come first, then validation refusals.
    pub fn from_raw(raw: RawAutostartConfig) -> (r: Result<Config, NiriAutostartError>)
        ensures
            match first_workspace_failure(raw.workspaces@) {
                Some(m) => r matches Err(e) && is_validation(e, m),
                None => exists|c: Config| #[trigger] config_built_from(raw, c) && match validation_failure(c) {
                    Some(m) => r matches Err(e) && is_validation(e, m),
                    None => r == Ok::<Config, NiriAutostartError>(c),
                },
            },
    {
        let config = match build_config(&raw) {
            Ok(c) => c,
            Err(e) => return Err(e),
        };
        match config.validate() {
            Ok(()) => Ok(config),
            Err(e) => Err(e),
        }
    }

    /// Turns the top-level `autostart` nodes of a document into the config: exactly one
    /// such node is required.
    pub fn from_document(autostart: Vec<RawAutostartConfig>) -> (r: Result<Config, NiriAutostartError>)
        ensures
            autostart@.len() == 0 ==> (r matches Err(e) && is_validation(e, "expected a single top-level `autostart` node"@)),
            autostart@.len() > 1 ==> (r matches Err(e) && is_validation(e, "duplicate top-level `autostart` nodes are not allowed"@)),
            autostart@.len() == 1 ==> match first_workspace_failure(autostart@[0].workspaces@) {
                Some(m) => r matches Err(e) && is_validation(e, m),
                None => exists|c: Config| #[trigger] config_built_from(autostart@[0], c) && match validation_failure(c) {
                    Some(m) => r matches Err(e) && is_validation(e, m),
                    None => r == Ok::<Config, NiriAutostartError>(c),
                },
            },
    {
        if autostart.len() == 0 {
            return Err(NiriAutostartError::Validation(text("expected a single top-level `autostart` node")));
        }
        if autostart.len() > 1 {
            return Err(NiriAutostartError::Validation(text("duplicate top-level `autostart` nodes are not allowed")));
        }
        let mut autostart = autostart;
        let ghost only = autostart@[0];
        let raw = autostart.pop().unwrap();
        assert(raw == only);
        Config::from_raw(raw)
    }
}

/// The config path: the one given on the command line, else the default one derived
/// from `XDG_CONFIG_HOME` and `HOME`.
pub fn resolve_config_path(cli: &Cli, xdg_config_home: Option<&str>, home: Option<&str>) -> (r: Result<String, NiriAutostartError>)
    ensures
        match cli.config {
            Some(p) => r == Ok::<String, NiriAutostartError>(p),
            None => match default_config_path(opt_view(xdg_config_home), opt_view(home)) {
                Some(path) => r matches Ok(p) && p@ == path,
                None => r == Err::<String, NiriAutostartError>(NiriAutostartError::MissingDefaultConfigBase),
            },
        },
{
    match &cli.config {
        Some(path) => Ok(path.clone()),
        None => config_path_from(xdg_config_home, home),
    }
}

} // verus!
