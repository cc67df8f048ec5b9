//! The reconciler: the decisions that drive niri toward the declared layout.
//!
//! The reconciler is a state machine. Each call of `Reconciler::next_command` takes one
//! step and hands back one command: an action to send to niri, a condition to wait
//! for, a request to refresh the state snapshot or to persist the runtime state, the end
//! of the run or its failure. The caller performs the command and reports back new
//! snapshots of niri's state with `observe`.
use vstd::prelude::*;
use vstd::std_specs::iter::IteratorSpec;

use crate::config::{
    check_columns, check_windows, check_workspaces, validation_failure, ColumnSpec, Config, SizeSpec, WindowSpec,
    WorkspaceSpec,
};
use crate::error::NiriAutostartError;
use crate::model::{opt_str_is, Window};
use crate::runtime_state::{replace_or_push, stably_sorted, stored_for, RuntimeState, StoredWindow, WindowKey};
use crate::state::{
    app_window_ids, has_app_id, is_preferred_window, rank_lt, window_rank, ActualState,
};
use crate::text::{text, debug_quoted, decimal, i32_text, quote_debug, signed_decimal, text3, usize_text};

verus! {

broadcast use vstd::std_specs::hash::group_hash_axioms, vstd::std_specs::btree::group_btree_axioms,
    vstd::laws_cmp::group_laws_cmp;

/// An action for niri.
#[derive(Debug, PartialEq)]
pub enum NiriAction {
    Spawn { command: Vec<String> },
    FocusWorkspace { workspace: String },
    FocusWindow { id: u64 },
    FocusColumn { index: usize },
    MoveColumnToIndex { index: usize },
    MoveWindowDown,
    MoveWindowUp,
    ConsumeWindowIntoColumn,
    MoveWindowToWorkspace { window_id: u64, workspace: String },
    SetColumnWidth { change: SizeSpec },
    SetWindowWidth { id: u64, change: SizeSpec },
    SetWindowHeight { id: u64, change: SizeSpec },
    MoveWindowToFloating { id: u64 },
    MoveWindowToTiling { id: u64 },
}

/// A condition on niri's state that the reconciler waits for.
#[derive(Debug, PartialEq)]
pub enum Condition {
    /// The workspace named `workspace` is active.
    WorkspaceActive { workspace: String },
    /// A window carrying `app_id` whose id is not in `before` exists.
    WindowSpawned { before: Vec<u64>, app_id: String },
    /// The window is on the workspace named `workspace`.
    WindowOnWorkspace { window_id: u64, workspace: String },
    /// The window is focused.
    WindowFocused { window_id: u64 },
    /// The window is on the workspace that the name `workspace` resolves to (or on no
    /// workspace when the name resolves to none) at `column`, `row`.
    WindowAt { window_id: u64, workspace: String, column: usize, row: usize },
    /// As `WindowAt`, and the column holds exactly `row` tiled windows.
    WindowStackedAt { window_id: u64, workspace: String, column: usize, row: usize },
    /// The window is in column `column`.
    WindowInColumn { window_id: u64, column: usize },
    /// The window is in row `row`; `down` tells the direction it was moved in.
    WindowInRow { window_id: u64, row: usize, down: bool },
    /// The window's floating state is `floating`.
    WindowFloating { window_id: u64, floating: bool },
    /// The window's tile is `height` pixels high, within one pixel.
    WindowHeight { window_id: u64, height: i32 },
    /// The window's tile is `width` pixels wide, within one pixel.
    WindowWidth { window_id: u64, width: i32 },
    /// The window is focused and is the active window of the workspace named `workspace`.
    FirstWindowFocused { window_id: u64, workspace: String },
}

/// What the caller of the reconciler does next.
#[derive(Debug)]
pub enum Command {
    /// Send an action to niri.
    Act { action: NiriAction },
    /// Wait until the condition holds, then report the state with `observe`. `label`
    /// names the window or workspace waited for.
    WaitFor { condition: Condition, label: String },
    /// Wait until the condition holds with no relevant event for the quiet period, then
    /// report the state with `observe`.
    WaitForStable { condition: Condition, label: String },
    /// Wait until no relevant event arrives for the quiet period, then report the state
    /// with `observe`; `workspace` names the workspace about to be focused, if any.
    WaitUntilQuiet { workspace: Option<String> },
    /// Report the current state with `observe`.
    Sync,
    /// Write the runtime state to its file.
    Persist,
    /// Call `next_command` again.
    Proceed,
    /// The layout is in place.
    Done,
    /// The run failed.
    Fail { error: NiriAutostartError },
}

/// An action, with texts as characters.
pub enum ActionView {
    Spawn(Seq<Seq<char>>),
    FocusWorkspace(Seq<char>),
    FocusWindow(u64),
    FocusColumn(usize),
    MoveColumnToIndex(usize),
    MoveWindowDown,
    MoveWindowUp,
    ConsumeWindowIntoColumn,
    MoveWindowToWorkspace(u64, Seq<char>),
    SetColumnWidth(SizeSpec),
    SetWindowWidth(u64, SizeSpec),
    SetWindowHeight(u64, SizeSpec),
    MoveWindowToFloating(u64),
    MoveWindowToTiling(u64),
}

impl View for NiriAction {
    type V = ActionView;

    open spec fn view(&self) -> ActionView {
        match *self {
            NiriAction::Spawn { command } => ActionView::Spawn(crate::runtime_state::texts(command@)),
            NiriAction::FocusWorkspace { workspace } => ActionView::FocusWorkspace(workspace@),
            NiriAction::FocusWindow { id } => ActionView::FocusWindow(id),
            NiriAction::FocusColumn { index } => ActionView::FocusColumn(index),
            NiriAction::MoveColumnToIndex { index } => ActionView::MoveColumnToIndex(index),
            NiriAction::MoveWindowDown => ActionView::MoveWindowDown,
            NiriAction::MoveWindowUp => ActionView::MoveWindowUp,
            NiriAction::ConsumeWindowIntoColumn => ActionView::ConsumeWindowIntoColumn,
            NiriAction::MoveWindowToWorkspace { window_id, workspace } => ActionView::MoveWindowToWorkspace(
                window_id,
                workspace@,
            ),
            NiriAction::SetColumnWidth { change } => ActionView::SetColumnWidth(change),
            NiriAction::SetWindowWidth { id, change } => ActionView::SetWindowWidth(id, change),
            NiriAction::SetWindowHeight { id, change } => ActionView::SetWindowHeight(id, change),
            NiriAction::MoveWindowToFloating { id } => ActionView::MoveWindowToFloating(id),
            NiriAction::MoveWindowToTiling { id } => ActionView::MoveWindowToTiling(id),
        }
    }
}

/// A condition, with texts as characters.
pub enum ConditionView {
    WorkspaceActive(Seq<char>),
    WindowSpawned(Seq<u64>, Seq<char>),
    WindowOnWorkspace(u64, Seq<char>),
    WindowFocused(u64),
    WindowAt(u64, Seq<char>, usize, usize),
    WindowStackedAt(u64, Seq<char>, usize, usize),
    WindowInColumn(u64, usize),
    WindowInRow(u64, usize, bool),
    WindowFloating(u64, bool),
    WindowHeight(u64, i32),
    WindowWidth(u64, i32),
    FirstWindowFocused(u64, Seq<char>),
}

impl View for Condition {
    type V = ConditionView;

    open spec fn view(&self) -> ConditionView {
        match *self {
            Condition::WorkspaceActive { workspace } => ConditionView::WorkspaceActive(workspace@),
            Condition::WindowSpawned { before, app_id } => ConditionView::WindowSpawned(before@, app_id@),
            Condition::WindowOnWorkspace { window_id, workspace } => ConditionView::WindowOnWorkspace(window_id, workspace@),
            Condition::WindowFocused { window_id } => ConditionView::WindowFocused(window_id),
            Condition::WindowAt { window_id, workspace, column, row } => ConditionView::WindowAt(
                window_id,
                workspace@,
                column,
                row,
            ),
            Condition::WindowStackedAt { window_id, workspace, column, row } => ConditionView::WindowStackedAt(
                window_id,
                workspace@,
                column,
                row,
            ),
            Condition::WindowInColumn { window_id, column } => ConditionView::WindowInColumn(window_id, column),
            Condition::WindowInRow { window_id, row, down } => ConditionView::WindowInRow(window_id, row, down),
            Condition::WindowFloating { window_id, floating } => ConditionView::WindowFloating(window_id, floating),
            Condition::WindowHeight { window_id, height } => ConditionView::WindowHeight(window_id, height),
            Condition::WindowWidth { window_id, width } => ConditionView::WindowWidth(window_id, width),
            Condition::FirstWindowFocused { window_id, workspace } => ConditionView::FirstWindowFocused(
                window_id,
                workspace@,
            ),
        }
    }
}

/// A failure of a step, with texts as characters; `Other` stands for the errors that
/// no step produces.
pub enum FailureView {
    MissingWorkspace(Seq<char>),
    MissingWindow(Seq<char>),
    Validation(Seq<char>),
    NonAdjacentColumn(Seq<char>, usize, usize),
    Other,
}

/// The view of an error that a step can fail with.
pub open spec fn failure_view(error: NiriAutostartError) -> FailureView {
    match error {
        NiriAutostartError::MissingWorkspace(name) => FailureView::MissingWorkspace(name@),
        NiriAutostartError::MissingWindow(label) => FailureView::MissingWindow(label@),
        NiriAutostartError::Validation(message) => FailureView::Validation(message@),
        NiriAutostartError::NonAdjacentColumn { app_id, actual, expected_left } => FailureView::NonAdjacentColumn(
            app_id@,
            actual,
            expected_left,
        ),
        _ => FailureView::Other,
    }
}

/// A command, with texts as characters.
pub enum CommandView {
    Act(ActionView),
    WaitFor(ConditionView, Seq<char>),
    WaitForStable(ConditionView, Seq<char>),
    WaitUntilQuiet(Option<Seq<char>>),
    Sync,
    Persist,
    Proceed,
    Done,
    Fail(FailureView),
}

impl View for Command {
    type V = CommandView;

    open spec fn view(&self) -> CommandView {
        match *self {
            Command::Act { action } => CommandView::Act(action@),
            Command::WaitFor { condition, label } => CommandView::WaitFor(condition@, label@),
            Command::WaitForStable { condition, label } => CommandView::WaitForStable(condition@, label@),
            Command::WaitUntilQuiet { workspace } => CommandView::WaitUntilQuiet(match workspace {
                Some(name) => Some(name@),
                None => None,
            }),
            Command::Sync => CommandView::Sync,
            Command::Persist => CommandView::Persist,
            Command::Proceed => CommandView::Proceed,
            Command::Done => CommandView::Done,
            Command::Fail { error } => CommandView::Fail(failure_view(error)),
        }
    }
}

/// The label of a configured window: `app-id at workspace:column:row`.
pub open spec fn window_label(workspace: Seq<char>, column: nat, row: nat, app_id: Seq<char>) -> Seq<char> {
    app_id + " at "@ + workspace + ":"@ + decimal(column) + ":"@ + decimal(row)
}

/// Builds the label of the window spec `spec` at position `key`.
pub fn label_of(key: &WindowKey, spec: &WindowSpec) -> (r: String)
    ensures
        r@ == window_label(key.workspace@, key.column as nat, key.row as nat, spec.app_id@),
{
    let position = key.to_text();
    let r = text3("", &spec.app_id, " at ");
    let mut r2 = r;
    r2.append(position.as_str());
    proof {
        reveal_strlit("");
    }
    assert(r2@ =~= window_label(key.workspace@, key.column as nat, key.row as nat, spec.app_id@));
    r2
}

/// A floating window has no place in the scrolling layout; a tiled one is placed at
/// (`column`, `row`).
pub fn scrolling_layout_target(spec: &WindowSpec, column: usize, row: usize) -> (r: Option<(usize, usize)>)
    ensures
        r == (if spec.floating { None } else { Some((column, row)) }),
{
    if spec.floating {
        None
    } else {
        Some((column, row))
    }
}

// ---------------------------------------------------------------------------------
// How often an application id occurs in the config
// ---------------------------------------------------------------------------------

/// How many windows of a list carry `app`.
pub open spec fn count_in_windows(windows: Seq<WindowSpec>, app: Seq<char>) -> nat
    decreases windows.len(),
{
    if windows.len() == 0 {
        0
    } else {
        (if windows[0].app_id@ == app { 1nat } else { 0nat }) + count_in_windows(windows.drop_first(), app)
    }
}

/// How many windows of a list of columns carry `app`.
pub open spec fn count_in_columns(columns: Seq<ColumnSpec>, app: Seq<char>) -> nat
    decreases columns.len(),
{
    if columns.len() == 0 {
        0
    } else {
        count_in_windows(columns[0].windows@, app) + count_in_columns(columns.drop_first(), app)
    }
}

/// How many windows of a list of workspaces carry `app`.
pub open spec fn count_in_workspaces(workspaces: Seq<WorkspaceSpec>, app: Seq<char>) -> nat
    decreases workspaces.len(),
{
    if workspaces.len() == 0 {
        0
    } else {
        count_in_columns(workspaces[0].columns@, app) + count_in_workspaces(workspaces.drop_first(), app)
    }
}

/// How many configured windows carry the application id `app`.
pub open spec fn app_id_count(config: Config, app: Seq<char>) -> nat {
    count_in_workspaces(config.workspaces@, app)
}

proof fn lemma_count_windows_skip(s: Seq<WindowSpec>, i: int, app: Seq<char>)
    requires
        0 <= i < s.len(),
    ensures
        count_in_windows(s.skip(i), app) == (if s[i].app_id@ == app { 1nat } else { 0nat }) + count_in_windows(s.skip(i + 1), app),
{
    assert(s.skip(i).drop_first() =~= s.skip(i + 1));
}

proof fn lemma_count_columns_skip(s: Seq<ColumnSpec>, i: int, app: Seq<char>)
    requires
        0 <= i < s.len(),
    ensures
        count_in_columns(s.skip(i), app) == count_in_windows(s[i].windows@, app) + count_in_columns(s.skip(i + 1), app),
{
    assert(s.skip(i).drop_first() =~= s.skip(i + 1));
}

proof fn lemma_count_workspaces_skip(s: Seq<WorkspaceSpec>, i: int, app: Seq<char>)
    requires
        0 <= i < s.len(),
    ensures
        count_in_workspaces(s.skip(i), app) == count_in_columns(s[i].columns@, app) + count_in_workspaces(s.skip(i + 1), app),
{
    assert(s.skip(i).drop_first() =~= s.skip(i + 1));
}

/// Counts, up to two, the windows of a list carrying `app`, adding to `so_far`.
fn count_windows_upto(windows: &Vec<WindowSpec>, app: &String, so_far: usize) -> (r: usize)
    requires
        so_far <= 2,
    ensures
        r <= 2,
        r == (if so_far + count_in_windows(windows@, app@) >= 2 { 2 } else { so_far + count_in_windows(windows@, app@) }),
{
    let mut count = so_far;
    let mut k: usize = 0;
    assert(windows@.skip(0) =~= windows@);
    while k < windows.len() && count < 2
        invariant
            k <= windows.len(),
            count <= 2,
            so_far <= 2,
            count < 2 ==> so_far + count_in_windows(windows@, app@) == count + count_in_windows(windows@.skip(k as int), app@),
            count == 2 ==> so_far + count_in_windows(windows@, app@) >= 2,
        decreases windows.len() - k,
    {
        proof {
            lemma_count_windows_skip(windows@, k as int, app@);
        }
        if crate::model::string_eq(&windows[k].app_id, app) {
            count = count + 1;
        }
        k += 1;
    }
    if count < 2 {
        assert(windows@.skip(k as int) =~= Seq::<WindowSpec>::empty());
    }
    count
}

/// Whether exactly one configured window carries the application id `app`.
pub fn app_id_unique(config: &Config, app: &String) -> (r: bool)
    ensures
        r == (app_id_count(*config, app@) == 1),
{
    let mut count: usize = 0;
    let workspaces = &config.workspaces;
    assert(workspaces@.skip(0) =~= workspaces@);
    let mut i: usize = 0;
    while i < workspaces.len() && count < 2
        invariant
            i <= workspaces.len(),
            count <= 2,
            count < 2 ==> app_id_count(*config, app@) == count + count_in_workspaces(workspaces@.skip(i as int), app@),
            count == 2 ==> app_id_count(*config, app@) >= 2,
            workspaces@ == config.workspaces@,
        decreases workspaces.len() - i,
    {
        proof {
            lemma_count_workspaces_skip(workspaces@, i as int, app@);
        }
        let columns = &workspaces[i].columns;
        let ghost before_ws = count;
        assert(columns@.skip(0) =~= columns@);
        let mut j: usize = 0;
        while j < columns.len() && count < 2
            invariant
                j <= columns.len(),
                count <= 2,
                before_ws < 2,
                count < 2 ==> before_ws + count_in_columns(columns@, app@) == count + count_in_columns(columns@.skip(j as int), app@),
                count == 2 ==> before_ws + count_in_columns(columns@, app@) >= 2,
            decreases columns.len() - j,
        {
            proof {
                lemma_count_columns_skip(columns@, j as int, app@);
            }
            count = count_windows_upto(&columns[j].windows, app, count);
            j += 1;
        }
        if count < 2 {
            assert(columns@.skip(j as int) =~= Seq::<ColumnSpec>::empty());
        }
        i += 1;
    }
    if count < 2 {
        assert(workspaces@.skip(i as int) =~= Seq::<WorkspaceSpec>::empty());
    }
    count == 1
}

/// Whether every workspace leaves room for the helper column right of its last column
/// (`config_fits`).
pub fn fits(config: &Config) -> (r: bool)
    ensures
        r == config_fits(*config),
{
    let mut i: usize = 0;
    while i < config.workspaces.len()
        invariant
            i <= config.workspaces.len(),
            forall|ws: int| 0 <= ws < i ==> column_count(*config, ws) + 2 <= usize::MAX,
        decreases config.workspaces.len() - i,
    {
        if config.workspaces[i].columns.len() > usize::MAX - 2 {
            assert(column_count(*config, i as int) + 2 > usize::MAX);
            return false;
        }
        i += 1;
    }
    true
}

proof fn lemma_check_windows_counts(windows: Seq<WindowSpec>, seen: Set<Seq<char>>, a: Seq<char>)
    requires
        check_windows(windows, seen) is Ok,
    ensures
        seen.contains(a) ==> count_in_windows(windows, a) == 0,
        count_in_windows(windows, a) <= 1,
        match check_windows(windows, seen) {
            Ok(after) => after.contains(a) <==> (seen.contains(a) || count_in_windows(windows, a) == 1),
            Err(_) => true,
        },
    decreases windows.len(),
{
    if windows.len() > 0 {
        let w = windows[0];
        lemma_check_windows_counts(windows.drop_first(), seen.insert(w.app_id@), a);
    }
}

proof fn lemma_check_columns_counts(name: Seq<char>, columns: Seq<ColumnSpec>, seen: Set<Seq<char>>, a: Seq<char>)
    requires
        check_columns(name, columns, seen) is Ok,
    ensures
        seen.contains(a) ==> count_in_columns(columns, a) == 0,
        count_in_columns(columns, a) <= 1,
        match check_columns(name, columns, seen) {
            Ok(after) => after.contains(a) <==> (seen.contains(a) || count_in_columns(columns, a) == 1),
            Err(_) => true,
        },
    decreases columns.len(),
{
    if columns.len() > 0 {
        let c = columns[0];
        lemma_check_windows_counts(c.windows@, seen, a);
        let after = check_windows(c.windows@, seen)->Ok_0;
        lemma_check_columns_counts(name, columns.drop_first(), after, a);
    }
}

proof fn lemma_check_workspaces_counts(workspaces: Seq<WorkspaceSpec>, seen: Set<Seq<char>>, a: Seq<char>)
    requires
        check_workspaces(workspaces, seen) is Ok,
    ensures
        seen.contains(a) ==> count_in_workspaces(workspaces, a) == 0,
        count_in_workspaces(workspaces, a) <= 1,
    decreases workspaces.len(),
{
    if workspaces.len() > 0 {
        let w = workspaces[0];
        lemma_check_columns_counts(w.name@, w.columns@, seen, a);
        let after = check_columns(w.name@, w.columns@, seen)->Ok_0;
        lemma_check_workspaces_counts(workspaces.drop_first(), after, a);
    }
}

proof fn lemma_window_counted(windows: Seq<WindowSpec>, k: int)
    requires
        0 <= k < windows.len(),
    ensures
        count_in_windows(windows, windows[k].app_id@) >= 1,
    decreases windows.len(),
{
    if k > 0 {
        lemma_window_counted(windows.drop_first(), k - 1);
    }
}

proof fn lemma_column_counted(columns: Seq<ColumnSpec>, col: int, row: int)
    requires
        0 <= col < columns.len(),
        0 <= row < columns[col].windows@.len(),
    ensures
        count_in_columns(columns, columns[col].windows@[row].app_id@) >= 1,
    decreases columns.len(),
{
    if col > 0 {
        lemma_column_counted(columns.drop_first(), col - 1, row);
    } else {
        lemma_window_counted(columns[0].windows@, row);
    }
}

proof fn lemma_workspace_counted(workspaces: Seq<WorkspaceSpec>, ws: int, col: int, row: int)
    requires
        0 <= ws < workspaces.len(),
        0 <= col < workspaces[ws].columns@.len(),
        0 <= row < workspaces[ws].columns@[col].windows@.len(),
    ensures
        count_in_workspaces(workspaces, workspaces[ws].columns@[col].windows@[row].app_id@) >= 1,
    decreases workspaces.len(),
{
    if ws > 0 {
        lemma_workspace_counted(workspaces.drop_first(), ws - 1, col, row);
    } else {
        lemma_column_counted(workspaces[0].columns@, col, row);
    }
}

/// In a config that passes validation, every configured window's application id is
/// carried by that window alone, so a window for it can always be adopted by
/// application id.
pub proof fn law_valid_config_has_unique_app_ids(config: Config, ws: int, col: int, row: int)
    requires
        validation_failure(config) is None,
        0 <= ws < config.workspaces@.len(),
        0 <= col < column_count(config, ws),
        0 <= row < row_count(config, ws, col),
    ensures
        app_id_count(config, spec_at(config, ws, col, row).app_id@) == 1,
{
    let a = spec_at(config, ws, col, row).app_id@;
    lemma_check_workspaces_counts(config.workspaces@, Set::empty(), a);
    lemma_workspace_counted(config.workspaces@, ws, col, row);
}

// ---------------------------------------------------------------------------------
// Windows that appeared after a spawn
// ---------------------------------------------------------------------------------

/// `id` is the window that a spawn of application `app` produced: among the windows of
/// the application whose ids are not in `before`, the one with the greatest rank
/// (tiled, then focused, then highest id).
pub open spec fn is_spawned_window(windows: Map<u64, Window>, before: Seq<u64>, app: Seq<char>, id: u64) -> bool {
    &&& app_window_ids(windows, app).contains(id)
    &&& !before.contains(id)
    &&& forall|o: u64| #[trigger] app_window_ids(windows, app).contains(o) && !before.contains(o)
        ==> !rank_lt(window_rank(windows[id], None), window_rank(windows[o], None))
}

/// Some window of application `app` has an id that is not in `before`.
pub open spec fn spawned_window_exists(windows: Map<u64, Window>, before: Seq<u64>, app: Seq<char>) -> bool {
    exists|o: u64| #[trigger] app_window_ids(windows, app).contains(o) && !before.contains(o)
}

fn list_contains(v: &Vec<u64>, x: u64) -> (r: bool)
    ensures
        r == v@.contains(x),
{
    let mut i: usize = 0;
    while i < v.len()
        invariant
            i <= v.len(),
            forall|j: int| 0 <= j < i ==> v@[j] != x,
        decreases v.len() - i,
    {
        if v[i] == x {
            return true;
        }
        i += 1;
    }
    false
}

/// The window that a spawn of `spec`'s application produced, if one has appeared.
pub fn spawned_window_id_in_state(state: &ActualState, before: &Vec<u64>, spec: &WindowSpec) -> (r: Option<u64>)
    requires
        state.well_formed(),
    ensures
        r is None <==> !spawned_window_exists(state.windows@, before@, spec.app_id@),
        r matches Some(id) ==> is_spawned_window(state.windows@, before@, spec.app_id@, id),
{
    let ghost m = state.windows@;
    let ghost app = spec.app_id@;
    match state.windows_by_app_id.get(spec.app_id.as_str()) {
        None => {
            assert(app_window_ids(m, app) =~= Set::empty());
            None
        },
        Some(ids) => {
            let ghost entries = vstd::std_specs::btree::spec_btree_keys_iter(ids).remaining();
            assert(ids@ == app_window_ids(m, app));
            let mut best: Option<(u64, (bool, bool, bool, u64))> = None;
            for id in it: ids.iter()
                invariant
                    m == state.windows@,
                    state.well_formed(),
                    ids@ == app_window_ids(m, app),
                    entries == vstd::std_specs::btree::spec_btree_keys_iter(ids).remaining(),
                    it.seq() == entries,
                    entries.unref().to_set() == ids@,
                    best is None ==> forall|j: int| 0 <= j < it.index() ==> before@.contains(*entries[j]),
                    best matches Some(b) ==> {
                        &&& ids@.contains(b.0)
                        &&& !before@.contains(b.0)
                        &&& b.1 == window_rank(m[b.0], None)
                        &&& forall|j: int| 0 <= j < it.index() && !before@.contains(*entries[j])
                            ==> !rank_lt(b.1, window_rank(m[*entries[j]], None))
                    },
            {
                let ghost n = it.index();
                assert(entries.unref().to_set().contains(*entries[n]));
                if !list_contains(before, *id) {
                    match state.windows.get(id) {
                        Some(w) => {
                            let rk = (false, !w.is_floating, w.is_focused, w.id);
                            assert(rk == window_rank(m[*id], None));
                            let replace = match best {
                                None => true,
                                Some(b) => {
                                    let (a0, a1, a2, a3) = b.1;
                                    if a1 != rk.1 {
                                        !a1 && rk.1
                                    } else if a2 != rk.2 {
                                        !a2 && rk.2
                                    } else {
                                        a3 < rk.3
                                    }
                                },
                            };
                            if replace {
                                best = Some((*id, rk));
                            }
                        },
                        None => {},
                    }
                }
            }
            match best {
                Some(b) => {
                    proof {
                        assert forall|o: u64| #[trigger] app_window_ids(m, app).contains(o) && !before@.contains(o)
                            implies !rank_lt(window_rank(m[b.0], None), window_rank(m[o], None)) by {
                            assert(entries.unref().to_set().contains(o));
                            let j = choose|j: int| 0 <= j < entries.len() && entries.unref()[j] == o;
                            assert(*entries[j] == o);
                        }
                    }
                    Some(b.0)
                },
                None => {
                    proof {
                        assert forall|o: u64| #[trigger] app_window_ids(m, app).contains(o) implies before@.contains(o) by {
                            assert(entries.unref().to_set().contains(o));
                            let j = choose|j: int| 0 <= j < entries.len() && entries.unref()[j] == o;
                            assert(*entries[j] == o);
                        }
                    }
                    None
                },
            }
        },
    }
}

// ---------------------------------------------------------------------------------
// Conditions
// ---------------------------------------------------------------------------------

/// Whether a condition holds in a state; `None` for the size conditions, which compare
/// floating-point tile sizes and are decided by the caller.
pub open spec fn spec_condition_holds(state: ActualState, condition: Condition) -> Option<bool> {
    let windows = state.windows@;
    match condition {
        Condition::WorkspaceActive { workspace } => Some(match state.spec_workspace_id_by_name(workspace@) {
            Some(id) => state.workspaces@[id].is_active,
            None => false,
        }),
        Condition::WindowSpawned { before, app_id } => Some(spawned_window_exists(windows, before@, app_id@)),
        Condition::WindowOnWorkspace { window_id, workspace } => Some(match state.spec_workspace_id_by_name(workspace@) {
            Some(ws) => windows.contains_key(window_id) && windows[window_id].workspace_id == Some(ws),
            None => false,
        }),
        Condition::WindowFocused { window_id } => Some(windows.contains_key(window_id) && windows[window_id].is_focused),
        Condition::WindowAt { window_id, workspace, column, row } => Some(
            windows.contains_key(window_id)
                && windows[window_id].workspace_id == state.spec_workspace_id_by_name(workspace@)
                && windows[window_id].layout.pos_in_scrolling_layout == Some((column, row)),
        ),
        Condition::WindowStackedAt { window_id, workspace, column, row } => Some(
            windows.contains_key(window_id)
                && windows[window_id].workspace_id == state.spec_workspace_id_by_name(workspace@)
                && windows[window_id].layout.pos_in_scrolling_layout == Some((column, row))
                && match state.spec_workspace_id_by_name(workspace@) {
                    Some(ws) => crate::predicate::column_slot(column) < crate::state::column_counts(windows, ws).len()
                        && crate::state::column_counts(windows, ws)[crate::predicate::column_slot(column)] == row,
                    None => false,
                },
        ),
        Condition::WindowInColumn { window_id, column } => Some(
            windows.contains_key(window_id) && (windows[window_id].layout.pos_in_scrolling_layout matches Some(p)
                && p.0 == column),
        ),
        Condition::WindowInRow { window_id, row, down: _ } => Some(
            windows.contains_key(window_id) && (windows[window_id].layout.pos_in_scrolling_layout matches Some(p)
                && p.1 == row),
        ),
        Condition::WindowFloating { window_id, floating } => Some(
            windows.contains_key(window_id) && windows[window_id].is_floating == floating,
        ),
        Condition::WindowHeight { .. } => None,
        Condition::WindowWidth { .. } => None,
        Condition::FirstWindowFocused { window_id, workspace } => Some(
            windows.contains_key(window_id) && windows[window_id].is_focused
                && match state.spec_workspace_id_by_name(workspace@) {
                    Some(ws) => state.workspaces@[ws].active_window_id == Some(window_id),
                    None => false,
                },
        ),
    }
}

fn window_focused(state: &ActualState, window_id: u64) -> (r: bool)
    ensures
        r == (state.windows@.contains_key(window_id) && state.windows@[window_id].is_focused),
{
    match state.windows.get(&window_id) {
        Some(w) => w.is_focused,
        None => false,
    }
}

fn window_placed(state: &ActualState, window_id: u64, workspace: &String, column: usize, row: usize) -> (r: bool)
    requires
        state.well_formed(),
    ensures
        r == (state.windows@.contains_key(window_id)
            && state.windows@[window_id].workspace_id == state.spec_workspace_id_by_name(workspace@)
            && state.windows@[window_id].layout.pos_in_scrolling_layout == Some((column, row))),
{
    let ws = state.workspace_id_by_name(workspace.as_str());
    match state.windows.get(&window_id) {
        Some(w) => w.workspace_id == ws && match w.layout.pos_in_scrolling_layout {
            Some((c, r)) => c == column && r == row,
            None => false,
        },
        None => false,
    }
}

/// Whether a condition holds in a state; `None` for the size conditions, which compare
/// floating-point tile sizes and are decided by the caller.
pub fn condition_holds(state: &ActualState, condition: &Condition) -> (r: Option<bool>)
    requires
        state.well_formed(),
    ensures
        r == spec_condition_holds(*state, *condition),
{
    match condition {
        Condition::WorkspaceActive { workspace } => Some(crate::predicate::workspace_active(state, workspace.as_str())),
        Condition::WindowSpawned { before, app_id } => {
            let probe = WindowSpec {
                app_id: app_id.clone(),
                command: Vec::new(),
                height: SizeSpec::Fixed(0),
                floating: false,
            };
            Some(spawned_window_id_in_state(state, before, &probe).is_some())
        },
        Condition::WindowOnWorkspace { window_id, workspace } => Some(
            crate::predicate::window_id_on_workspace(state, *window_id, workspace.as_str()),
        ),
        Condition::WindowFocused { window_id } => Some(window_focused(state, *window_id)),
        Condition::WindowAt { window_id, workspace, column, row } => Some(
            window_placed(state, *window_id, workspace, *column, *row),
        ),
        Condition::WindowStackedAt { window_id, workspace, column, row } => Some(
            window_placed(state, *window_id, workspace, *column, *row)
                && crate::predicate::column_has_window_count(state, workspace.as_str(), *column, *row),
        ),
        Condition::WindowInColumn { window_id, column } => Some(
            match state.window_position_by_id(*window_id) {
                Some((c, _)) => c == *column,
                None => false,
            },
        ),
        Condition::WindowInRow { window_id, row, down: _ } => Some(
            match state.window_position_by_id(*window_id) {
                Some((_, r)) => r == *row,
                None => false,
            },
        ),
        Condition::WindowFloating { window_id, floating } => Some(
            match state.windows.get(window_id) {
                Some(w) => w.is_floating == *floating,
                None => false,
            },
        ),
        Condition::WindowHeight { .. } => None,
        Condition::WindowWidth { .. } => None,
        Condition::FirstWindowFocused { window_id, workspace } => {
            let focused = window_focused(state, *window_id);
            let active = match state.workspace_by_name(workspace.as_str()) {
                Some(ws) => ws.active_window_id == Some(*window_id),
                None => false,
            };
            Some(focused && active)
        },
    }
}


// ---------------------------------------------------------------------------------
// Describing what is waited for
// ---------------------------------------------------------------------------------

/// How long the reconciler waits for a condition: ten seconds, in nanoseconds.
pub const DEFAULT_TIMEOUT_NANOS: u128 = 10_000_000_000;

/// How long niri must stay quiet around the final focus: 150 ms, in nanoseconds.
pub const STABLE_FOCUS_QUIET_NANOS: u128 = 150_000_000;

/// The text that names a condition in a timeout error; `label` names the window.
pub open spec fn wait_description(condition: Condition, label: Seq<char>) -> Seq<char> {
    let window = "window "@ + debug_quoted(label);
    match condition {
        Condition::WorkspaceActive { workspace } => "workspace "@ + debug_quoted(workspace@) + " to become active"@,
        Condition::WindowSpawned { .. } => window + " to appear"@,
        Condition::WindowOnWorkspace { workspace, .. } => window + " to move to workspace "@ + debug_quoted(workspace@),
        Condition::WindowFocused { .. } => window + " to become focused"@,
        Condition::WindowAt { column, row, .. } => window + " to reach column "@ + decimal(column as nat) + " row "@
            + decimal(row as nat),
        Condition::WindowStackedAt { column, row, .. } => window + " to reach column "@ + decimal(column as nat)
            + " row "@ + decimal(row as nat),
        Condition::WindowInColumn { column, .. } => window + " to move to helper column "@ + decimal(column as nat),
        Condition::WindowInRow { row, down, .. } => window + (if down { " to move down to row "@ } else {
            " to move up to row "@
        }) + decimal(row as nat),
        Condition::WindowFloating { floating, .. } => window + " floating state to become "@ + (if floating {
            "true"@
        } else {
            "false"@
        }),
        Condition::WindowHeight { height, .. } => window + " height to become "@ + signed_decimal(height as int),
        Condition::WindowWidth { width, .. } => window + " width to become "@ + signed_decimal(width as int),
        Condition::FirstWindowFocused { workspace, .. } => "workspace "@ + debug_quoted(workspace@) + " first window "@
            + debug_quoted(label) + " to become focused"@,
    }
}

/// The text that names a wait for quiet: before the final focus of the run, or of the
/// workspace named `workspace`.
pub open spec fn quiet_description(workspace: Option<Seq<char>>) -> Seq<char> {
    match workspace {
        None => "event stream to settle before final focus"@,
        Some(name) => "workspace "@ + debug_quoted(name) + " to settle before final focus"@,
    }
}

/// Builds the text that names `condition` in a timeout error.
pub fn describe(condition: &Condition, label: &String) -> (r: String)
    ensures
        r@ == wait_description(*condition, label@),
{
    let quoted = quote_debug(label);
    let mut r = String::new();
    match condition {
        Condition::WorkspaceActive { workspace } => {
            r.append("workspace ");
            r.append(quote_debug(workspace).as_str());
            r.append(" to become active");
        },
        Condition::FirstWindowFocused { workspace, .. } => {
            r.append("workspace ");
            r.append(quote_debug(workspace).as_str());
            r.append(" first window ");
            r.append(quoted.as_str());
            r.append(" to become focused");
        },
        _ => {
            r.append("window ");
            r.append(quoted.as_str());
            match condition {
                Condition::WindowSpawned { .. } => r.append(" to appear"),
                Condition::WindowOnWorkspace { workspace, .. } => {
                    r.append(" to move to workspace ");
                    r.append(quote_debug(workspace).as_str());
                },
                Condition::WindowFocused { .. } => r.append(" to become focused"),
                Condition::WindowAt { column, row, .. } | Condition::WindowStackedAt { column, row, .. } => {
                    r.append(" to reach column ");
                    r.append(usize_text(*column).as_str());
                    r.append(" row ");
                    r.append(usize_text(*row).as_str());
                },
                Condition::WindowInColumn { column, .. } => {
                    r.append(" to move to helper column ");
                    r.append(usize_text(*column).as_str());
                },
                Condition::WindowInRow { row, down, .. } => {
                    if *down {
                        r.append(" to move down to row ");
                    } else {
                        r.append(" to move up to row ");
                    }
                    r.append(usize_text(*row).as_str());
                },
                Condition::WindowFloating { floating, .. } => {
                    r.append(" floating state to become ");
                    if *floating {
                        r.append("true");
                    } else {
                        r.append("false");
                    }
                },
                Condition::WindowHeight { height, .. } => {
                    r.append(" height to become ");
                    r.append(i32_text(*height).as_str());
                },
                Condition::WindowWidth { width, .. } => {
                    r.append(" width to become ");
                    r.append(i32_text(*width).as_str());
                },
                _ => {},
            }
        },
    }
    assert(r@ =~= wait_description(*condition, label@));
    r
}

/// Builds the text that names a wait for quiet.
pub fn describe_quiet(workspace: &Option<String>) -> (r: String)
    ensures
        r@ == quiet_description(match workspace {
            Some(name) => Some(name@),
            None => None,
        }),
{
    let mut r = String::new();
    match workspace {
        None => r.append("event stream to settle before final focus"),
        Some(name) => {
            r.append("workspace ");
            r.append(quote_debug(name).as_str());
            r.append(" to settle before final focus");
        },
    }
    assert(r@ =~= quiet_description(match workspace {
        Some(name) => Some(name@),
        None => None,
    }));
    r
}


// ---------------------------------------------------------------------------------
// The reconciler
// ---------------------------------------------------------------------------------

/// One pending step of the run. Workspaces, columns and rows are indices into the
/// config, counted from zero; niri counts columns and rows from one.
#[derive(Debug, Clone, Copy, PartialEq, Eq)]
pub enum Step {
    /// Reconcile the workspaces from `ws` on.
    RunWorkspaces { ws: usize },
    /// Wait for quiet before the final focus.
    RunQuiet,
    /// Focus the first window of the workspaces from `ws` on, then of the first again.
    FinalizeFocus { ws: usize },
    /// Check that the workspace is known, then reconcile it.
    WorkspaceStart { ws: usize },
    /// Reconcile the columns from `col` on, then focus the first window.
    WorkspaceColumns { ws: usize, col: usize },
    /// Ask niri to focus the workspace.
    Activate { ws: usize },
    /// Wait for the workspace to become active.
    ActivateWait { ws: usize },
    /// Check that the column has windows.
    ColumnStart { ws: usize, col: usize },
    /// Bring in and place the windows from `row` on.
    ColumnRow { ws: usize, col: usize, row: usize },
    /// Find a known window for the spec at `row` (the state was just refreshed).
    ResolveDecide { ws: usize, col: usize, row: usize },
    /// Use the window found for `row`, or spawn one.
    ColumnResolved { ws: usize, col: usize, row: usize },
    /// Wait for the spawned window.
    ColumnSpawnWait { ws: usize, col: usize, row: usize },
    /// Take the spawned window.
    ColumnSpawned { ws: usize, col: usize, row: usize },
    /// The workspace is active: move the window to it if needed.
    ColumnActivated { ws: usize, col: usize, row: usize, id: u64 },
    /// Wait for the window to arrive on the workspace.
    ColumnMoveWait { ws: usize, col: usize, row: usize, id: u64 },
    /// The window is present: place it.
    ColumnPlace { ws: usize, col: usize, row: usize, id: u64 },
    /// Give the window its floating state.
    Floating { ws: usize, col: usize, row: usize, id: u64 },
    /// Wait for the floating state.
    FloatingWait { ws: usize, col: usize, row: usize, id: u64 },
    /// The first window of a column has its floating state.
    PrimaryAfterFloat { ws: usize, col: usize, id: u64 },
    /// The first window is in row one: move its column into place if needed.
    PrimaryAfterRow { ws: usize, col: usize, id: u64 },
    /// Focus the first window.
    PrimaryFocus { ws: usize, col: usize, id: u64 },
    /// Wait for the focus.
    PrimaryFocusWait { ws: usize, col: usize, id: u64 },
    /// Move the column to its index.
    PrimaryMove { ws: usize, col: usize, id: u64 },
    /// Wait for the window to reach its place.
    PrimaryMoveWait { ws: usize, col: usize, id: u64 },
    /// A stacked window has its floating state.
    StackedAfterFloat { ws: usize, col: usize, row: usize, id: u64 },
    /// Focus the window, which is in column `cur`.
    StackedFocus { ws: usize, col: usize, row: usize, id: u64, cur: usize },
    /// Wait for the focus.
    StackedFocusWait { ws: usize, col: usize, row: usize, id: u64, cur: usize },
    /// Move the window's column right of the target column if needed.
    StackedHelper { ws: usize, col: usize, row: usize, id: u64, cur: usize },
    /// Wait for the window to reach the helper column.
    StackedHelperWait { ws: usize, col: usize, row: usize, id: u64 },
    /// Check the helper column, then focus the target column.
    StackedCheck { ws: usize, col: usize, row: usize, id: u64 },
    /// Consume the window into the target column.
    StackedConsume { ws: usize, col: usize, row: usize, id: u64 },
    /// Wait for the window to reach its place.
    StackedConsumeWait { ws: usize, col: usize, row: usize, id: u64 },
    /// Move the window to row `target` of its column, one row at a time.
    RowCheck { ws: usize, col: usize, row: usize, id: u64, target: usize },
    /// Wait for the focus; the window is in row `cur`.
    RowFocusWait { ws: usize, col: usize, row: usize, id: u64, target: usize, cur: usize },
    /// Move the window one row toward `target`.
    RowMove { ws: usize, col: usize, row: usize, id: u64, target: usize, cur: usize },
    /// Wait for the window to reach row `next`.
    RowMoveWait { ws: usize, col: usize, row: usize, id: u64, target: usize, next: usize, down: bool },
    /// Set the column's width when it holds a tiled window.
    ColumnWidth { ws: usize, col: usize },
    /// Focus the column.
    ColumnWidthFocus { ws: usize, col: usize },
    /// Set the column's width.
    ColumnWidthSet { ws: usize, col: usize },
    /// Apply floating state and sizes to the placed windows from `k` on.
    ColumnApply { ws: usize, col: usize, k: usize },
    /// Set the width of a floating window.
    ColumnApplyWidth { ws: usize, col: usize, k: usize, id: u64 },
    /// Wait for a fixed width.
    ColumnWidthWait { ws: usize, col: usize, k: usize, id: u64 },
    /// Set the window's height.
    ColumnApplyHeight { ws: usize, col: usize, k: usize, id: u64 },
    /// Wait for a fixed height.
    ColumnHeightWait { ws: usize, col: usize, k: usize, id: u64 },
    /// Focus the first window of the workspace, if it declares one.
    FocusFirst { ws: usize },
    /// Use the window found for the first spec.
    FocusFirstResolved { ws: usize },
    /// Wait for quiet.
    FocusFirstQuiet { ws: usize, id: u64 },
    /// Focus the window.
    FocusFirstFocus { ws: usize, id: u64 },
    /// Wait for the focus to hold.
    FocusFirstWait { ws: usize, id: u64 },
}

/// The number of columns of workspace `ws`.
pub open spec fn column_count(c: Config, ws: int) -> int {
    c.workspaces@[ws].columns@.len() as int
}

/// The number of windows of column `col` of workspace `ws`.
pub open spec fn row_count(c: Config, ws: int, col: int) -> int {
    c.workspaces@[ws].columns@[col].windows@.len() as int
}

/// The window spec at (`ws`, `col`, `row`).
pub open spec fn spec_at(c: Config, ws: int, col: int, row: int) -> WindowSpec {
    c.workspaces@[ws].columns@[col].windows@[row]
}

/// `ws` indexes a workspace.
pub open spec fn ws_in(c: Config, ws: usize) -> bool {
    ws < c.workspaces@.len()
}

/// `col` indexes a column of workspace `ws`.
pub open spec fn col_in(c: Config, ws: usize, col: usize) -> bool {
    ws_in(c, ws) && col < column_count(c, ws as int)
}

/// `row` indexes a window of column `col` of workspace `ws`.
pub open spec fn row_in(c: Config, ws: usize, col: usize, row: usize) -> bool {
    col_in(c, ws, col) && row < row_count(c, ws as int, col as int)
}

/// The config's column counts leave room for the helper column right of the last one.
pub open spec fn config_fits(c: Config) -> bool {
    forall|ws: int| 0 <= ws < c.workspaces@.len() ==> column_count(c, ws) + 2 <= usize::MAX
}

/// A workspace of the config is named `name`.
pub open spec fn configured_workspace(c: Config, name: Seq<char>) -> bool {
    exists|ws: int| 0 <= ws < c.workspaces@.len() && #[trigger] c.workspaces@[ws].name@ == name
}

/// A window spec of the config has the command `command`.
pub open spec fn configured_command(c: Config, command: Seq<String>) -> bool {
    exists|ws: int, col: int, row: int|
        0 <= ws < c.workspaces@.len() && 0 <= col < column_count(c, ws) && 0 <= row < row_count(c, ws, col)
            && (#[trigger] spec_at(c, ws, col, row)).command@ == command
}

/// A column of the config has no windows.
pub open spec fn config_has_empty_column(c: Config) -> bool {
    exists|ws: int, col: int| 0 <= ws < c.workspaces@.len() && 0 <= col < column_count(c, ws)
        && #[trigger] row_count(c, ws, col) == 0
}

spec fn step_ok(c: Config, s: Step) -> bool {
    match s {
        Step::RunWorkspaces { ws } => ws <= c.workspaces@.len(),
        Step::RunQuiet => true,
        Step::FinalizeFocus { ws } => ws <= c.workspaces@.len(),
        Step::WorkspaceStart { ws } => ws_in(c, ws),
        Step::WorkspaceColumns { ws, col } => ws_in(c, ws) && col <= column_count(c, ws as int),
        Step::Activate { ws } => ws_in(c, ws),
        Step::ActivateWait { ws } => ws_in(c, ws),
        Step::ColumnStart { ws, col } => col_in(c, ws, col),
        Step::ColumnRow { ws, col, row } => col_in(c, ws, col) && row <= row_count(c, ws as int, col as int),
        Step::ResolveDecide { ws, col, row } => row_in(c, ws, col, row),
        Step::ColumnResolved { ws, col, row } => row_in(c, ws, col, row),
        Step::ColumnSpawnWait { ws, col, row } => row_in(c, ws, col, row),
        Step::ColumnSpawned { ws, col, row } => row_in(c, ws, col, row),
        Step::ColumnActivated { ws, col, row, .. } => row_in(c, ws, col, row),
        Step::ColumnMoveWait { ws, col, row, .. } => row_in(c, ws, col, row),
        Step::ColumnPlace { ws, col, row, .. } => row_in(c, ws, col, row),
        Step::Floating { ws, col, row, .. } => row_in(c, ws, col, row),
        Step::FloatingWait { ws, col, row, .. } => row_in(c, ws, col, row),
        Step::PrimaryAfterFloat { ws, col, .. } => row_in(c, ws, col, 0),
        Step::PrimaryAfterRow { ws, col, .. } => row_in(c, ws, col, 0),
        Step::PrimaryFocus { ws, col, .. } => row_in(c, ws, col, 0),
        Step::PrimaryFocusWait { ws, col, .. } => row_in(c, ws, col, 0),
        Step::PrimaryMove { ws, col, .. } => row_in(c, ws, col, 0),
        Step::PrimaryMoveWait { ws, col, .. } => row_in(c, ws, col, 0),
        Step::StackedAfterFloat { ws, col, row, .. } => row_in(c, ws, col, row) && row > 0,
        Step::StackedFocus { ws, col, row, .. } => row_in(c, ws, col, row) && row > 0,
        Step::StackedFocusWait { ws, col, row, .. } => row_in(c, ws, col, row) && row > 0,
        Step::StackedHelper { ws, col, row, .. } => row_in(c, ws, col, row) && row > 0,
        Step::StackedHelperWait { ws, col, row, .. } => row_in(c, ws, col, row) && row > 0,
        Step::StackedCheck { ws, col, row, .. } => row_in(c, ws, col, row) && row > 0,
        Step::StackedConsume { ws, col, row, .. } => row_in(c, ws, col, row) && row > 0,
        Step::StackedConsumeWait { ws, col, row, .. } => row_in(c, ws, col, row) && row > 0,
        Step::RowCheck { ws, col, row, .. } => row_in(c, ws, col, row),
        Step::RowFocusWait { ws, col, row, target, cur, .. } => row_in(c, ws, col, row) && cur != target,
        Step::RowMove { ws, col, row, target, cur, .. } => row_in(c, ws, col, row) && cur != target,
        Step::RowMoveWait { ws, col, row, .. } => row_in(c, ws, col, row),
        Step::ColumnWidth { ws, col } => col_in(c, ws, col),
        Step::ColumnWidthFocus { ws, col } => col_in(c, ws, col),
        Step::ColumnWidthSet { ws, col } => col_in(c, ws, col),
        Step::ColumnApply { ws, col, .. } => col_in(c, ws, col),
        Step::ColumnApplyWidth { ws, col, k, .. } => row_in(c, ws, col, k),
        Step::ColumnWidthWait { ws, col, k, .. } => row_in(c, ws, col, k),
        Step::ColumnApplyHeight { ws, col, k, .. } => row_in(c, ws, col, k),
        Step::ColumnHeightWait { ws, col, k, .. } => row_in(c, ws, col, k),
        Step::FocusFirst { ws } => ws_in(c, ws),
        Step::FocusFirstResolved { ws } => row_in(c, ws, 0, 0),
        Step::FocusFirstQuiet { ws, .. } => row_in(c, ws, 0, 0),
        Step::FocusFirstFocus { ws, .. } => row_in(c, ws, 0, 0),
        Step::FocusFirstWait { ws, .. } => row_in(c, ws, 0, 0),
    }
}

/// Drives niri toward the declared layout, one command at a time (see the module
/// documentation). It holds the config, the runtime state it records windows in, the
/// latest snapshot of niri's state, and the steps still to take.
pub struct Reconciler {
    config: Config,
    runtime_state: RuntimeState,
    state: ActualState,
    stack: Vec<Step>,
    resolved: Option<u64>,
    before: Vec<u64>,
    placed: Vec<u64>,
}

impl Reconciler {
    /// The reconciler's invariant: a well-formed snapshot, a config that fits, and
    /// steps that index into the config.
    pub closed spec fn wf(&self) -> bool {
        &&& self.state.well_formed()
        &&& config_fits(self.config)
        &&& forall|i: int| 0 <= i < self.stack@.len() ==> step_ok(self.config, #[trigger] self.stack@[i])
    }

    /// The declared layout being reconciled.
    pub closed spec fn spec_config(&self) -> Config {
        self.config
    }

    /// The latest snapshot of niri's state.
    pub closed spec fn spec_state(&self) -> ActualState {
        self.state
    }

    /// The runtime state the reconciler records windows in.
    pub closed spec fn spec_runtime(&self) -> RuntimeState {
        self.runtime_state
    }

    /// A run is under way: steps remain.
    pub closed spec fn running(&self) -> bool {
        self.stack@.len() > 0
    }

    /// The steps still to take, the current one last.
    pub closed spec fn spec_stack(&self) -> Seq<Step> {
        self.stack@
    }

    /// The window found by the latest lookup of a configured window.
    pub closed spec fn spec_resolved(&self) -> Option<u64> {
        self.resolved
    }

    /// The ids of the windows known before the latest spawn.
    pub closed spec fn spec_before(&self) -> Seq<u64> {
        self.before@
    }

    /// The windows placed so far in the current column, top to bottom.
    pub closed spec fn spec_placed(&self) -> Seq<u64> {
        self.placed@
    }

    /// A reconciler for the runtime state `runtime_state` and niri's state `state`, with
    /// no run under way.
    pub fn new(runtime_state: RuntimeState, state: ActualState) -> (r: Self)
        requires
            state.well_formed(),
        ensures
            r.wf(),
            !r.running(),
            r.spec_resolved() is None,
            r.spec_before().len() == 0,
            r.spec_placed().len() == 0,
            r.spec_runtime() == runtime_state,
            r.spec_state() == state,
            r.spec_config().workspaces@.len() == 0,
    {
        Reconciler {
            config: Config { workspaces: Vec::new() },
            runtime_state,
            state,
            stack: Vec::new(),
            resolved: None,
            before: Vec::new(),
            placed: Vec::new(),
        }
    }

    /// Starts a run toward `config`: each workspace in turn, then the final focus.
    pub fn run(&mut self, config: Config)
        requires
            old(self).wf(),
            config_fits(config),
        ensures
            final(self).wf(),
            final(self).running(),
            final(self).spec_stack() == seq![Step::RunWorkspaces { ws: 0 }],
            final(self).spec_resolved() is None,
            final(self).spec_placed().len() == 0,
            final(self).spec_config() == config,
            final(self).spec_state() == old(self).spec_state(),
            final(self).spec_runtime() == old(self).spec_runtime(),
    {
        self.config = config;
        self.stack = Vec::new();
        self.stack.push(Step::RunWorkspaces { ws: 0 });
        self.resolved = None;
        self.placed = Vec::new();
    }

    /// Takes a new snapshot of niri's state. The caller reports the state after each
    /// wait and after `Command::Sync`.
    pub fn observe(&mut self, state: ActualState)
        requires
            old(self).wf(),
            state.well_formed(),
        ensures
            final(self).wf(),
            final(self).spec_state() == state,
            final(self).spec_config() == old(self).spec_config(),
            final(self).spec_runtime() == old(self).spec_runtime(),
            final(self).running() == old(self).running(),
    {
        self.state = state;
    }

    /// The latest snapshot of niri's state.
    pub fn state(&self) -> (r: &ActualState)
        ensures
            *r == self.spec_state(),
    {
        &self.state
    }

    /// The runtime state, with the windows recorded so far.
    pub fn runtime_state(&self) -> (r: &RuntimeState)
        ensures
            *r == self.spec_runtime(),
    {
        &self.runtime_state
    }
}


// ---------------------------------------------------------------------------------
// What each step promises
// ---------------------------------------------------------------------------------

/// The window `id` is on the workspace named `name`.
pub open spec fn on_workspace(state: ActualState, id: u64, name: Seq<char>) -> bool {
    match state.spec_workspace_id_by_name(name) {
        Some(ws) => state.windows@.contains_key(id) && state.windows@[id].workspace_id == Some(ws),
        None => false,
    }
}

/// `key` is the position of the configured window `spec`: workspace name, column and
/// row counted from one.
pub open spec fn configured_at(c: Config, key: WindowKey, spec: WindowSpec) -> bool {
    exists|ws: int, col: int, row: int|
        0 <= ws < c.workspaces@.len() && 0 <= col < column_count(c, ws) && 0 <= row < row_count(c, ws, col)
            && #[trigger] spec_at(c, ws, col, row) == spec && key.workspace@ == c.workspaces@[ws].name@
            && key.column == col + 1 && key.row == row + 1
}

/// The runtime state went from `before` to `after` by recording, for a configured
/// window, a window that the snapshot `state` shows.
pub open spec fn records_window(c: Config, state: ActualState, before: RuntimeState, after: RuntimeState) -> bool {
    &&& after.version == before.version
    &&& exists|key: WindowKey, spec: WindowSpec, st: StoredWindow|
        #![trigger stored_for(st, key, spec, state.windows@[st.window_id])]
        configured_at(c, key, spec) && state.windows@.contains_key(st.window_id)
            && stored_for(st, key, spec, state.windows@[st.window_id])
            && stably_sorted(replace_or_push(before.windows@, st), after.windows@)
}

/// What an action chosen for `c` from the snapshot `state` satisfies: a workspace to
/// focus or move to is configured, a command to spawn is a configured window's, a
/// window is moved only when it is elsewhere, its floating state changed only when it
/// differs, and columns are counted from one.
pub open spec fn action_justified(c: Config, state: ActualState, action: NiriAction) -> bool {
    match action {
        NiriAction::Spawn { command } => configured_command(c, command@),
        NiriAction::FocusWorkspace { workspace } => configured_workspace(c, workspace@),
        NiriAction::MoveWindowToWorkspace { window_id, workspace } => configured_workspace(c, workspace@)
            && !on_workspace(state, window_id, workspace@),
        NiriAction::MoveWindowToFloating { id } => state.windows@.contains_key(id) && !state.windows@[id].is_floating,
        NiriAction::MoveWindowToTiling { id } => state.windows@.contains_key(id) && state.windows@[id].is_floating,
        NiriAction::FocusColumn { index } => 1 <= index,
        NiriAction::MoveColumnToIndex { index } => 1 <= index,
        _ => true,
    }
}

/// What a failure of a run toward `c` in the snapshot `state` satisfies: a missing
/// workspace is configured and unknown to niri, a column that is not adjacent holds a
/// window and is not right of the target, a validation failure names a column without
/// windows; no other error comes from a step.
pub open spec fn failure_justified(c: Config, state: ActualState, error: NiriAutostartError) -> bool {
    match error {
        NiriAutostartError::MissingWorkspace(name) => configured_workspace(c, name@)
            && state.spec_workspace_id_by_name(name@) is None,
        NiriAutostartError::NonAdjacentColumn { actual, expected_left, .. } => actual != expected_left + 1
            && exists|id: u64| #[trigger] state.windows@.contains_key(id)
                && (state.windows@[id].layout.pos_in_scrolling_layout matches Some(p) && p.0 == actual),
        NiriAutostartError::Validation(message) => message@ == "column without windows"@
            && config_has_empty_column(c),
        NiriAutostartError::MissingWindow(_) => true,
        _ => false,
    }
}

/// What one call of `next_command` promises, from the reconciler `before` to `after`
/// with the command `cmd`: the config and snapshot stay; `Done` comes exactly when no
/// run is under way, and neither `Done` nor a failure changes anything; the runtime
/// state changes only with `Persist`, by recording a window; actions and failures are
/// justified by the snapshot.
pub open spec fn step_facts(before: Reconciler, after: Reconciler, cmd: Command) -> bool {
    &&& after.spec_config() == before.spec_config()
    &&& after.spec_state() == before.spec_state()
    &&& (cmd is Done <==> !before.running())
    &&& (cmd is Done ==> after == before)
    &&& (cmd is Fail ==> after == before)
    &&& (!(cmd is Persist) ==> after.spec_runtime() == before.spec_runtime())
    &&& match cmd {
        Command::Act { action } => action_justified(before.spec_config(), before.spec_state(), action),
        Command::Fail { error } => failure_justified(before.spec_config(), before.spec_state(), error),
        Command::Persist => records_window(
            before.spec_config(),
            before.spec_state(),
            before.spec_runtime(),
            after.spec_runtime(),
        ),
        _ => true,
    }
}

impl Reconciler {
    /// Everything but the steps is the same in `a` and `b`.
    spec fn same_but_stack(a: Reconciler, b: Reconciler) -> bool {
        &&& a.config == b.config
        &&& a.runtime_state == b.runtime_state
        &&& a.state == b.state
        &&& a.resolved == b.resolved
        &&& a.before == b.before
        &&& a.placed == b.placed
    }

    fn replace_top(&mut self, s: Step)
        requires
            old(self).wf(),
            old(self).running(),
            step_ok(old(self).config, s),
        ensures
            final(self).wf(),
            final(self).running(),
            Self::same_but_stack(*old(self), *final(self)),
            final(self).stack@ == old(self).stack@.update(old(self).stack@.len() - 1, s),
    {
        let last = self.stack.len() - 1;
        self.stack.set(last, s);
    }

    fn push_step(&mut self, s: Step)
        requires
            old(self).wf(),
            step_ok(old(self).config, s),
        ensures
            final(self).wf(),
            final(self).running(),
            Self::same_but_stack(*old(self), *final(self)),
            final(self).stack@ == old(self).stack@.push(s),
    {
        self.stack.push(s);
    }

    fn pop_step(&mut self)
        requires
            old(self).wf(),
            old(self).running(),
        ensures
            final(self).wf(),
            Self::same_but_stack(*old(self), *final(self)),
            final(self).stack@ == old(self).stack@.drop_last(),
    {
        self.stack.pop();
    }

    /// Replaces the current step by `cont`, then takes `callee` first.
    fn call(&mut self, cont: Step, callee: Step)
        requires
            old(self).wf(),
            old(self).running(),
            step_ok(old(self).config, cont),
            step_ok(old(self).config, callee),
        ensures
            final(self).wf(),
            final(self).running(),
            Self::same_but_stack(*old(self), *final(self)),
            final(self).stack@ == old(self).stack@.update(old(self).stack@.len() - 1, cont).push(callee),
    {
        self.replace_top(cont);
        self.push_step(callee);
    }

    fn ws_name(&self, ws: usize) -> (r: String)
        requires
            ws_in(self.config, ws),
        ensures
            r@ == self.config.workspaces@[ws as int].name@,
    {
        crate::model::copy_string(&self.config.workspaces[ws].name)
    }

    fn key(&self, ws: usize, col: usize, row: usize) -> (k: WindowKey)
        requires
            row_in(self.config, ws, col, row),
        ensures
            k.workspace@ == self.config.workspaces@[ws as int].name@,
            k.column == col + 1,
            k.row == row + 1,
            configured_at(self.config, k, spec_at(self.config, ws as int, col as int, row as int)),
    {
        let columns = self.config.workspaces[ws].columns.len();
        let rows = self.config.workspaces[ws].columns[col].windows.len();
        assert(col < columns && row < rows);
        let k = WindowKey::new(self.config.workspaces[ws].name.as_str(), col + 1, row + 1);
        assert(spec_at(self.config, ws as int, col as int, row as int) == spec_at(
            self.config,
            ws as int,
            col as int,
            row as int,
        ));
        k
    }

    fn label(&self, ws: usize, col: usize, row: usize) -> (r: String)
        requires
            row_in(self.config, ws, col, row),
        ensures
            r@ == window_label(
                self.config.workspaces@[ws as int].name@,
                (col + 1) as nat,
                (row + 1) as nat,
                spec_at(self.config, ws as int, col as int, row as int).app_id@,
            ),
    {
        let key = self.key(ws, col, row);
        label_of(&key, &self.config.workspaces[ws].columns[col].windows[row])
    }

    /// Records in the runtime state that window `id` was placed for the spec at
    /// (`ws`, `col`, `row`); `false`, changing nothing, when the snapshot has no such
    /// window.
    fn record_window(&mut self, ws: usize, col: usize, row: usize, id: u64) -> (r: bool)
        requires
            old(self).wf(),
            row_in(old(self).config, ws, col, row),
        ensures
            final(self).wf(),
            final(self).config == old(self).config,
            final(self).state == old(self).state,
            final(self).stack == old(self).stack,
            final(self).resolved == old(self).resolved,
            final(self).before == old(self).before,
            final(self).placed == old(self).placed,
            r == old(self).state.windows@.contains_key(id),
            !r ==> final(self).runtime_state == old(self).runtime_state,
            r ==> records_window(old(self).config, old(self).state, old(self).runtime_state, final(self).runtime_state),
            r ==> recorded_at(
                old(self).runtime_state,
                final(self).runtime_state,
                key_at(old(self).config, ws, col, row),
                spec_at(old(self).config, ws as int, col as int, row as int),
                old(self).state.windows@[id],
            ),
    {
        let key = self.key(ws, col, row);
        let ghost old_rt = self.runtime_state;
        match self.state.windows.get(&id) {
            None => false,
            Some(w) => {
                let spec = &self.config.workspaces[ws].columns[col].windows[row];
                self.runtime_state.record(&key, spec, w);
                proof {
                    let st = choose|st: StoredWindow| stored_for(st, key, *spec, *w)
                        && stably_sorted(replace_or_push(old_rt.windows@, st), self.runtime_state.windows@);
                    assert(self.state.windows@[st.window_id] == *w);
                    assert(stored_for(st, key, *spec, self.state.windows@[st.window_id]));
                }
                true
            },
        }
    }
}


/// Which of the step functions takes a step.
spec fn step_group(s: Step) -> int {
    match s {
        Step::RunWorkspaces { .. } | Step::RunQuiet | Step::FinalizeFocus { .. } | Step::WorkspaceStart { .. }
        | Step::WorkspaceColumns { .. } | Step::Activate { .. } | Step::ActivateWait { .. }
        | Step::FocusFirst { .. } | Step::FocusFirstResolved { .. } | Step::FocusFirstQuiet { .. }
        | Step::FocusFirstFocus { .. } | Step::FocusFirstWait { .. } => 0,
        Step::ColumnStart { .. } | Step::ColumnRow { .. } | Step::ResolveDecide { .. } | Step::ColumnResolved { .. }
        | Step::ColumnSpawnWait { .. } | Step::ColumnSpawned { .. } | Step::ColumnActivated { .. }
        | Step::ColumnMoveWait { .. } | Step::ColumnPlace { .. } => 1,
        Step::Floating { .. } | Step::FloatingWait { .. } | Step::PrimaryAfterFloat { .. }
        | Step::PrimaryAfterRow { .. } | Step::PrimaryFocus { .. } | Step::PrimaryFocusWait { .. }
        | Step::PrimaryMove { .. } | Step::PrimaryMoveWait { .. } | Step::StackedAfterFloat { .. }
        | Step::StackedFocus { .. } | Step::StackedFocusWait { .. } | Step::StackedHelper { .. }
        | Step::StackedHelperWait { .. } | Step::StackedCheck { .. } | Step::StackedConsume { .. }
        | Step::StackedConsumeWait { .. } => 2,
        _ => 3,
    }
}

/// Whether a column holds a window that is not floating.
fn column_has_tiled(windows: &Vec<WindowSpec>) -> (r: bool)
    ensures
        r == exists|k: int| 0 <= k < windows@.len() && !(#[trigger] windows@[k]).floating,
{
    let mut i: usize = 0;
    while i < windows.len()
        invariant
            i <= windows.len(),
            forall|k: int| 0 <= k < i ==> (#[trigger] windows@[k]).floating,
        decreases windows.len() - i,
    {
        if !windows[i].floating {
            return true;
        }
        i += 1;
    }
    false
}

fn copy_ids(v: &Vec<u64>) -> (r: Vec<u64>)
    ensures
        r@ == v@,
{
    let mut r: Vec<u64> = Vec::new();
    let mut i: usize = 0;
    while i < v.len()
        invariant
            i <= v.len(),
            r@ == v@.take(i as int),
        decreases v.len() - i,
    {
        r.push(v[i]);
        i += 1;
        assert(r@ =~= v@.take(i as int));
    }
    assert(v@.take(i as int) =~= v@);
    r
}

/// How the window for a configured position was found.
#[derive(Debug, Clone, Copy, PartialEq, Eq, Structural)]
pub enum WindowMatch {
    /// The runtime state remembers it for the position, and it still fits.
    Remembered(u64),
    /// No other configured window shares its application id, and it is the best
    /// window of that application; it is to be recorded for the position.
    Adopted(u64),
    /// No window is known for the position.
    Absent,
}

/// Finds the window for the configured window `spec` at `key`: the window the runtime
/// state remembers for the position, when it still fits; else, when exactly one
/// configured window carries the application id, the best window of the application,
/// preferring the workspace named `preferred_workspace`.
pub fn window_id_by_spec(
    config: &Config,
    runtime_state: &RuntimeState,
    state: &ActualState,
    key: &WindowKey,
    spec: &WindowSpec,
    preferred_workspace: &str,
) -> (r: WindowMatch)
    requires
        state.well_formed(),
    ensures
        match r {
            WindowMatch::Remembered(id) => crate::runtime_state::spec_window_id(
                runtime_state.windows@,
                crate::runtime_state::key_view(*key),
                *spec,
                state.windows@,
            ) == Some(id),
            WindowMatch::Adopted(id) => crate::runtime_state::spec_window_id(
                runtime_state.windows@,
                crate::runtime_state::key_view(*key),
                *spec,
                state.windows@,
            ) is None && app_id_count(*config, spec.app_id@) == 1 && is_preferred_window(
                state.windows@,
                spec.app_id@,
                state.spec_workspace_id_by_name(preferred_workspace@),
                id,
            ),
            WindowMatch::Absent => crate::runtime_state::spec_window_id(
                runtime_state.windows@,
                crate::runtime_state::key_view(*key),
                *spec,
                state.windows@,
            ) is None && (app_id_count(*config, spec.app_id@) != 1 || app_window_ids(
                state.windows@,
                spec.app_id@,
            ).is_empty()),
        },
{
    if let Some(id) = runtime_state.window_id(key, spec, state) {
        return WindowMatch::Remembered(id);
    }
    if !app_id_unique(config, &spec.app_id) {
        return WindowMatch::Absent;
    }
    let found = match state.preferred_window_id_by_app_id(spec.app_id.as_str(), Some(preferred_workspace)) {
        Some(id) => Some(id),
        None => state.preferred_window_id_by_app_id(spec.app_id.as_str(), None),
    };
    match found {
        Some(id) => WindowMatch::Adopted(id),
        None => WindowMatch::Absent,
    }
}

impl Reconciler {
    /// Takes the next step of the run and says what the caller does next.
    pub fn next_command(&mut self) -> (cmd: Command)
        requires
            old(self).wf(),
        ensures
            final(self).wf(),
            step_facts(*old(self), *final(self), cmd),
            next_step(*old(self), *final(self), cmd),
    {
        if self.stack.len() == 0 {
            return Command::Done;
        }
        let s = self.stack[self.stack.len() - 1];
        match s {
            Step::ResolveDecide { ws, col, row } => self.resolve(ws, col, row),
            Step::RunWorkspaces { .. } | Step::RunQuiet | Step::FinalizeFocus { .. } | Step::WorkspaceStart { .. }
            | Step::WorkspaceColumns { .. } | Step::Activate { .. } | Step::ActivateWait { .. }
            | Step::FocusFirst { .. } | Step::FocusFirstResolved { .. } | Step::FocusFirstQuiet { .. }
            | Step::FocusFirstFocus { .. } | Step::FocusFirstWait { .. } => self.step_run(s),
            Step::ColumnStart { .. } | Step::ColumnRow { .. } | Step::ColumnResolved { .. }
            | Step::ColumnSpawnWait { .. } | Step::ColumnSpawned { .. } | Step::ColumnActivated { .. }
            | Step::ColumnMoveWait { .. } | Step::ColumnPlace { .. } => self.step_column(s),
            Step::Floating { .. } | Step::FloatingWait { .. } | Step::PrimaryAfterFloat { .. }
            | Step::PrimaryAfterRow { .. } | Step::PrimaryFocus { .. } | Step::PrimaryFocusWait { .. }
            | Step::PrimaryMove { .. } | Step::PrimaryMoveWait { .. } | Step::StackedAfterFloat { .. }
            | Step::StackedFocus { .. } | Step::StackedFocusWait { .. } | Step::StackedHelper { .. }
            | Step::StackedHelperWait { .. } | Step::StackedCheck { .. } | Step::StackedConsume { .. }
            | Step::StackedConsumeWait { .. } => self.step_place(s),
            _ => self.step_size(s),
        }
    }

    /// Finds the window for the spec at (`ws`, `col`, `row`) in the refreshed snapshot:
    /// the one the runtime state remembers for the position when it still fits; else,
    /// when no other configured window shares the application id, the best window of
    /// that application (preferring the workspace), which is then recorded.
    fn resolve(&mut self, ws: usize, col: usize, row: usize) -> (cmd: Command)
        requires
            old(self).wf(),
            old(self).running(),
            old(self).stack@[old(self).stack@.len() - 1] == (Step::ResolveDecide { ws, col, row }),
        ensures
            final(self).wf(),
            step_facts(*old(self), *final(self), cmd),
            column_step(*old(self), *final(self), Step::ResolveDecide { ws, col, row }, cmd@),
    {
        assert(step_ok(self.config, self.stack@[self.stack@.len() - 1]));
        let key = self.key(ws, col, row);
        let found = window_id_by_spec(
            &self.config,
            &self.runtime_state,
            &self.state,
            &key,
            &self.config.workspaces[ws].columns[col].windows[row],
            self.config.workspaces[ws].name.as_str(),
        );
        match found {
            WindowMatch::Remembered(id) => {
                self.resolved = Some(id);
                self.pop_step();
                Command::Proceed
            },
            WindowMatch::Adopted(id) => {
                let recorded = self.record_window(ws, col, row, id);
                assert(recorded);
                self.resolved = Some(id);
                self.pop_step();
                Command::Persist
            },
            WindowMatch::Absent => {
                self.resolved = None;
                self.pop_step();
                Command::Proceed
            },
        }
    }

    /// The steps of the run, of a workspace, and of the focus of its first window.
    fn step_run(&mut self, s: Step) -> (cmd: Command)
        requires
            old(self).wf(),
            old(self).running(),
            s == old(self).stack@[old(self).stack@.len() - 1],
            step_group(s) == 0,
        ensures
            final(self).wf(),
            step_facts(*old(self), *final(self), cmd),
            run_step(*old(self), *final(self), s, cmd@),
    {
        assert(step_ok(self.config, self.stack@[self.stack@.len() - 1]));
        match s {
            Step::RunWorkspaces { ws } => {
                if ws < self.config.workspaces.len() {
                    self.call(Step::RunWorkspaces { ws: ws + 1 }, Step::WorkspaceStart { ws });
                } else {
                    self.replace_top(Step::RunQuiet);
                }
                Command::Proceed
            },
            Step::RunQuiet => {
                self.replace_top(Step::FinalizeFocus { ws: 0 });
                Command::WaitUntilQuiet { workspace: None }
            },
            Step::FinalizeFocus { ws } => {
                if ws < self.config.workspaces.len() {
                    self.call(Step::FinalizeFocus { ws: ws + 1 }, Step::FocusFirst { ws });
                } else if self.config.workspaces.len() > 0 {
                    self.replace_top(Step::FocusFirst { ws: 0 });
                } else {
                    self.pop_step();
                }
                Command::Proceed
            },
            Step::WorkspaceStart { ws } => {
                let name = self.ws_name(ws);
                if !crate::predicate::workspace_known(&self.state, name.as_str()) {
                    return Command::Fail { error: NiriAutostartError::MissingWorkspace(name) };
                }
                self.call(Step::WorkspaceColumns { ws, col: 0 }, Step::Activate { ws });
                Command::Proceed
            },
            Step::WorkspaceColumns { ws, col } => {
                if col < self.config.workspaces[ws].columns.len() {
                    self.call(Step::WorkspaceColumns { ws, col: col + 1 }, Step::ColumnStart { ws, col });
                } else {
                    self.replace_top(Step::FocusFirst { ws });
                }
                Command::Proceed
            },
            Step::Activate { ws } => {
                let name = self.ws_name(ws);
                self.replace_top(Step::ActivateWait { ws });
                Command::Act { action: NiriAction::FocusWorkspace { workspace: name } }
            },
            Step::ActivateWait { ws } => {
                let name = self.ws_name(ws);
                let label = self.ws_name(ws);
                self.pop_step();
                Command::WaitFor { condition: Condition::WorkspaceActive { workspace: name }, label }
            },
            Step::FocusFirst { ws } => {
                if self.config.workspaces[ws].columns.len() == 0
                    || self.config.workspaces[ws].columns[0].windows.len() == 0 {
                    self.pop_step();
                    Command::Proceed
                } else {
                    self.call(Step::FocusFirstResolved { ws }, Step::ResolveDecide { ws, col: 0, row: 0 });
                    Command::Sync
                }
            },
            Step::FocusFirstResolved { ws } => {
                match self.resolved {
                    None => Command::Fail { error: NiriAutostartError::MissingWindow(self.label(ws, 0, 0)) },
                    Some(id) => {
                        self.call(Step::FocusFirstQuiet { ws, id }, Step::Activate { ws });
                        Command::Proceed
                    },
                }
            },
            Step::FocusFirstQuiet { ws, id } => {
                let name = self.ws_name(ws);
                self.replace_top(Step::FocusFirstFocus { ws, id });
                Command::WaitUntilQuiet { workspace: Some(name) }
            },
            Step::FocusFirstFocus { ws, id } => {
                self.replace_top(Step::FocusFirstWait { ws, id });
                Command::Act { action: NiriAction::FocusWindow { id } }
            },
            Step::FocusFirstWait { ws, id } => {
                let name = self.ws_name(ws);
                let label = self.label(ws, 0, 0);
                self.pop_step();
                Command::WaitForStable {
                    condition: Condition::FirstWindowFocused { window_id: id, workspace: name },
                    label,
                }
            },
            _ => Command::Proceed,
        }
    }
}


impl Reconciler {
    /// The steps that bring in the windows of a column.
    fn step_column(&mut self, s: Step) -> (cmd: Command)
        requires
            old(self).wf(),
            old(self).running(),
            s == old(self).stack@[old(self).stack@.len() - 1],
            step_group(s) == 1,
            !(s is ResolveDecide),
        ensures
            final(self).wf(),
            step_facts(*old(self), *final(self), cmd),
            column_step(*old(self), *final(self), s, cmd@),
    {
        assert(step_ok(self.config, self.stack@[self.stack@.len() - 1]));
        match s {
            Step::ColumnStart { ws, col } => {
                if self.config.workspaces[ws].columns[col].windows.len() == 0 {
                    assert(row_count(self.config, ws as int, col as int) == 0);
                    return Command::Fail { error: NiriAutostartError::Validation(text("column without windows")) };
                }
                self.placed = Vec::new();
                self.replace_top(Step::ColumnRow { ws, col, row: 0 });
                Command::Proceed
            },
            Step::ColumnRow { ws, col, row } => {
                if row < self.config.workspaces[ws].columns[col].windows.len() {
                    self.call(Step::ColumnResolved { ws, col, row }, Step::ResolveDecide { ws, col, row });
                    Command::Sync
                } else {
                    self.replace_top(Step::ColumnWidth { ws, col });
                    Command::Proceed
                }
            },
            Step::ColumnResolved { ws, col, row } => {
                match self.resolved {
                    Some(id) => {
                        self.call(Step::ColumnActivated { ws, col, row, id }, Step::Activate { ws });
                        Command::Proceed
                    },
                    None => {
                        self.before = self.state.window_ids();
                        let command = crate::config::copy_strings(&self.config.workspaces[ws].columns[col].windows[row].command);
                        assert(spec_at(self.config, ws as int, col as int, row as int).command@ == command@);
                        self.replace_top(Step::ColumnSpawnWait { ws, col, row });
                        Command::Act { action: NiriAction::Spawn { command } }
                    },
                }
            },
            Step::ColumnSpawnWait { ws, col, row } => {
                let before = copy_ids(&self.before);
                let app_id = crate::model::copy_string(&self.config.workspaces[ws].columns[col].windows[row].app_id);
                let label = self.label(ws, col, row);
                self.replace_top(Step::ColumnSpawned { ws, col, row });
                Command::WaitFor { condition: Condition::WindowSpawned { before, app_id }, label }
            },
            Step::ColumnSpawned { ws, col, row } => {
                let found = spawned_window_id_in_state(
                    &self.state,
                    &self.before,
                    &self.config.workspaces[ws].columns[col].windows[row],
                );
                match found {
                    None => Command::Fail { error: NiriAutostartError::MissingWindow(self.label(ws, col, row)) },
                    Some(id) => {
                        let recorded = self.record_window(ws, col, row, id);
                        assert(recorded);
                        self.call(Step::ColumnActivated { ws, col, row, id }, Step::Activate { ws });
                        Command::Persist
                    },
                }
            },
            Step::ColumnActivated { ws, col, row, id } => {
                let name = self.ws_name(ws);
                if crate::predicate::window_id_on_workspace(&self.state, id, name.as_str()) {
                    self.replace_top(Step::ColumnPlace { ws, col, row, id });
                    Command::Proceed
                } else {
                    self.replace_top(Step::ColumnMoveWait { ws, col, row, id });
                    Command::Act { action: NiriAction::MoveWindowToWorkspace { window_id: id, workspace: name } }
                }
            },
            Step::ColumnMoveWait { ws, col, row, id } => {
                let name = self.ws_name(ws);
                let label = self.label(ws, col, row);
                self.replace_top(Step::ColumnPlace { ws, col, row, id });
                Command::WaitFor { condition: Condition::WindowOnWorkspace { window_id: id, workspace: name }, label }
            },
            Step::ColumnPlace { ws, col, row, id } => {
                let rows = self.config.workspaces[ws].columns[col].windows.len();
                assert(row < rows);
                self.placed.push(id);
                if row == 0 {
                    self.call(Step::ColumnRow { ws, col, row: row + 1 }, Step::PrimaryAfterFloat { ws, col, id });
                } else {
                    self.call(Step::ColumnRow { ws, col, row: row + 1 }, Step::StackedAfterFloat { ws, col, row, id });
                }
                self.push_step(Step::Floating { ws, col, row, id });
                Command::Proceed
            },
            _ => Command::Proceed,
        }
    }

    /// The steps that give a window its floating state and its place in the column.
    fn step_place(&mut self, s: Step) -> (cmd: Command)
        requires
            old(self).wf(),
            old(self).running(),
            s == old(self).stack@[old(self).stack@.len() - 1],
            step_group(s) == 2,
        ensures
            final(self).wf(),
            step_facts(*old(self), *final(self), cmd),
            place_step(*old(self), *final(self), s, cmd@),
    {
        assert(step_ok(self.config, self.stack@[self.stack@.len() - 1]));
        match s {
            Step::Floating { ws, col, row, id } => {
                let floating = self.config.workspaces[ws].columns[col].windows[row].floating;
                let is_floating = match self.state.windows.get(&id) {
                    None => {
                        return Command::Fail { error: NiriAutostartError::MissingWindow(self.label(ws, col, row)) };
                    },
                    Some(w) => w.is_floating,
                };
                if is_floating == floating {
                    self.pop_step();
                    Command::Proceed
                } else {
                    self.replace_top(Step::FloatingWait { ws, col, row, id });
                    if floating {
                        Command::Act { action: NiriAction::MoveWindowToFloating { id } }
                    } else {
                        Command::Act { action: NiriAction::MoveWindowToTiling { id } }
                    }
                }
            },
            Step::FloatingWait { ws, col, row, id } => {
                let floating = self.config.workspaces[ws].columns[col].windows[row].floating;
                let label = self.label(ws, col, row);
                self.pop_step();
                Command::WaitFor { condition: Condition::WindowFloating { window_id: id, floating }, label }
            },
            Step::PrimaryAfterFloat { ws, col, id } => {
                if self.config.workspaces[ws].columns[col].windows[0].floating {
                    self.pop_step();
                } else {
                    self.call(Step::PrimaryAfterRow { ws, col, id }, Step::RowCheck { ws, col, row: 0, id, target: 1 });
                }
                Command::Proceed
            },
            Step::PrimaryAfterRow { ws, col, id } => {
                let name = self.ws_name(ws);
                if crate::predicate::window_id_at_position(&self.state, id, name.as_str(), col + 1, 1) {
                    self.pop_step();
                } else {
                    self.call(Step::PrimaryFocus { ws, col, id }, Step::Activate { ws });
                }
                Command::Proceed
            },
            Step::PrimaryFocus { ws, col, id } => {
                self.replace_top(Step::PrimaryFocusWait { ws, col, id });
                Command::Act { action: NiriAction::FocusWindow { id } }
            },
            Step::PrimaryFocusWait { ws, col, id } => {
                let label = self.label(ws, col, 0);
                self.replace_top(Step::PrimaryMove { ws, col, id });
                Command::WaitFor { condition: Condition::WindowFocused { window_id: id }, label }
            },
            Step::PrimaryMove { ws, col, id } => {
                self.replace_top(Step::PrimaryMoveWait { ws, col, id });
                Command::Act { action: NiriAction::MoveColumnToIndex { index: col + 1 } }
            },
            Step::PrimaryMoveWait { ws, col, id } => {
                let name = self.ws_name(ws);
                let label = self.label(ws, col, 0);
                self.pop_step();
                Command::WaitFor {
                    condition: Condition::WindowAt { window_id: id, workspace: name, column: col + 1, row: 1 },
                    label,
                }
            },
            Step::StackedAfterFloat { ws, col, row, id } => {
                if self.config.workspaces[ws].columns[col].windows[row].floating {
                    self.pop_step();
                    return Command::Proceed;
                }
                let name = self.ws_name(ws);
                let rows = self.config.workspaces[ws].columns[col].windows.len();
                assert(row < rows);
                if crate::predicate::window_id_at_position(&self.state, id, name.as_str(), col + 1, row + 1) {
                    self.pop_step();
                    return Command::Proceed;
                }
                match self.state.window_position_by_id(id) {
                    None => Command::Fail { error: NiriAutostartError::MissingWindow(self.label(ws, col, row)) },
                    Some((current, _)) => {
                        if current == col + 1 {
                            self.replace_top(Step::RowCheck { ws, col, row, id, target: row + 1 });
                        } else {
                            self.call(Step::StackedFocus { ws, col, row, id, cur: current }, Step::Activate { ws });
                        }
                        Command::Proceed
                    },
                }
            },
            Step::StackedFocus { ws, col, row, id, cur } => {
                self.replace_top(Step::StackedFocusWait { ws, col, row, id, cur });
                Command::Act { action: NiriAction::FocusWindow { id } }
            },
            Step::StackedFocusWait { ws, col, row, id, cur } => {
                let label = self.label(ws, col, row);
                self.replace_top(Step::StackedHelper { ws, col, row, id, cur });
                Command::WaitFor { condition: Condition::WindowFocused { window_id: id }, label }
            },
            Step::StackedHelper { ws, col, row, id, cur } => {
                assert(column_count(self.config, ws as int) + 2 <= usize::MAX);
                let desired = col + 2;
                if cur != desired {
                    self.replace_top(Step::StackedHelperWait { ws, col, row, id });
                    Command::Act { action: NiriAction::MoveColumnToIndex { index: desired } }
                } else {
                    self.replace_top(Step::StackedCheck { ws, col, row, id });
                    Command::Proceed
                }
            },
            Step::StackedHelperWait { ws, col, row, id } => {
                assert(column_count(self.config, ws as int) + 2 <= usize::MAX);
                let label = self.label(ws, col, row);
                self.replace_top(Step::StackedCheck { ws, col, row, id });
                Command::WaitFor { condition: Condition::WindowInColumn { window_id: id, column: col + 2 }, label }
            },
            Step::StackedCheck { ws, col, row, id } => {
                assert(column_count(self.config, ws as int) + 2 <= usize::MAX);
                match self.state.window_position_by_id(id) {
                    None => Command::Fail { error: NiriAutostartError::MissingWindow(self.label(ws, col, row)) },
                    Some((current, _)) => {
                        if current != col + 2 {
                            assert(self.state.windows@.contains_key(id));
                            Command::Fail {
                                error: NiriAutostartError::NonAdjacentColumn {
                                    app_id: self.label(ws, col, row),
                                    actual: current,
                                    expected_left: col + 1,
                                },
                            }
                        } else {
                            self.replace_top(Step::StackedConsume { ws, col, row, id });
                            Command::Act { action: NiriAction::FocusColumn { index: col + 1 } }
                        }
                    },
                }
            },
            Step::StackedConsume { ws, col, row, id } => {
                self.replace_top(Step::StackedConsumeWait { ws, col, row, id });
                Command::Act { action: NiriAction::ConsumeWindowIntoColumn }
            },
            Step::StackedConsumeWait { ws, col, row, id } => {
                let rows = self.config.workspaces[ws].columns[col].windows.len();
                assert(row < rows);
                let name = self.ws_name(ws);
                let label = self.label(ws, col, row);
                self.pop_step();
                Command::WaitFor {
                    condition: Condition::WindowStackedAt { window_id: id, workspace: name, column: col + 1, row: row + 1 },
                    label,
                }
            },
            _ => Command::Proceed,
        }
    }

    /// The steps that move a window between rows and that set widths and heights.
    fn step_size(&mut self, s: Step) -> (cmd: Command)
        requires
            old(self).wf(),
            old(self).running(),
            s == old(self).stack@[old(self).stack@.len() - 1],
            step_group(s) == 3,
        ensures
            final(self).wf(),
            step_facts(*old(self), *final(self), cmd),
            size_step(*old(self), *final(self), s, cmd@),
    {
        assert(step_ok(self.config, self.stack@[self.stack@.len() - 1]));
        match s {
            Step::RowCheck { ws, col, row, id, target } => {
                match self.state.window_position_by_id(id) {
                    None => Command::Fail { error: NiriAutostartError::MissingWindow(self.label(ws, col, row)) },
                    Some((_, current)) => {
                        if current == target {
                            self.pop_step();
                            Command::Proceed
                        } else {
                            self.replace_top(Step::RowFocusWait { ws, col, row, id, target, cur: current });
                            Command::Act { action: NiriAction::FocusWindow { id } }
                        }
                    },
                }
            },
            Step::RowFocusWait { ws, col, row, id, target, cur } => {
                let label = self.label(ws, col, row);
                self.replace_top(Step::RowMove { ws, col, row, id, target, cur });
                Command::WaitFor { condition: Condition::WindowFocused { window_id: id }, label }
            },
            Step::RowMove { ws, col, row, id, target, cur } => {
                if cur < target {
                    self.replace_top(Step::RowMoveWait { ws, col, row, id, target, next: cur + 1, down: true });
                    Command::Act { action: NiriAction::MoveWindowDown }
                } else {
                    self.replace_top(Step::RowMoveWait { ws, col, row, id, target, next: cur - 1, down: false });
                    Command::Act { action: NiriAction::MoveWindowUp }
                }
            },
            Step::RowMoveWait { ws, col, row, id, target, next, down } => {
                let label = self.label(ws, col, row);
                self.replace_top(Step::RowCheck { ws, col, row, id, target });
                Command::WaitFor { condition: Condition::WindowInRow { window_id: id, row: next, down }, label }
            },
            Step::ColumnWidth { ws, col } => {
                let tiled = column_has_tiled(&self.config.workspaces[ws].columns[col].windows);
                proof {
                    let windows = self.config.workspaces@[ws as int].columns@[col as int].windows@;
                    if tiled {
                        let k = choose|k: int| 0 <= k < windows.len() && !(#[trigger] windows[k]).floating;
                        assert(!spec_at(self.config, ws as int, col as int, k).floating);
                    } else {
                        assert forall|k: int| 0 <= k < row_count(self.config, ws as int, col as int) implies (
                        #[trigger] spec_at(self.config, ws as int, col as int, k)).floating by {
                            assert(windows[k].floating);
                        }
                    }
                }
                if tiled {
                    self.call(Step::ColumnWidthFocus { ws, col }, Step::Activate { ws });
                } else {
                    self.replace_top(Step::ColumnApply { ws, col, k: 0 });
                }
                Command::Proceed
            },
            Step::ColumnWidthFocus { ws, col } => {
                self.replace_top(Step::ColumnWidthSet { ws, col });
                Command::Act { action: NiriAction::FocusColumn { index: col + 1 } }
            },
            Step::ColumnWidthSet { ws, col } => {
                let change = self.config.workspaces[ws].columns[col].width;
                self.replace_top(Step::ColumnApply { ws, col, k: 0 });
                Command::Act { action: NiriAction::SetColumnWidth { change } }
            },
            Step::ColumnApply { ws, col, k } => {
                if k < self.placed.len() && k < self.config.workspaces[ws].columns[col].windows.len() {
                    let id = self.placed[k];
                    self.call(Step::ColumnApplyWidth { ws, col, k, id }, Step::Floating { ws, col, row: k, id });
                } else {
                    self.pop_step();
                }
                Command::Proceed
            },
            Step::ColumnApplyWidth { ws, col, k, id } => {
                if self.config.workspaces[ws].columns[col].windows[k].floating {
                    let change = self.config.workspaces[ws].columns[col].width;
                    self.replace_top(Step::ColumnWidthWait { ws, col, k, id });
                    Command::Act { action: NiriAction::SetWindowWidth { id, change } }
                } else {
                    self.replace_top(Step::ColumnApplyHeight { ws, col, k, id });
                    Command::Proceed
                }
            },
            Step::ColumnWidthWait { ws, col, k, id } => {
                let width = self.config.workspaces[ws].columns[col].width;
                let label = self.label(ws, col, k);
                self.replace_top(Step::ColumnApplyHeight { ws, col, k, id });
                match width {
                    SizeSpec::Fixed(w) => Command::WaitFor { condition: Condition::WindowWidth { window_id: id, width: w }, label },
                    SizeSpec::Proportion(_) => Command::Proceed,
                }
            },
            Step::ColumnApplyHeight { ws, col, k, id } => {
                let change = self.config.workspaces[ws].columns[col].windows[k].height;
                self.replace_top(Step::ColumnHeightWait { ws, col, k, id });
                Command::Act { action: NiriAction::SetWindowHeight { id, change } }
            },
            Step::ColumnHeightWait { ws, col, k, id } => {
                let rows = self.config.workspaces[ws].columns[col].windows.len();
                assert(k < rows);
                let height = self.config.workspaces[ws].columns[col].windows[k].height;
                let label = self.label(ws, col, k);
                self.replace_top(Step::ColumnApply { ws, col, k: k + 1 });
                match height {
                    SizeSpec::Fixed(h) => Command::WaitFor { condition: Condition::WindowHeight { window_id: id, height: h }, label },
                    SizeSpec::Proportion(_) => Command::Proceed,
                }
            },
            _ => Command::Proceed,
        }
    }
}


// ---------------------------------------------------------------------------------
// The step relation
// ---------------------------------------------------------------------------------

/// The name of workspace `ws` of the config.
pub open spec fn name_of(c: Config, ws: usize) -> Seq<char> {
    c.workspaces@[ws as int].name@
}

/// The label of the window spec at (`ws`, `col`, `row`).
pub open spec fn label_at(c: Config, ws: usize, col: usize, row: usize) -> Seq<char> {
    window_label(name_of(c, ws), (col + 1) as nat, (row + 1) as nat, spec_at(c, ws as int, col as int, row as int).app_id@)
}

/// The position, as a runtime-state key, of the window spec at (`ws`, `col`, `row`).
pub open spec fn key_at(c: Config, ws: usize, col: usize, row: usize) -> (Seq<char>, usize, usize) {
    (name_of(c, ws), (col + 1) as usize, (row + 1) as usize)
}

/// The runtime state went from `before` to `after` by recording `window` at position
/// `k` for the window spec `spec`.
pub open spec fn recorded_at(
    before: RuntimeState,
    after: RuntimeState,
    k: (Seq<char>, usize, usize),
    spec: WindowSpec,
    window: Window,
) -> bool {
    &&& after.version == before.version
    &&& exists|st: StoredWindow|
        #![trigger replace_or_push(before.windows@, st)]
        crate::runtime_state::key_of(st) == k && st.window_id == window.id && st.app_id@ == spec.app_id@
            && st.pid == window.pid && crate::runtime_state::texts(st.command@) == crate::runtime_state::texts(
            spec.command@,
        ) && stably_sorted(replace_or_push(before.windows@, st), after.windows@)
}

/// Only the steps changed, and no lookup, spawn, placement or record was made.
pub open spec fn keeps(b: Reconciler, a: Reconciler) -> bool {
    &&& a.spec_config() == b.spec_config()
    &&& a.spec_state() == b.spec_state()
    &&& a.spec_runtime() == b.spec_runtime()
    &&& a.spec_resolved() == b.spec_resolved()
    &&& a.spec_before() == b.spec_before()
    &&& a.spec_placed() == b.spec_placed()
}

/// The current step was replaced by `s`.
pub open spec fn replaced(b: Reconciler, a: Reconciler, s: Step) -> bool {
    keeps(b, a) && a.spec_stack() == b.spec_stack().update(b.spec_stack().len() - 1, s)
}

/// The current step was replaced by `cont`, and `callee` comes first.
pub open spec fn called(b: Reconciler, a: Reconciler, cont: Step, callee: Step) -> bool {
    keeps(b, a) && a.spec_stack() == b.spec_stack().update(b.spec_stack().len() - 1, cont).push(callee)
}

/// The current step is done.
pub open spec fn popped(b: Reconciler, a: Reconciler) -> bool {
    keeps(b, a) && a.spec_stack() == b.spec_stack().drop_last()
}

/// The step fails with `f` and changes nothing.
pub open spec fn failed(b: Reconciler, a: Reconciler, v: CommandView, f: FailureView) -> bool {
    v == CommandView::Fail(f) && a == b
}

/// The window's place in the scrolling layout, when niri knows it and it is tiled.
pub open spec fn position_of(state: ActualState, id: u64) -> Option<(usize, usize)> {
    if state.windows@.contains_key(id) {
        state.windows@[id].layout.pos_in_scrolling_layout
    } else {
        None
    }
}

/// The window is on the workspace named `name` at (`column`, `row`).
pub open spec fn at_position(state: ActualState, id: u64, name: Seq<char>, column: usize, row: usize) -> bool {
    on_workspace(state, id, name) && state.windows@[id].layout.pos_in_scrolling_layout == Some((column, row))
}

/// The steps of the run, of a workspace, and of the focus of its first window.
pub open spec fn run_step(b: Reconciler, a: Reconciler, top: Step, v: CommandView) -> bool {
    let c = b.spec_config();
    let st = b.spec_state();
    let n = c.workspaces@.len();
    match top {
        Step::RunWorkspaces { ws } => v == CommandView::Proceed && if ws < n {
            called(b, a, Step::RunWorkspaces { ws: (ws + 1) as usize }, Step::WorkspaceStart { ws })
        } else {
            replaced(b, a, Step::RunQuiet)
        },
        Step::RunQuiet => v == CommandView::WaitUntilQuiet(None) && replaced(b, a, Step::FinalizeFocus { ws: 0 }),
        Step::FinalizeFocus { ws } => v == CommandView::Proceed && if ws < n {
            called(b, a, Step::FinalizeFocus { ws: (ws + 1) as usize }, Step::FocusFirst { ws })
        } else if n > 0 {
            replaced(b, a, Step::FocusFirst { ws: 0 })
        } else {
            popped(b, a)
        },
        Step::WorkspaceStart { ws } => if st.spec_workspace_id_by_name(name_of(c, ws)) is None {
            failed(b, a, v, FailureView::MissingWorkspace(name_of(c, ws)))
        } else {
            v == CommandView::Proceed && called(b, a, Step::WorkspaceColumns { ws, col: 0 }, Step::Activate { ws })
        },
        Step::WorkspaceColumns { ws, col } => v == CommandView::Proceed && if col < column_count(c, ws as int) {
            called(b, a, Step::WorkspaceColumns { ws, col: (col + 1) as usize }, Step::ColumnStart { ws, col })
        } else {
            replaced(b, a, Step::FocusFirst { ws })
        },
        Step::Activate { ws } => v == CommandView::Act(ActionView::FocusWorkspace(name_of(c, ws)))
            && replaced(b, a, Step::ActivateWait { ws }),
        Step::ActivateWait { ws } => v == CommandView::WaitFor(
            ConditionView::WorkspaceActive(name_of(c, ws)),
            name_of(c, ws),
        ) && popped(b, a),
        Step::FocusFirst { ws } => if column_count(c, ws as int) == 0 || row_count(c, ws as int, 0) == 0 {
            v == CommandView::Proceed && popped(b, a)
        } else {
            v == CommandView::Sync && called(b, a, Step::FocusFirstResolved { ws }, Step::ResolveDecide { ws, col: 0, row: 0 })
        },
        Step::FocusFirstResolved { ws } => match b.spec_resolved() {
            None => failed(b, a, v, FailureView::MissingWindow(label_at(c, ws, 0, 0))),
            Some(id) => v == CommandView::Proceed && called(b, a, Step::FocusFirstQuiet { ws, id }, Step::Activate { ws }),
        },
        Step::FocusFirstQuiet { ws, id } => v == CommandView::WaitUntilQuiet(Some(name_of(c, ws)))
            && replaced(b, a, Step::FocusFirstFocus { ws, id }),
        Step::FocusFirstFocus { ws, id } => v == CommandView::Act(ActionView::FocusWindow(id))
            && replaced(b, a, Step::FocusFirstWait { ws, id }),
        Step::FocusFirstWait { ws, id } => v == CommandView::WaitForStable(
            ConditionView::FirstWindowFocused(id, name_of(c, ws)),
            label_at(c, ws, 0, 0),
        ) && popped(b, a),
        _ => false,
    }
}

/// The steps that find or spawn the windows of a column and bring them to its workspace.
pub open spec fn column_step(b: Reconciler, a: Reconciler, top: Step, v: CommandView) -> bool {
    let c = b.spec_config();
    let st = b.spec_state();
    match top {
        Step::ColumnStart { ws, col } => if row_count(c, ws as int, col as int) == 0 {
            failed(b, a, v, FailureView::Validation("column without windows"@))
        } else {
            &&& v == CommandView::Proceed
            &&& a.spec_placed().len() == 0
            &&& a.spec_stack() == b.spec_stack().update(b.spec_stack().len() - 1, Step::ColumnRow { ws, col, row: 0 })
            &&& a.spec_runtime() == b.spec_runtime() && a.spec_resolved() == b.spec_resolved()
            &&& a.spec_before() == b.spec_before()
        },
        Step::ColumnRow { ws, col, row } => if row < row_count(c, ws as int, col as int) {
            v == CommandView::Sync && called(b, a, Step::ColumnResolved { ws, col, row }, Step::ResolveDecide { ws, col, row })
        } else {
            v == CommandView::Proceed && replaced(b, a, Step::ColumnWidth { ws, col })
        },
        Step::ResolveDecide { ws, col, row } => {
            let spec = spec_at(c, ws as int, col as int, row as int);
            let remembered = crate::runtime_state::spec_window_id(
                b.spec_runtime().windows@,
                key_at(c, ws, col, row),
                spec,
                st.windows@,
            );
            &&& a.spec_stack() == b.spec_stack().drop_last()
            &&& a.spec_before() == b.spec_before() && a.spec_placed() == b.spec_placed()
            &&& if remembered is Some {
                v == CommandView::Proceed && a.spec_resolved() == remembered && a.spec_runtime() == b.spec_runtime()
            } else if app_id_count(c, spec.app_id@) != 1 || app_window_ids(st.windows@, spec.app_id@).is_empty() {
                v == CommandView::Proceed && a.spec_resolved() is None && a.spec_runtime() == b.spec_runtime()
            } else {
                &&& v == CommandView::Persist
                &&& a.spec_resolved() matches Some(id)
                &&& is_preferred_window(st.windows@, spec.app_id@, st.spec_workspace_id_by_name(name_of(c, ws)), id)
                &&& recorded_at(b.spec_runtime(), a.spec_runtime(), key_at(c, ws, col, row), spec, st.windows@[id])
            }
        },
        Step::ColumnResolved { ws, col, row } => match b.spec_resolved() {
            Some(id) => v == CommandView::Proceed && called(
                b,
                a,
                Step::ColumnActivated { ws, col, row, id },
                Step::Activate { ws },
            ),
            None => {
                &&& v == CommandView::Act(ActionView::Spawn(
                    crate::runtime_state::texts(spec_at(c, ws as int, col as int, row as int).command@),
                ))
                &&& forall|x: u64| a.spec_before().contains(x) <==> st.windows@.contains_key(x)
                &&& a.spec_stack() == b.spec_stack().update(b.spec_stack().len() - 1, Step::ColumnSpawnWait { ws, col, row })
                &&& a.spec_runtime() == b.spec_runtime() && a.spec_resolved() == b.spec_resolved()
                &&& a.spec_placed() == b.spec_placed()
            },
        },
        Step::ColumnSpawnWait { ws, col, row } => v == CommandView::WaitFor(
            ConditionView::WindowSpawned(b.spec_before(), spec_at(c, ws as int, col as int, row as int).app_id@),
            label_at(c, ws, col, row),
        ) && replaced(b, a, Step::ColumnSpawned { ws, col, row }),
        Step::ColumnSpawned { ws, col, row } => {
            let spec = spec_at(c, ws as int, col as int, row as int);
            if !spawned_window_exists(st.windows@, b.spec_before(), spec.app_id@) {
                failed(b, a, v, FailureView::MissingWindow(label_at(c, ws, col, row)))
            } else {
                &&& v == CommandView::Persist
                &&& exists|id: u64| #[trigger] is_spawned_window(st.windows@, b.spec_before(), spec.app_id@, id)
                    && a.spec_stack() == b.spec_stack().update(
                        b.spec_stack().len() - 1,
                        Step::ColumnActivated { ws, col, row, id },
                    ).push(Step::Activate { ws })
                    && recorded_at(b.spec_runtime(), a.spec_runtime(), key_at(c, ws, col, row), spec, st.windows@[id])
                &&& a.spec_resolved() == b.spec_resolved() && a.spec_before() == b.spec_before()
                &&& a.spec_placed() == b.spec_placed()
            }
        },
        Step::ColumnActivated { ws, col, row, id } => if on_workspace(st, id, name_of(c, ws)) {
            v == CommandView::Proceed && replaced(b, a, Step::ColumnPlace { ws, col, row, id })
        } else {
            v == CommandView::Act(ActionView::MoveWindowToWorkspace(id, name_of(c, ws)))
                && replaced(b, a, Step::ColumnMoveWait { ws, col, row, id })
        },
        Step::ColumnMoveWait { ws, col, row, id } => v == CommandView::WaitFor(
            ConditionView::WindowOnWorkspace(id, name_of(c, ws)),
            label_at(c, ws, col, row),
        ) && replaced(b, a, Step::ColumnPlace { ws, col, row, id }),
        Step::ColumnPlace { ws, col, row, id } => {
            &&& v == CommandView::Proceed
            &&& a.spec_placed() == b.spec_placed().push(id)
            &&& a.spec_stack() == b.spec_stack().update(
                b.spec_stack().len() - 1,
                Step::ColumnRow { ws, col, row: (row + 1) as usize },
            ).push(if row == 0 {
                Step::PrimaryAfterFloat { ws, col, id }
            } else {
                Step::StackedAfterFloat { ws, col, row, id }
            }).push(Step::Floating { ws, col, row, id })
            &&& a.spec_runtime() == b.spec_runtime() && a.spec_resolved() == b.spec_resolved()
            &&& a.spec_before() == b.spec_before()
        },
        _ => false,
    }
}

/// The steps that give a window its floating state and its place in the column.
pub open spec fn place_step(b: Reconciler, a: Reconciler, top: Step, v: CommandView) -> bool {
    let c = b.spec_config();
    let st = b.spec_state();
    match top {
        Step::Floating { ws, col, row, id } => {
            let floating = spec_at(c, ws as int, col as int, row as int).floating;
            if !st.windows@.contains_key(id) {
                failed(b, a, v, FailureView::MissingWindow(label_at(c, ws, col, row)))
            } else if st.windows@[id].is_floating == floating {
                v == CommandView::Proceed && popped(b, a)
            } else {
                v == CommandView::Act(if floating {
                    ActionView::MoveWindowToFloating(id)
                } else {
                    ActionView::MoveWindowToTiling(id)
                }) && replaced(b, a, Step::FloatingWait { ws, col, row, id })
            }
        },
        Step::FloatingWait { ws, col, row, id } => v == CommandView::WaitFor(
            ConditionView::WindowFloating(id, spec_at(c, ws as int, col as int, row as int).floating),
            label_at(c, ws, col, row),
        ) && popped(b, a),
        Step::PrimaryAfterFloat { ws, col, id } => v == CommandView::Proceed && if spec_at(
            c,
            ws as int,
            col as int,
            0,
        ).floating {
            popped(b, a)
        } else {
            called(b, a, Step::PrimaryAfterRow { ws, col, id }, Step::RowCheck { ws, col, row: 0, id, target: 1 })
        },
        Step::PrimaryAfterRow { ws, col, id } => v == CommandView::Proceed && if at_position(
            st,
            id,
            name_of(c, ws),
            (col + 1) as usize,
            1,
        ) {
            popped(b, a)
        } else {
            called(b, a, Step::PrimaryFocus { ws, col, id }, Step::Activate { ws })
        },
        Step::PrimaryFocus { ws, col, id } => v == CommandView::Act(ActionView::FocusWindow(id))
            && replaced(b, a, Step::PrimaryFocusWait { ws, col, id }),
        Step::PrimaryFocusWait { ws, col, id } => v == CommandView::WaitFor(
            ConditionView::WindowFocused(id),
            label_at(c, ws, col, 0),
        ) && replaced(b, a, Step::PrimaryMove { ws, col, id }),
        Step::PrimaryMove { ws, col, id } => v == CommandView::Act(ActionView::MoveColumnToIndex((col + 1) as usize))
            && replaced(b, a, Step::PrimaryMoveWait { ws, col, id }),
        Step::PrimaryMoveWait { ws, col, id } => v == CommandView::WaitFor(
            ConditionView::WindowAt(id, name_of(c, ws), (col + 1) as usize, 1),
            label_at(c, ws, col, 0),
        ) && popped(b, a),
        Step::StackedAfterFloat { ws, col, row, id } => if spec_at(c, ws as int, col as int, row as int).floating
            || at_position(st, id, name_of(c, ws), (col + 1) as usize, (row + 1) as usize) {
            v == CommandView::Proceed && popped(b, a)
        } else {
            match position_of(st, id) {
                None => failed(b, a, v, FailureView::MissingWindow(label_at(c, ws, col, row))),
                Some((current, _)) => v == CommandView::Proceed && if current == col + 1 {
                    replaced(b, a, Step::RowCheck { ws, col, row, id, target: (row + 1) as usize })
                } else {
                    called(b, a, Step::StackedFocus { ws, col, row, id, cur: current }, Step::Activate { ws })
                },
            }
        },
        Step::StackedFocus { ws, col, row, id, cur } => v == CommandView::Act(ActionView::FocusWindow(id))
            && replaced(b, a, Step::StackedFocusWait { ws, col, row, id, cur }),
        Step::StackedFocusWait { ws, col, row, id, cur } => v == CommandView::WaitFor(
            ConditionView::WindowFocused(id),
            label_at(c, ws, col, row),
        ) && replaced(b, a, Step::StackedHelper { ws, col, row, id, cur }),
        Step::StackedHelper { ws, col, row, id, cur } => if cur != col + 2 {
            v == CommandView::Act(ActionView::MoveColumnToIndex((col + 2) as usize))
                && replaced(b, a, Step::StackedHelperWait { ws, col, row, id })
        } else {
            v == CommandView::Proceed && replaced(b, a, Step::StackedCheck { ws, col, row, id })
        },
        Step::StackedHelperWait { ws, col, row, id } => v == CommandView::WaitFor(
            ConditionView::WindowInColumn(id, (col + 2) as usize),
            label_at(c, ws, col, row),
        ) && replaced(b, a, Step::StackedCheck { ws, col, row, id }),
        Step::StackedCheck { ws, col, row, id } => match position_of(st, id) {
            None => failed(b, a, v, FailureView::MissingWindow(label_at(c, ws, col, row))),
            Some((current, _)) => if current != col + 2 {
                failed(
                    b,
                    a,
                    v,
                    FailureView::NonAdjacentColumn(label_at(c, ws, col, row), current, (col + 1) as usize),
                )
            } else {
                v == CommandView::Act(ActionView::FocusColumn((col + 1) as usize))
                    && replaced(b, a, Step::StackedConsume { ws, col, row, id })
            },
        },
        Step::StackedConsume { ws, col, row, id } => v == CommandView::Act(ActionView::ConsumeWindowIntoColumn)
            && replaced(b, a, Step::StackedConsumeWait { ws, col, row, id }),
        Step::StackedConsumeWait { ws, col, row, id } => v == CommandView::WaitFor(
            ConditionView::WindowStackedAt(id, name_of(c, ws), (col + 1) as usize, (row + 1) as usize),
            label_at(c, ws, col, row),
        ) && popped(b, a),
        _ => false,
    }
}

/// The steps that move a window between rows and that set widths and heights.
pub open spec fn size_step(b: Reconciler, a: Reconciler, top: Step, v: CommandView) -> bool {
    let c = b.spec_config();
    let st = b.spec_state();
    match top {
        Step::RowCheck { ws, col, row, id, target } => match position_of(st, id) {
            None => failed(b, a, v, FailureView::MissingWindow(label_at(c, ws, col, row))),
            Some((_, current)) => if current == target {
                v == CommandView::Proceed && popped(b, a)
            } else {
                v == CommandView::Act(ActionView::FocusWindow(id))
                    && replaced(b, a, Step::RowFocusWait { ws, col, row, id, target, cur: current })
            },
        },
        Step::RowFocusWait { ws, col, row, id, target, cur } => v == CommandView::WaitFor(
            ConditionView::WindowFocused(id),
            label_at(c, ws, col, row),
        ) && replaced(b, a, Step::RowMove { ws, col, row, id, target, cur }),
        Step::RowMove { ws, col, row, id, target, cur } => if cur < target {
            v == CommandView::Act(ActionView::MoveWindowDown) && replaced(
                b,
                a,
                Step::RowMoveWait { ws, col, row, id, target, next: (cur + 1) as usize, down: true },
            )
        } else {
            v == CommandView::Act(ActionView::MoveWindowUp) && replaced(
                b,
                a,
                Step::RowMoveWait { ws, col, row, id, target, next: (cur - 1) as usize, down: false },
            )
        },
        Step::RowMoveWait { ws, col, row, id, target, next, down } => v == CommandView::WaitFor(
            ConditionView::WindowInRow(id, next, down),
            label_at(c, ws, col, row),
        ) && replaced(b, a, Step::RowCheck { ws, col, row, id, target }),
        Step::ColumnWidth { ws, col } => v == CommandView::Proceed && if exists|k: int|
            0 <= k < row_count(c, ws as int, col as int) && !(#[trigger] spec_at(c, ws as int, col as int, k)).floating {
            called(b, a, Step::ColumnWidthFocus { ws, col }, Step::Activate { ws })
        } else {
            replaced(b, a, Step::ColumnApply { ws, col, k: 0 })
        },
        Step::ColumnWidthFocus { ws, col } => v == CommandView::Act(ActionView::FocusColumn((col + 1) as usize))
            && replaced(b, a, Step::ColumnWidthSet { ws, col }),
        Step::ColumnWidthSet { ws, col } => v == CommandView::Act(
            ActionView::SetColumnWidth(c.workspaces@[ws as int].columns@[col as int].width),
        ) && replaced(b, a, Step::ColumnApply { ws, col, k: 0 }),
        Step::ColumnApply { ws, col, k } => v == CommandView::Proceed && if k < b.spec_placed().len() && k < row_count(
            c,
            ws as int,
            col as int,
        ) {
            called(
                b,
                a,
                Step::ColumnApplyWidth { ws, col, k, id: b.spec_placed()[k as int] },
                Step::Floating { ws, col, row: k, id: b.spec_placed()[k as int] },
            )
        } else {
            popped(b, a)
        },
        Step::ColumnApplyWidth { ws, col, k, id } => if spec_at(c, ws as int, col as int, k as int).floating {
            v == CommandView::Act(ActionView::SetWindowWidth(id, c.workspaces@[ws as int].columns@[col as int].width))
                && replaced(b, a, Step::ColumnWidthWait { ws, col, k, id })
        } else {
            v == CommandView::Proceed && replaced(b, a, Step::ColumnApplyHeight { ws, col, k, id })
        },
        Step::ColumnWidthWait { ws, col, k, id } => replaced(b, a, Step::ColumnApplyHeight { ws, col, k, id })
            && match c.workspaces@[ws as int].columns@[col as int].width {
            SizeSpec::Fixed(w) => v == CommandView::WaitFor(ConditionView::WindowWidth(id, w), label_at(c, ws, col, k)),
            SizeSpec::Proportion(_) => v == CommandView::Proceed,
        },
        Step::ColumnApplyHeight { ws, col, k, id } => v == CommandView::Act(
            ActionView::SetWindowHeight(id, spec_at(c, ws as int, col as int, k as int).height),
        ) && replaced(b, a, Step::ColumnHeightWait { ws, col, k, id }),
        Step::ColumnHeightWait { ws, col, k, id } => replaced(b, a, Step::ColumnApply { ws, col, k: (k + 1) as usize })
            && match spec_at(c, ws as int, col as int, k as int).height {
            SizeSpec::Fixed(h) => v == CommandView::WaitFor(ConditionView::WindowHeight(id, h), label_at(c, ws, col, k)),
            SizeSpec::Proportion(_) => v == CommandView::Proceed,
        },
        _ => false,
    }
}

/// The step that `next_command` takes from `b` to `a` with the command `cmd`: `Done`,
/// changing nothing, when no run is under way; otherwise the config and the snapshot
/// stay, and the current step (the last of the stack) is taken as the tables above say.
pub open spec fn next_step(b: Reconciler, a: Reconciler, cmd: Command) -> bool {
    let stack = b.spec_stack();
    if stack.len() == 0 {
        cmd@ == CommandView::Done && a == b
    } else {
        let top = stack[stack.len() - 1];
        &&& a.spec_config() == b.spec_config()
        &&& a.spec_state() == b.spec_state()
        &&& {
            ||| run_step(b, a, top, cmd@)
            ||| column_step(b, a, top, cmd@)
            ||| place_step(b, a, top, cmd@)
            ||| size_step(b, a, top, cmd@)
        }
    }
}


// ---------------------------------------------------------------------------------
// Laws of the reconciler
// ---------------------------------------------------------------------------------

/// A window is spawned only when nothing can be reused: when the lookup for a
/// configured window (a step from `b1` to `b2`) is followed by the column step for the
/// same window (from `b2` to `b3`) and that step spawns, then the runtime state
/// remembered no fitting window for the position and either another configured window
/// shares the application id or niri showed no window of it; with a config that passes
/// validation, niri showed no window of the application at all. What is spawned is the
/// configured command.
pub proof fn law_spawn_only_when_nothing_to_reuse(
    b1: Reconciler,
    b2: Reconciler,
    b3: Reconciler,
    cmd1: Command,
    cmd2: Command,
    ws: usize,
    col: usize,
    row: usize,
)
    requires
        b1.wf(),
        b1.running(),
        b1.spec_stack()[b1.spec_stack().len() - 1] == (Step::ResolveDecide { ws, col, row }),
        next_step(b1, b2, cmd1),
        b2.running(),
        b2.spec_stack()[b2.spec_stack().len() - 1] == (Step::ColumnResolved { ws, col, row }),
        next_step(b2, b3, cmd2),
        cmd2@ is Act,
    ensures
        ({
            let c = b1.spec_config();
            let spec = spec_at(c, ws as int, col as int, row as int);
            let windows = b1.spec_state().windows@;
            &&& crate::runtime_state::spec_window_id(b1.spec_runtime().windows@, key_at(c, ws, col, row), spec, windows) is None
            &&& (app_id_count(c, spec.app_id@) != 1 || app_window_ids(windows, spec.app_id@).is_empty())
            &&& (validation_failure(c) is None ==> app_window_ids(windows, spec.app_id@).is_empty())
            &&& cmd2@ == CommandView::Act(ActionView::Spawn(crate::runtime_state::texts(spec.command@)))
        }),
{
    let c = b1.spec_config();
    assert(step_ok(c, b1.spec_stack()[b1.spec_stack().len() - 1]));
    assert(column_step(b1, b2, Step::ResolveDecide { ws, col, row }, cmd1@));
    assert(column_step(b2, b3, Step::ColumnResolved { ws, col, row }, cmd2@));
    assert(b2.spec_resolved() is None);
    if validation_failure(c) is None {
        law_valid_config_has_unique_app_ids(c, ws as int, col as int, row as int);
    }
}

/// A window is moved down only while it is above its target row, and up only while it
/// is below it.
pub proof fn law_row_moves_head_for_target(b: Reconciler, a: Reconciler, cmd: Command)
    requires
        b.wf(),
        next_step(b, a, cmd),
        cmd@ == CommandView::Act(ActionView::MoveWindowDown) || cmd@ == CommandView::Act(ActionView::MoveWindowUp),
    ensures
        b.running(),
        b.spec_stack()[b.spec_stack().len() - 1] matches Step::RowMove { target, cur, .. } && (cmd@ == CommandView::Act(
            ActionView::MoveWindowDown,
        ) <==> cur < target) && cur != target,
{
    assert(step_ok(b.spec_config(), b.spec_stack()[b.spec_stack().len() - 1]));
}


/// The current step of a reconciler with a run under way.
pub open spec fn current_step(r: Reconciler) -> Step {
    r.spec_stack()[r.spec_stack().len() - 1]
}

/// A stacked window's placement is finished only when the window floats or already
/// sits in its configured column and row: the step that looks at a tiled window's place
/// never ends while the window is elsewhere.
pub proof fn law_stacked_placement_finishes_only_in_place(
    b: Reconciler,
    a: Reconciler,
    cmd: Command,
    ws: usize,
    col: usize,
    row: usize,
    id: u64,
)
    requires
        b.wf(),
        b.running(),
        current_step(b) == (Step::StackedAfterFloat { ws, col, row, id }),
        next_step(b, a, cmd),
        a.spec_stack() == b.spec_stack().drop_last(),
    ensures
        spec_at(b.spec_config(), ws as int, col as int, row as int).floating || at_position(
            b.spec_state(),
            id,
            name_of(b.spec_config(), ws),
            (col + 1) as usize,
            (row + 1) as usize,
        ),
{
    assert(step_ok(b.spec_config(), current_step(b)));
    assert(place_step(b, a, current_step(b), cmd@));
    assert(b.spec_stack().drop_last().len() == b.spec_stack().len() - 1);
}

/// A tiled stacked window that is already in its configured column, but not in its
/// row, is next moved toward its row: the row step for it, with its configured row
/// (counted from one) as the target, replaces the current step.
pub proof fn law_stacked_window_in_its_column_is_moved_to_its_row(
    b: Reconciler,
    a: Reconciler,
    cmd: Command,
    ws: usize,
    col: usize,
    row: usize,
    id: u64,
    current_row: usize,
)
    requires
        b.wf(),
        b.running(),
        current_step(b) == (Step::StackedAfterFloat { ws, col, row, id }),
        next_step(b, a, cmd),
        !spec_at(b.spec_config(), ws as int, col as int, row as int).floating,
        !at_position(b.spec_state(), id, name_of(b.spec_config(), ws), (col + 1) as usize, (row + 1) as usize),
        position_of(b.spec_state(), id) == Some(((col + 1) as usize, current_row)),
    ensures
        cmd@ == CommandView::Proceed,
        a.spec_stack().len() == b.spec_stack().len(),
        current_step(a) == (Step::RowCheck { ws, col, row, id, target: (row + 1) as usize }),
{
    assert(step_ok(b.spec_config(), current_step(b)));
    assert(place_step(b, a, current_step(b), cmd@));
    assert(b.spec_stack().drop_last().len() == b.spec_stack().len() - 1);
}

/// Moving a window between rows ends only when niri shows it in the target row.
pub proof fn law_row_moves_finish_only_at_target(
    b: Reconciler,
    a: Reconciler,
    cmd: Command,
    ws: usize,
    col: usize,
    row: usize,
    id: u64,
    target: usize,
)
    requires
        b.wf(),
        b.running(),
        current_step(b) == (Step::RowCheck { ws, col, row, id, target }),
        next_step(b, a, cmd),
        a.spec_stack() == b.spec_stack().drop_last(),
    ensures
        position_of(b.spec_state(), id) matches Some(p) && p.1 == target,
{
    assert(step_ok(b.spec_config(), current_step(b)));
    assert(size_step(b, a, current_step(b), cmd@));
    assert(b.spec_stack().drop_last().len() == b.spec_stack().len() - 1);
}

/// The first window of a column is left where it is only when it floats, and its
/// column is left where it is only when niri shows the window in the configured column,
/// in row one, on its workspace; otherwise the window is focused (after activating its
/// workspace) so that its column can be moved.
pub proof fn law_primary_placement_finishes_only_in_place(
    b: Reconciler,
    a: Reconciler,
    cmd: Command,
    ws: usize,
    col: usize,
    id: u64,
)
    requires
        b.wf(),
        b.running(),
        current_step(b) == (Step::PrimaryAfterFloat { ws, col, id }) || current_step(b) == (Step::PrimaryAfterRow {
            ws,
            col,
            id,
        }),
        next_step(b, a, cmd),
    ensures
        current_step(b) is PrimaryAfterFloat && a.spec_stack() == b.spec_stack().drop_last() ==> spec_at(
            b.spec_config(),
            ws as int,
            col as int,
            0,
        ).floating,
        current_step(b) is PrimaryAfterRow && a.spec_stack() == b.spec_stack().drop_last() ==> at_position(
            b.spec_state(),
            id,
            name_of(b.spec_config(), ws),
            (col + 1) as usize,
            1,
        ),
        current_step(b) is PrimaryAfterRow && !at_position(
            b.spec_state(),
            id,
            name_of(b.spec_config(), ws),
            (col + 1) as usize,
            1,
        ) ==> a.spec_stack() == b.spec_stack().update(b.spec_stack().len() - 1, Step::PrimaryFocus { ws, col, id }).push(
            Step::Activate { ws },
        ),
{
    assert(step_ok(b.spec_config(), current_step(b)));
    assert(place_step(b, a, current_step(b), cmd@));
    assert(b.spec_stack().drop_last().len() == b.spec_stack().len() - 1);
}

/// The column move of a first window goes to the configured column (counted from one)
/// and is followed by a wait for the window to stand there, in row one, on its
/// workspace.
pub proof fn law_primary_column_moves_to_its_index(b: Reconciler, a: Reconciler, cmd: Command, ws: usize, col: usize, id: u64)
    requires
        b.wf(),
        b.running(),
        current_step(b) == (Step::PrimaryMove { ws, col, id }) || current_step(b) == (Step::PrimaryMoveWait { ws, col, id }),
        next_step(b, a, cmd),
    ensures
        current_step(b) is PrimaryMove ==> cmd@ == CommandView::Act(ActionView::MoveColumnToIndex((col + 1) as usize))
            && current_step(a) == (Step::PrimaryMoveWait { ws, col, id }),
        current_step(b) is PrimaryMoveWait ==> cmd@ == CommandView::WaitFor(
            ConditionView::WindowAt(id, name_of(b.spec_config(), ws), (col + 1) as usize, 1),
            label_at(b.spec_config(), ws, col, 0),
        ),
{
    assert(step_ok(b.spec_config(), current_step(b)));
    assert(place_step(b, a, current_step(b), cmd@));
    assert(b.spec_stack().drop_last().len() == b.spec_stack().len() - 1);
}

/// The final focus visits the workspaces in order and ends on the first one: while
/// workspaces remain, the first window of the next one is focused before going on; after
/// the last, when the config has any workspace, the first workspace's first window is
/// focused again, and only then does the final focus end.
pub proof fn law_final_focus_ends_on_first_workspace(b: Reconciler, a: Reconciler, cmd: Command, ws: usize)
    requires
        b.wf(),
        b.running(),
        current_step(b) == (Step::FinalizeFocus { ws }),
        next_step(b, a, cmd),
    ensures
        cmd@ == CommandView::Proceed,
        ws < b.spec_config().workspaces@.len() ==> current_step(a) == (Step::FocusFirst { ws }) && a.spec_stack()
            == b.spec_stack().update(b.spec_stack().len() - 1, Step::FinalizeFocus { ws: (ws + 1) as usize }).push(
            Step::FocusFirst { ws },
        ),
        ws >= b.spec_config().workspaces@.len() && b.spec_config().workspaces@.len() > 0 ==> a.spec_stack()
            == b.spec_stack().update(b.spec_stack().len() - 1, Step::FocusFirst { ws: 0 }),
        a.spec_stack() == b.spec_stack().drop_last() ==> b.spec_config().workspaces@.len() == 0,
{
    assert(step_ok(b.spec_config(), current_step(b)));
    assert(run_step(b, a, current_step(b), cmd@));
    assert(b.spec_stack().drop_last().len() == b.spec_stack().len() - 1);
}

/// A stacked window counts as in place only when it stands at the given column and row
/// of the named workspace and that column holds exactly `row` tiled windows, so that a
/// window consumed into a column is not taken as placed while the column holds more or
/// fewer windows than its place says.
pub proof fn law_stacked_condition_counts_the_column(
    state: ActualState,
    window_id: u64,
    workspace: String,
    column: usize,
    row: usize,
)
    ensures
        spec_condition_holds(state, Condition::WindowStackedAt { window_id, workspace, column, row }) == Some(true)
            <==> at_position(state, window_id, workspace@, column, row) && (state.spec_workspace_id_by_name(workspace@)
            matches Some(ws) && crate::predicate::column_slot(column) < crate::state::column_counts(state.windows@, ws).len()
            && crate::state::column_counts(state.windows@, ws)[crate::predicate::column_slot(column)] == row),
{
}


/// What must hold when a step ends (its step leaves the stack) or hands over to the
/// next stage of its procedure without a failure: the goal of the step, read in the
/// snapshot the step was taken in, or the wait for it.
pub open spec fn goal_of_finished_step(b: Reconciler, a: Reconciler, cmd: Command) -> bool {
    let c = b.spec_config();
    let st = b.spec_state();
    let n = c.workspaces@.len();
    let ended = a.spec_stack() == b.spec_stack().drop_last();
    let next = if a.spec_stack().len() == b.spec_stack().len() {
        Some(current_step(a))
    } else {
        None
    };
    match current_step(b) {
        Step::RunWorkspaces { ws } => next == Some(Step::RunQuiet) ==> ws >= n,
        Step::WorkspaceColumns { ws, col } => next == Some(Step::FocusFirst { ws }) ==> col >= column_count(c, ws as int),
        Step::ColumnRow { ws, col, row } => next == Some(Step::ColumnWidth { ws, col }) ==> row >= row_count(
            c,
            ws as int,
            col as int,
        ),
        Step::FocusFirst { ws } => ended ==> column_count(c, ws as int) == 0 || row_count(c, ws as int, 0) == 0,
        Step::FinalizeFocus { .. } => ended ==> n == 0,
        Step::ActivateWait { ws } => ended && cmd@ == CommandView::WaitFor(
            ConditionView::WorkspaceActive(name_of(c, ws)),
            name_of(c, ws),
        ),
        Step::ColumnActivated { ws, col, row, id } => next == Some(Step::ColumnPlace { ws, col, row, id }) ==> on_workspace(
            st,
            id,
            name_of(c, ws),
        ),
        Step::Floating { ws, col, row, id } => ended ==> st.windows@.contains_key(id) && st.windows@[id].is_floating
            == spec_at(c, ws as int, col as int, row as int).floating,
        Step::FloatingWait { ws, col, row, id } => ended && cmd@ is WaitFor && (cmd@ matches CommandView::WaitFor(
            ConditionView::WindowFloating(w, f),
            _,
        ) && w == id && f == spec_at(c, ws as int, col as int, row as int).floating),
        Step::PrimaryAfterFloat { ws, col, .. } => ended ==> spec_at(c, ws as int, col as int, 0).floating,
        Step::PrimaryAfterRow { ws, col, id } => ended ==> at_position(st, id, name_of(c, ws), (col + 1) as usize, 1),
        Step::PrimaryMoveWait { ws, col, id } => ended && (cmd@ matches CommandView::WaitFor(
            ConditionView::WindowAt(w, name, column, r),
            _,
        ) && w == id && name == name_of(c, ws) && column == col + 1 && r == 1),
        Step::StackedAfterFloat { ws, col, row, id } => ended ==> spec_at(c, ws as int, col as int, row as int).floating
            || at_position(st, id, name_of(c, ws), (col + 1) as usize, (row + 1) as usize),
        Step::StackedHelper { ws, col, row, id, cur } => next == Some(Step::StackedCheck { ws, col, row, id }) ==> cur
            == col + 2,
        Step::StackedCheck { ws, col, row, id } => next == Some(Step::StackedConsume { ws, col, row, id }) ==> (position_of(
            st,
            id,
        ) matches Some(p) && p.0 == col + 2),
        Step::StackedConsumeWait { ws, col, row, id } => ended && (cmd@ matches CommandView::WaitFor(
            ConditionView::WindowStackedAt(w, name, column, r),
            _,
        ) && w == id && name == name_of(c, ws) && column == col + 1 && r == (row + 1) as usize),
        Step::RowCheck { id, target, .. } => ended ==> (position_of(st, id) matches Some(p) && p.1 == target),
        Step::ColumnApply { ws, col, k } => ended ==> k >= b.spec_placed().len() || k >= row_count(
            c,
            ws as int,
            col as int,
        ),
        Step::FocusFirstWait { ws, id } => ended && (cmd@ matches CommandView::WaitForStable(
            ConditionView::FirstWindowFocused(w, name),
            _,
        ) && w == id && name == name_of(c, ws)),
        _ => true,
    }
}

/// Every step ends, or hands over to the next stage of its procedure, only when its
/// goal holds in the snapshot or is what the caller is told to wait for: the run moves
/// on from workspaces, columns and rows only after the last; a window's floating state,
/// its column and its row are left alone only when niri already shows them as
/// configured; a window is moved into place only from the helper column; and the waits
/// that end a procedure wait for the procedure's goal.
pub proof fn law_steps_end_only_when_their_goal_holds(b: Reconciler, a: Reconciler, cmd: Command)
    requires
        b.wf(),
        b.running(),
        next_step(b, a, cmd),
    ensures
        goal_of_finished_step(b, a, cmd),
{
    assert(step_ok(b.spec_config(), current_step(b)));
    assert(b.spec_stack().drop_last().len() == b.spec_stack().len() - 1);
    assert(b.spec_stack().drop_last().len() < b.spec_stack().len());
}


/// A workspace named `name` with id `id` is known.
pub open spec fn named_workspace(state: ActualState, id: u64, name: Seq<char>) -> bool {
    state.workspaces@.contains_key(id) && crate::state::ws_named(state.workspaces@[id], name)
}

/// Each awaited condition holds exactly when niri's tracked state shows what it names:
/// an active workspace of that name, a new window of the application, a window on the
/// named workspace, focused, in the given column or row or place, with the given
/// floating state, or focused as the active window of the named workspace. The size
/// conditions are left to the caller.
pub proof fn law_conditions_mean_what_they_say(state: ActualState, condition: Condition)
    requires
        state.well_formed(),
    ensures
        condition matches Condition::WorkspaceActive { workspace } ==> (spec_condition_holds(state, condition)
            == Some(true) ==> exists|id: u64| #[trigger] named_workspace(state, id, workspace@)
            && state.workspaces@[id].is_active),
        condition matches Condition::WindowSpawned { before, app_id } ==> (spec_condition_holds(state, condition)
            == Some(true) <==> exists|id: u64| #[trigger] state.windows@.contains_key(id) && has_app_id(
            state.windows@[id],
            app_id@,
        ) && !before@.contains(id)),
        condition matches Condition::WindowOnWorkspace { window_id, workspace } ==> (spec_condition_holds(state, condition)
            == Some(true) ==> state.windows@.contains_key(window_id) && (state.windows@[window_id].workspace_id matches Some(
            k,
        ) && named_workspace(state, k, workspace@))),
        condition matches Condition::WindowFocused { window_id } ==> (spec_condition_holds(state, condition) == Some(true)
            <==> state.windows@.contains_key(window_id) && state.windows@[window_id].is_focused),
        condition matches Condition::WindowAt { window_id, workspace, column, row } ==> (spec_condition_holds(
            state,
            condition,
        ) == Some(true) <==> state.windows@.contains_key(window_id) && state.windows@[window_id].layout.pos_in_scrolling_layout
            == Some((column, row)) && state.windows@[window_id].workspace_id == state.spec_workspace_id_by_name(
            workspace@,
        )),
        condition matches Condition::WindowInColumn { window_id, column } ==> (spec_condition_holds(state, condition)
            == Some(true) <==> (position_of(state, window_id) matches Some(p) && p.0 == column)),
        condition matches Condition::WindowInRow { window_id, row, .. } ==> (spec_condition_holds(state, condition)
            == Some(true) <==> (position_of(state, window_id) matches Some(p) && p.1 == row)),
        condition matches Condition::WindowFloating { window_id, floating } ==> (spec_condition_holds(state, condition)
            == Some(true) <==> state.windows@.contains_key(window_id) && state.windows@[window_id].is_floating == floating),
        condition matches Condition::FirstWindowFocused { window_id, workspace } ==> (spec_condition_holds(
            state,
            condition,
        ) == Some(true) ==> state.windows@.contains_key(window_id) && state.windows@[window_id].is_focused && exists|k: u64|
            #[trigger] named_workspace(state, k, workspace@) && state.workspaces@[k].active_window_id == Some(window_id)),
        condition is WindowHeight || condition is WindowWidth ==> spec_condition_holds(state, condition) is None,
        !(condition is WindowHeight || condition is WindowWidth) ==> spec_condition_holds(state, condition) is Some,
{
    match condition {
        Condition::WorkspaceActive { workspace } => {
            if let Some(id) = state.spec_workspace_id_by_name(workspace@) {
                assert(state.workspace_name_to_id@.contains_key(workspace@));
                assert(named_workspace(state, id, workspace@));
            }
        },
        Condition::WindowSpawned { before, app_id } => {
            if spawned_window_exists(state.windows@, before@, app_id@) {
                let o = choose|o: u64| #[trigger] app_window_ids(state.windows@, app_id@).contains(o) && !before@.contains(o);
                assert(state.windows@.contains_key(o));
            }
            if exists|id: u64| #[trigger] state.windows@.contains_key(id) && has_app_id(state.windows@[id], app_id@)
                && !before@.contains(id) {
                let id = choose|id: u64| #[trigger] state.windows@.contains_key(id) && has_app_id(state.windows@[id], app_id@)
                    && !before@.contains(id);
                assert(app_window_ids(state.windows@, app_id@).contains(id));
            }
        },
        Condition::WindowOnWorkspace { window_id, workspace } => {
            if let Some(id) = state.spec_workspace_id_by_name(workspace@) {
                assert(state.workspace_name_to_id@.contains_key(workspace@));
            }
        },
        Condition::FirstWindowFocused { window_id, workspace } => {
            if let Some(id) = state.spec_workspace_id_by_name(workspace@) {
                assert(state.workspace_name_to_id@.contains_key(workspace@));
                assert(named_workspace(state, id, workspace@));
            }
        },
        _ => {},
    }
}


/// The workspace (as an index into the config) that a step works on, where it works on
/// one.
pub open spec fn step_workspace(s: Step) -> Option<usize> {
    match s {
        Step::RunWorkspaces { .. } | Step::RunQuiet | Step::FinalizeFocus { .. } => None,
        Step::WorkspaceStart { ws } | Step::WorkspaceColumns { ws, .. } | Step::Activate { ws } | Step::ActivateWait {
            ws,
        } | Step::ColumnStart { ws, .. } | Step::ColumnRow { ws, .. } | Step::ResolveDecide { ws, .. }
        | Step::ColumnResolved { ws, .. } | Step::ColumnSpawnWait { ws, .. } | Step::ColumnSpawned { ws, .. }
        | Step::ColumnActivated { ws, .. } | Step::ColumnMoveWait { ws, .. } | Step::ColumnPlace { ws, .. }
        | Step::Floating { ws, .. } | Step::FloatingWait { ws, .. } | Step::PrimaryAfterFloat { ws, .. }
        | Step::PrimaryAfterRow { ws, .. } | Step::PrimaryFocus { ws, .. } | Step::PrimaryFocusWait { ws, .. }
        | Step::PrimaryMove { ws, .. } | Step::PrimaryMoveWait { ws, .. } | Step::StackedAfterFloat { ws, .. }
        | Step::StackedFocus { ws, .. } | Step::StackedFocusWait { ws, .. } | Step::StackedHelper { ws, .. }
        | Step::StackedHelperWait { ws, .. } | Step::StackedCheck { ws, .. } | Step::StackedConsume { ws, .. }
        | Step::StackedConsumeWait { ws, .. } | Step::RowCheck { ws, .. } | Step::RowFocusWait { ws, .. }
        | Step::RowMove { ws, .. } | Step::RowMoveWait { ws, .. } | Step::ColumnWidth { ws, .. }
        | Step::ColumnWidthFocus { ws, .. } | Step::ColumnWidthSet { ws, .. } | Step::ColumnApply { ws, .. }
        | Step::ColumnApplyWidth { ws, .. } | Step::ColumnWidthWait { ws, .. } | Step::ColumnApplyHeight { ws, .. }
        | Step::ColumnHeightWait { ws, .. } | Step::FocusFirst { ws } | Step::FocusFirstResolved { ws }
        | Step::FocusFirstQuiet { ws, .. } | Step::FocusFirstFocus { ws, .. } | Step::FocusFirstWait { ws, .. } => Some(ws),
    }
}

/// The column (as an index into its workspace's columns) that a step works on, where it
/// works on one; the steps that focus a workspace's first window work on its first
/// column.
pub open spec fn step_column(s: Step) -> Option<usize> {
    match s {
        Step::ColumnStart { col, .. } | Step::ColumnRow { col, .. } | Step::ResolveDecide { col, .. }
        | Step::ColumnResolved { col, .. } | Step::ColumnSpawnWait { col, .. } | Step::ColumnSpawned { col, .. }
        | Step::ColumnActivated { col, .. } | Step::ColumnMoveWait { col, .. } | Step::ColumnPlace { col, .. }
        | Step::Floating { col, .. } | Step::FloatingWait { col, .. } | Step::PrimaryAfterFloat { col, .. }
        | Step::PrimaryAfterRow { col, .. } | Step::PrimaryFocus { col, .. } | Step::PrimaryFocusWait { col, .. }
        | Step::PrimaryMove { col, .. } | Step::PrimaryMoveWait { col, .. } | Step::StackedAfterFloat { col, .. }
        | Step::StackedFocus { col, .. } | Step::StackedFocusWait { col, .. } | Step::StackedHelper { col, .. }
        | Step::StackedHelperWait { col, .. } | Step::StackedCheck { col, .. } | Step::StackedConsume { col, .. }
        | Step::StackedConsumeWait { col, .. } | Step::RowCheck { col, .. } | Step::RowFocusWait { col, .. }
        | Step::RowMove { col, .. } | Step::RowMoveWait { col, .. } | Step::ColumnWidth { col, .. }
        | Step::ColumnWidthFocus { col, .. } | Step::ColumnWidthSet { col, .. } | Step::ColumnApply { col, .. }
        | Step::ColumnApplyWidth { col, .. } | Step::ColumnWidthWait { col, .. } | Step::ColumnApplyHeight { col, .. }
        | Step::ColumnHeightWait { col, .. } => Some(col),
        Step::FocusFirstQuiet { .. } | Step::FocusFirstFocus { .. } | Step::FocusFirstWait { .. } => Some(0),
        _ => None,
    }
}

/// The row (as an index into its column's windows) of the window spec that a step works
/// on, where it works on one: the first window of a column is in row zero.
pub open spec fn step_row(s: Step) -> Option<usize> {
    match s {
        Step::ResolveDecide { row, .. } | Step::ColumnResolved { row, .. } | Step::ColumnSpawnWait { row, .. }
        | Step::ColumnSpawned { row, .. } | Step::ColumnActivated { row, .. } | Step::ColumnMoveWait { row, .. }
        | Step::ColumnPlace { row, .. } | Step::Floating { row, .. } | Step::FloatingWait { row, .. }
        | Step::StackedAfterFloat { row, .. } | Step::StackedFocus { row, .. } | Step::StackedFocusWait { row, .. }
        | Step::StackedHelper { row, .. } | Step::StackedHelperWait { row, .. } | Step::StackedCheck { row, .. }
        | Step::StackedConsume { row, .. } | Step::StackedConsumeWait { row, .. } | Step::RowCheck { row, .. }
        | Step::RowFocusWait { row, .. } | Step::RowMove { row, .. } | Step::RowMoveWait { row, .. } => Some(row),
        Step::ColumnApplyWidth { k, .. } | Step::ColumnWidthWait { k, .. } | Step::ColumnApplyHeight { k, .. }
        | Step::ColumnHeightWait { k, .. } => Some(k),
        Step::PrimaryAfterFloat { .. } | Step::PrimaryAfterRow { .. } | Step::PrimaryFocus { .. }
        | Step::PrimaryFocusWait { .. } | Step::PrimaryMove { .. } | Step::PrimaryMoveWait { .. }
        | Step::FocusFirstQuiet { .. } | Step::FocusFirstFocus { .. } | Step::FocusFirstWait { .. } => Some(0),
        _ => None,
    }
}

/// The niri window that a step works on, once one has been found or spawned.
pub open spec fn step_window(s: Step) -> Option<u64> {
    match s {
        Step::ColumnActivated { id, .. } | Step::ColumnMoveWait { id, .. } | Step::ColumnPlace { id, .. }
        | Step::Floating { id, .. } | Step::FloatingWait { id, .. } | Step::PrimaryAfterFloat { id, .. }
        | Step::PrimaryAfterRow { id, .. } | Step::PrimaryFocus { id, .. } | Step::PrimaryFocusWait { id, .. }
        | Step::PrimaryMove { id, .. } | Step::PrimaryMoveWait { id, .. } | Step::StackedAfterFloat { id, .. }
        | Step::StackedFocus { id, .. } | Step::StackedFocusWait { id, .. } | Step::StackedHelper { id, .. }
        | Step::StackedHelperWait { id, .. } | Step::StackedCheck { id, .. } | Step::StackedConsume { id, .. }
        | Step::StackedConsumeWait { id, .. } | Step::RowCheck { id, .. } | Step::RowFocusWait { id, .. }
        | Step::RowMove { id, .. } | Step::RowMoveWait { id, .. } | Step::ColumnApplyWidth { id, .. }
        | Step::ColumnWidthWait { id, .. } | Step::ColumnApplyHeight { id, .. } | Step::ColumnHeightWait { id, .. }
        | Step::FocusFirstQuiet { id, .. } | Step::FocusFirstFocus { id, .. } | Step::FocusFirstWait { id, .. } => Some(id),
        _ => None,
    }
}

/// The window spec that a step works on, where it works on one.
pub open spec fn step_spec(c: Config, s: Step) -> Option<WindowSpec> {
    match (step_workspace(s), step_column(s), step_row(s)) {
        (Some(ws), Some(col), Some(row)) => Some(spec_at(c, ws as int, col as int, row as int)),
        _ => None,
    }
}

/// Every action sent to niri concerns the workspace, column, window spec and niri window
/// that the current step works on, and carries what the config declares for them: a
/// workspace is focused by its configured name; a window is spawned with its spec's
/// command, only before any niri window was taken for the spec; the window focused,
/// moved, made floating or tiled, or resized is the step's own window; it is made
/// floating or tiled as its spec says; a window is sent to the step's workspace; a
/// column is focused at its configured index; a first window's column is moved to its
/// configured index and a stacked window's column to the helper index right of it; a
/// window is consumed into a column only as a stacked window, never as a column's first;
/// widths are the column's configured width (given to a window only when it floats) and
/// heights the spec's.
pub proof fn law_actions_concern_the_current_spec(b: Reconciler, a: Reconciler, cmd: Command)
    requires
        b.wf(),
        b.running(),
        next_step(b, a, cmd),
    ensures
        ({
            let c = b.spec_config();
            let s = current_step(b);
            &&& cmd@ matches CommandView::Act(action) ==> step_workspace(s) is Some
            &&& cmd@ matches CommandView::Act(ActionView::FocusWorkspace(n)) ==> (step_workspace(s) matches Some(ws) && n
                == name_of(c, ws))
            &&& cmd@ matches CommandView::Act(ActionView::Spawn(args)) ==> step_window(s) is None && (step_spec(c, s) matches Some(
                spec,
            ) && args == crate::runtime_state::texts(spec.command@))
            &&& cmd@ matches CommandView::Act(ActionView::FocusWindow(w)) ==> step_window(s) == Some(w)
            &&& cmd@ matches CommandView::Act(ActionView::MoveWindowToWorkspace(w, n)) ==> step_window(s) == Some(w) && (
            step_workspace(s) matches Some(ws) && n == name_of(c, ws))
            &&& cmd@ matches CommandView::Act(ActionView::MoveWindowToFloating(w)) ==> step_window(s) == Some(w) && (step_spec(
                c,
                s,
            ) matches Some(spec) && spec.floating)
            &&& cmd@ matches CommandView::Act(ActionView::MoveWindowToTiling(w)) ==> step_window(s) == Some(w) && (step_spec(
                c,
                s,
            ) matches Some(spec) && !spec.floating)
            &&& cmd@ matches CommandView::Act(ActionView::FocusColumn(i)) ==> (step_column(s) matches Some(col) && i == col
                + 1)
            &&& cmd@ matches CommandView::Act(ActionView::MoveColumnToIndex(i)) ==> step_window(s) is Some && ((
            step_column(s), step_row(s)) matches (Some(col), Some(row)) && i == if row == 0 {
                col + 1
            } else {
                col + 2
            })
            &&& cmd@ == CommandView::Act(ActionView::ConsumeWindowIntoColumn) ==> step_window(s) is Some && (step_row(s) matches Some(
                row,
            ) && row > 0)
            &&& cmd@ == CommandView::Act(ActionView::MoveWindowDown) || cmd@ == CommandView::Act(ActionView::MoveWindowUp)
                ==> step_window(s) is Some
            &&& cmd@ matches CommandView::Act(ActionView::SetColumnWidth(sz)) ==> (step_workspace(s), step_column(s)) matches (
                Some(ws),
                Some(col),
            ) && sz == c.workspaces@[ws as int].columns@[col as int].width
            &&& cmd@ matches CommandView::Act(ActionView::SetWindowWidth(w, sz)) ==> step_window(s) == Some(w) && (step_spec(
                c,
                s,
            ) matches Some(spec) && spec.floating) && ((step_workspace(s), step_column(s)) matches (Some(ws), Some(col))
                && sz == c.workspaces@[ws as int].columns@[col as int].width)
            &&& cmd@ matches CommandView::Act(ActionView::SetWindowHeight(w, sz)) ==> step_window(s) == Some(w) && (step_spec(
                c,
                s,
            ) matches Some(spec) && sz == spec.height)
        }),
{
    assert(step_ok(b.spec_config(), current_step(b)));
    match current_step(b) {
        Step::RunWorkspaces { .. } => {},
        Step::RunQuiet => {},
        Step::FinalizeFocus { .. } => {},
        Step::WorkspaceStart { .. } => {},
        Step::WorkspaceColumns { .. } => {},
        Step::Activate { .. } => {},
        Step::ActivateWait { .. } => {},
        Step::ColumnStart { .. } => {},
        Step::ColumnRow { .. } => {},
        Step::ResolveDecide { .. } => {},
        Step::ColumnResolved { .. } => {},
        Step::ColumnSpawnWait { .. } => {},
        Step::ColumnSpawned { .. } => {},
        Step::ColumnActivated { .. } => {},
        Step::ColumnMoveWait { .. } => {},
        Step::ColumnPlace { .. } => {},
        Step::Floating { .. } => {},
        Step::FloatingWait { .. } => {},
        Step::PrimaryAfterFloat { .. } => {},
        Step::PrimaryAfterRow { .. } => {},
        Step::PrimaryFocus { .. } => {},
        Step::PrimaryFocusWait { .. } => {},
        Step::PrimaryMove { .. } => {},
        Step::PrimaryMoveWait { .. } => {},
        Step::StackedAfterFloat { .. } => {},
        Step::StackedFocus { .. } => {},
        Step::StackedFocusWait { .. } => {},
        Step::StackedHelper { .. } => {},
        Step::StackedHelperWait { .. } => {},
        Step::StackedCheck { .. } => {},
        Step::StackedConsume { .. } => {},
        Step::StackedConsumeWait { .. } => {},
        Step::RowCheck { .. } => {},
        Step::RowFocusWait { .. } => {},
        Step::RowMove { .. } => {},
        Step::RowMoveWait { .. } => {},
        Step::ColumnWidth { .. } => {},
        Step::ColumnWidthFocus { .. } => {},
        Step::ColumnWidthSet { .. } => {},
        Step::ColumnApply { .. } => {},
        Step::ColumnApplyWidth { .. } => {},
        Step::ColumnWidthWait { .. } => {},
        Step::ColumnApplyHeight { .. } => {},
        Step::ColumnHeightWait { .. } => {},
        Step::FocusFirst { .. } => {},
        Step::FocusFirstResolved { .. } => {},
        Step::FocusFirstQuiet { .. } => {},
        Step::FocusFirstFocus { .. } => {},
        Step::FocusFirstWait { .. } => {},
    }
}

proof fn lemma_checked_windows_have_commands(windows: Seq<WindowSpec>, seen: Set<Seq<char>>)
    requires
        check_windows(windows, seen) is Ok,
    ensures
        forall|k: int| 0 <= k < windows.len() ==> (#[trigger] windows[k]).command@.len() > 0,
    decreases windows.len(),
{
    if windows.len() > 0 {
        lemma_checked_windows_have_commands(windows.drop_first(), seen.insert(windows[0].app_id@));
        assert forall|k: int| 0 <= k < windows.len() implies (#[trigger] windows[k]).command@.len() > 0 by {
            if k > 0 {
                assert(windows[k] == windows.drop_first()[k - 1]);
            }
        }
    }
}

proof fn lemma_checked_columns_are_filled(name: Seq<char>, columns: Seq<ColumnSpec>, seen: Set<Seq<char>>)
    requires
        check_columns(name, columns, seen) is Ok,
    ensures
        forall|j: int| 0 <= j < columns.len() ==> (#[trigger] columns[j]).windows@.len() > 0,
        forall|j: int, k: int| 0 <= j < columns.len() && 0 <= k < columns[j].windows@.len()
            ==> (#[trigger] columns[j].windows@[k]).command@.len() > 0,
    decreases columns.len(),
{
    if columns.len() > 0 {
        let c = columns[0];
        lemma_checked_windows_have_commands(c.windows@, seen);
        let after = check_windows(c.windows@, seen)->Ok_0;
        lemma_checked_columns_are_filled(name, columns.drop_first(), after);
        assert forall|j: int| 0 <= j < columns.len() implies (#[trigger] columns[j]).windows@.len() > 0 by {
            if j > 0 {
                assert(columns[j] == columns.drop_first()[j - 1]);
            }
        }
        assert forall|j: int, k: int| 0 <= j < columns.len() && 0 <= k < columns[j].windows@.len()
            implies (#[trigger] columns[j].windows@[k]).command@.len() > 0 by {
            if j > 0 {
                assert(columns[j] == columns.drop_first()[j - 1]);
            } else {
                assert(c.windows@[k] == columns[j].windows@[k]);
            }
        }
    }
}

proof fn lemma_checked_workspaces_are_filled(workspaces: Seq<WorkspaceSpec>, seen: Set<Seq<char>>)
    requires
        check_workspaces(workspaces, seen) is Ok,
    ensures
        forall|i: int| 0 <= i < workspaces.len() ==> (#[trigger] workspaces[i]).columns@.len() > 0,
        forall|i: int, j: int| 0 <= i < workspaces.len() && 0 <= j < workspaces[i].columns@.len()
            ==> (#[trigger] workspaces[i].columns@[j]).windows@.len() > 0,
        forall|i: int, j: int, k: int|
            0 <= i < workspaces.len() && 0 <= j < workspaces[i].columns@.len() && 0 <= k
                < workspaces[i].columns@[j].windows@.len() ==> (
            #[trigger] workspaces[i].columns@[j].windows@[k]).command@.len() > 0,
    decreases workspaces.len(),
{
    if workspaces.len() > 0 {
        let w = workspaces[0];
        lemma_checked_columns_are_filled(w.name@, w.columns@, seen);
        let after = check_columns(w.name@, w.columns@, seen)->Ok_0;
        let rest = workspaces.drop_first();
        lemma_checked_workspaces_are_filled(rest, after);
        assert forall|i: int| 0 <= i < workspaces.len() implies (#[trigger] workspaces[i]).columns@.len() > 0 by {
            if i > 0 {
                assert(workspaces[i] == rest[i - 1]);
            }
        }
        assert forall|i: int, j: int| 0 <= i < workspaces.len() && 0 <= j < workspaces[i].columns@.len()
            implies (#[trigger] workspaces[i].columns@[j]).windows@.len() > 0 by {
            if i > 0 {
                assert(workspaces[i] == rest[i - 1]);
            } else {
                assert(w.columns@[j] == workspaces[i].columns@[j]);
            }
        }
        assert forall|i: int, j: int, k: int|
            0 <= i < workspaces.len() && 0 <= j < workspaces[i].columns@.len() && 0 <= k
                < workspaces[i].columns@[j].windows@.len() implies (
            #[trigger] workspaces[i].columns@[j].windows@[k]).command@.len() > 0 by {
            if i > 0 {
                assert(workspaces[i] == rest[i - 1]);
            } else {
                assert(w.columns@[j].windows@[k] == workspaces[i].columns@[j].windows@[k]);
            }
        }
    }
}

/// A config that passes validation declares at least one workspace, every workspace
/// has a column, every column a window, and every window a command to start it.
pub proof fn law_valid_config_is_filled(config: Config)
    requires
        validation_failure(config) is None,
    ensures
        config.workspaces@.len() > 0,
        forall|ws: int| 0 <= ws < config.workspaces@.len() ==> #[trigger] column_count(config, ws) > 0,
        forall|ws: int, col: int| 0 <= ws < config.workspaces@.len() && 0 <= col < column_count(config, ws)
            ==> #[trigger] row_count(config, ws, col) > 0,
        forall|ws: int, col: int, row: int|
            0 <= ws < config.workspaces@.len() && 0 <= col < column_count(config, ws) && 0 <= row < row_count(
                config,
                ws,
                col,
            ) ==> (#[trigger] spec_at(config, ws, col, row)).command@.len() > 0,
{
    lemma_checked_workspaces_are_filled(config.workspaces@, Set::empty());
    assert forall|ws: int| 0 <= ws < config.workspaces@.len() implies #[trigger] column_count(config, ws) > 0 by {
        assert(config.workspaces@[ws].columns@.len() > 0);
    }
    assert forall|ws: int, col: int| 0 <= ws < config.workspaces@.len() && 0 <= col < column_count(config, ws)
        implies #[trigger] row_count(config, ws, col) > 0 by {
        assert(config.workspaces@[ws].columns@[col].windows@.len() > 0);
    }
    assert forall|ws: int, col: int, row: int|
        0 <= ws < config.workspaces@.len() && 0 <= col < column_count(config, ws) && 0 <= row < row_count(
            config,
            ws,
            col,
        ) implies (#[trigger] spec_at(config, ws, col, row)).command@.len() > 0 by {
        assert(config.workspaces@[ws].columns@[col].windows@[row].command@.len() > 0);
    }
}

} // verus!
