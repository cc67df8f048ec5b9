//! Plain-value models of the niri compositor records that the library reasons about.
//!
//! Floating-point quantities of the compositor (tile sizes and offsets) are carried as
//! the IEEE-754 bit patterns of the `f64` values, so that they pass through the library
//! unchanged. The library does no arithmetic on them; it only compares tile sizes the way
//! floats compare, on their bits (a NaN equals nothing, and the two zeros are equal).
use vstd::prelude::*;

verus! {

/// A point in time as reported by niri: whole seconds and the sub-second nanoseconds.
#[derive(Debug, Clone, Copy, PartialEq, Eq, Structural)]
pub struct Timestamp {
    pub secs: u64,
    pub nanos: u32,
}

/// Where and how large a window's tile is.
///
/// `tile_size`, `tile_pos_in_workspace_view` and `window_offset_in_tile` hold the bit
/// patterns (`f64::to_bits`) of the compositor's floating-point values.
#[derive(Debug, Clone, Copy, PartialEq, Eq)]
pub struct WindowLayout {
    pub pos_in_scrolling_layout: Option<(usize, usize)>,
    pub tile_size: (u64, u64),
    pub window_size: (i32, i32),
    pub tile_pos_in_workspace_view: Option<(u64, u64)>,
    pub window_offset_in_tile: (u64, u64),
}

/// A toplevel window known to niri.
#[derive(Debug, PartialEq)]
pub struct Window {
    pub id: u64,
    pub title: Option<String>,
    pub app_id: Option<String>,
    pub pid: Option<i32>,
    pub workspace_id: Option<u64>,
    pub is_focused: bool,
    pub is_floating: bool,
    pub is_urgent: bool,
    pub layout: WindowLayout,
    pub focus_timestamp: Option<Timestamp>,
}

/// A workspace known to niri.
#[derive(Debug, PartialEq)]
pub struct Workspace {
    pub id: u64,
    pub idx: u8,
    pub name: Option<String>,
    pub output: Option<String>,
    pub is_urgent: bool,
    pub is_active: bool,
    pub is_focused: bool,
    pub active_window_id: Option<u64>,
}

/// The events of niri's event stream that change the tracked state; every other
/// event of the stream is `Other`.
#[allow(inconsistent_fields)]
#[derive(Debug)]
pub enum Event {
    WorkspacesChanged { workspaces: Vec<Workspace> },
    WorkspaceUrgencyChanged { id: u64, urgent: bool },
    WorkspaceActivated { id: u64, focused: bool },
    WorkspaceActiveWindowChanged { workspace_id: u64, active_window_id: Option<u64> },
    WindowsChanged { windows: Vec<Window> },
    WindowOpenedOrChanged { window: Window },
    WindowClosed { id: u64 },
    WindowFocusChanged { id: Option<u64> },
    WindowFocusTimestampChanged { id: u64, focus_timestamp: Option<Timestamp> },
    WindowUrgencyChanged { id: u64, urgent: bool },
    WindowLayoutsChanged { changes: Vec<(u64, WindowLayout)> },
    ConfigLoaded { failed: bool },
    Other,
}

/// `o` holds a string whose characters are `s`.
pub open spec fn opt_str_is(o: Option<String>, s: Seq<char>) -> bool {
    o matches Some(x) && x@ == s
}

/// Two optional strings hold the same characters (or are both absent).
pub open spec fn opt_str_eq(a: Option<String>, b: Option<String>) -> bool {
    match (a, b) {
        (Some(x), Some(y)) => x@ == y@,
        (None, None) => true,
        _ => false,
    }
}

/// Copies a string; the copy equals the original.
pub fn copy_string(s: &String) -> (r: String)
    ensures
        r == *s,
        r@ == s@,
{
    s.clone()
}

/// Copies an optional string; the copy equals the original.
pub fn copy_opt_string(o: &Option<String>) -> (r: Option<String>)
    ensures
        r == *o,
{
    match o {
        Some(s) => Some(copy_string(s)),
        None => None,
    }
}

/// Compares two strings by their characters.
pub fn string_eq(a: &String, b: &String) -> (r: bool)
    ensures
        r == (a@ == b@),
{
    a.eq(b)
}

/// Compares a string and an optional string by characters.
pub fn opt_string_is(o: &Option<String>, s: &String) -> (r: bool)
    ensures
        r == opt_str_is(*o, s@),
{
    match o {
        Some(x) => string_eq(x, s),
        None => false,
    }
}

/// Compares two optional strings by characters.
pub fn opt_string_eq(a: &Option<String>, b: &Option<String>) -> (r: bool)
    ensures
        r == opt_str_eq(*a, *b),
{
    match (a, b) {
        (Some(x), Some(y)) => string_eq(x, y),
        (None, None) => true,
        _ => false,
    }
}

impl Clone for Window {
    fn clone(&self) -> (r: Self)
        ensures
            r == *self,
    {
        Window {
            id: self.id,
            title: copy_opt_string(&self.title),
            app_id: copy_opt_string(&self.app_id),
            pid: self.pid,
            workspace_id: self.workspace_id,
            is_focused: self.is_focused,
            is_floating: self.is_floating,
            is_urgent: self.is_urgent,
            layout: self.layout,
            focus_timestamp: self.focus_timestamp,
        }
    }
}

impl Clone for Workspace {
    fn clone(&self) -> (r: Self)
        ensures
            r == *self,
    {
        Workspace {
            id: self.id,
            idx: self.idx,
            name: copy_opt_string(&self.name),
            output: copy_opt_string(&self.output),
            is_urgent: self.is_urgent,
            is_active: self.is_active,
            is_focused: self.is_focused,
            active_window_id: self.active_window_id,
        }
    }
}

/// Copies a list of workspaces element by element.
pub fn copy_workspaces(v: &Vec<Workspace>) -> (r: Vec<Workspace>)
    ensures
        r@ == v@,
{
    let mut r: Vec<Workspace> = Vec::new();
    let mut i: usize = 0;
    while i < v.len()
        invariant
            i <= v.len(),
            r@ == v@.take(i as int),
        decreases v.len() - i,
    {
        r.push(v[i].clone());
        assert(v@.take(i + 1) =~= v@.take(i as int).push(v@[i as int]));
        i += 1;
    }
    assert(v@.take(i as int) =~= v@);
    r
}

/// Copies a list of windows element by element.
pub fn copy_windows(v: &Vec<Window>) -> (r: Vec<Window>)
    ensures
        r@ == v@,
{
    let mut r: Vec<Window> = Vec::new();
    let mut i: usize = 0;
    while i < v.len()
        invariant
            i <= v.len(),
            r@ == v@.take(i as int),
        decreases v.len() - i,
    {
        r.push(v[i].clone());
        assert(v@.take(i + 1) =~= v@.take(i as int).push(v@[i as int]));
        i += 1;
    }
    assert(v@.take(i as int) =~= v@);
    r
}

/// Copies a list of layout changes element by element.
pub fn copy_layout_changes(v: &Vec<(u64, WindowLayout)>) -> (r: Vec<(u64, WindowLayout)>)
    ensures
        r@ == v@,
{
    let mut r: Vec<(u64, WindowLayout)> = Vec::new();
    let mut i: usize = 0;
    while i < v.len()
        invariant
            i <= v.len(),
            r@ == v@.take(i as int),
        decreases v.len() - i,
    {
        let (id, layout) = v[i];
        r.push((id, layout));
        assert(v@.take(i + 1) =~= v@.take(i as int).push(v@[i as int]));
        i += 1;
    }
    assert(v@.take(i as int) =~= v@);
    r
}

/// Two events are the same event: same variant and same payload, lists compared by
/// their elements.
pub open spec fn same_event(a: Event, b: Event) -> bool {
    match (a, b) {
        (Event::WorkspacesChanged { workspaces: x }, Event::WorkspacesChanged { workspaces: y }) => x@ == y@,
        (Event::WindowsChanged { windows: x }, Event::WindowsChanged { windows: y }) => x@ == y@,
        (Event::WindowLayoutsChanged { changes: x }, Event::WindowLayoutsChanged { changes: y }) => x@ == y@,
        (Event::WorkspacesChanged { .. }, _) => false,
        (Event::WindowsChanged { .. }, _) => false,
        (Event::WindowLayoutsChanged { .. }, _) => false,
        _ => a == b,
    }
}

impl Clone for Event {
    fn clone(&self) -> (r: Self)
        ensures
            same_event(r, *self),
    {
        match self {
            Event::WorkspacesChanged { workspaces } => {
                let c = copy_workspaces(workspaces);
                assert(c@ =~= workspaces@);
                Event::WorkspacesChanged { workspaces: c }
            },
            Event::WorkspaceUrgencyChanged { id, urgent } => Event::WorkspaceUrgencyChanged { id: *id, urgent: *urgent },
            Event::WorkspaceActivated { id, focused } => Event::WorkspaceActivated { id: *id, focused: *focused },
            Event::WorkspaceActiveWindowChanged { workspace_id, active_window_id } => Event::WorkspaceActiveWindowChanged {
                workspace_id: *workspace_id,
                active_window_id: *active_window_id,
            },
            Event::WindowsChanged { windows } => {
                let c = copy_windows(windows);
                assert(c@ =~= windows@);
                Event::WindowsChanged { windows: c }
            },
            Event::WindowOpenedOrChanged { window } => Event::WindowOpenedOrChanged { window: window.clone() },
            Event::WindowClosed { id } => Event::WindowClosed { id: *id },
            Event::WindowFocusChanged { id } => Event::WindowFocusChanged { id: *id },
            Event::WindowFocusTimestampChanged { id, focus_timestamp } => Event::WindowFocusTimestampChanged {
                id: *id,
                focus_timestamp: *focus_timestamp,
            },
            Event::WindowUrgencyChanged { id, urgent } => Event::WindowUrgencyChanged { id: *id, urgent: *urgent },
            Event::WindowLayoutsChanged { changes } => {
                let c = copy_layout_changes(changes);
                assert(c@ =~= changes@);
                Event::WindowLayoutsChanged { changes: c }
            },
            Event::ConfigLoaded { failed } => Event::ConfigLoaded { failed: *failed },
            Event::Other => Event::Other,
        }
    }
}

} // verus!
