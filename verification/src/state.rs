//! The library's picture of niri's state: workspaces and windows keyed by id, plus
//! indices derived from them.
use std::collections::{BTreeMap, BTreeSet, HashMap};
use vstd::hash_map::StringHashMap;
use vstd::prelude::*;
use vstd::std_specs::iter::IteratorSpec;

use crate::model::{opt_str_is, Window, Workspace};

verus! {

broadcast use vstd::std_specs::hash::group_hash_axioms, vstd::std_specs::btree::group_btree_axioms,
    vstd::laws_cmp::group_laws_cmp;

/// A workspace carries the name `name`.
pub open spec fn ws_named(ws: Workspace, name: Seq<char>) -> bool {
    opt_str_is(ws.name, name)
}

/// A window carries the application id `app`.
pub open spec fn has_app_id(w: Window, app: Seq<char>) -> bool {
    opt_str_is(w.app_id, app)
}

/// A window sits on workspace `key.0` at column `key.1`, row `key.2` of the scrolling layout.
pub open spec fn placed_at(w: Window, key: (u64, usize, usize)) -> bool {
    &&& w.workspace_id == Some(key.0)
    &&& w.layout.pos_in_scrolling_layout == Some((key.1, key.2))
}

/// The ids of the windows that carry the application id `app`.
pub open spec fn app_window_ids(windows: Map<u64, Window>, app: Seq<char>) -> Set<u64> {
    Set::new(|id: u64| windows.contains_key(id) && has_app_id(windows[id], app))
}

/// Every entry of a map is stored under its own id.
pub open spec fn workspaces_keyed_by_id(m: Map<u64, Workspace>) -> bool {
    forall|k: u64| #[trigger] m.contains_key(k) ==> m[k].id == k
}

/// Every entry of a map is stored under its own id.
pub open spec fn windows_keyed_by_id(m: Map<u64, Window>) -> bool {
    forall|k: u64| #[trigger] m.contains_key(k) ==> m[k].id == k
}

/// The name index maps exactly the names in use to the id of a workspace with that name.
pub open spec fn name_index_of(idx: Map<Seq<char>, u64>, workspaces: Map<u64, Workspace>) -> bool {
    &&& forall|name: Seq<char>| #[trigger] idx.contains_key(name)
        ==> workspaces.contains_key(idx[name]) && ws_named(workspaces[idx[name]], name)
    &&& forall|id: u64, name: Seq<char>| workspaces.contains_key(id) && #[trigger] ws_named(workspaces[id], name)
        ==> idx.contains_key(name)
}

/// The application index maps exactly the application ids in use to the set of
/// windows that carry them; no set is empty.
pub open spec fn app_index_of(idx: Map<Seq<char>, BTreeSet<u64>>, windows: Map<u64, Window>) -> bool {
    &&& forall|app: Seq<char>| #[trigger] idx.contains_key(app) ==> idx[app]@ == app_window_ids(windows, app)
    &&& forall|app: Seq<char>| #[trigger] idx.contains_key(app)
        ==> exists|id: u64| #[trigger] app_window_ids(windows, app).contains(id)
    &&& forall|id: u64, app: Seq<char>| windows.contains_key(id) && #[trigger] has_app_id(windows[id], app)
        ==> idx.contains_key(app)
}

/// The position index maps exactly the occupied (workspace, column, row) slots to a
/// window placed there.
pub open spec fn position_index_of(idx: Map<(u64, usize, usize), u64>, windows: Map<u64, Window>) -> bool {
    &&& forall|key: (u64, usize, usize)| #[trigger] idx.contains_key(key)
        ==> windows.contains_key(idx[key]) && placed_at(windows[idx[key]], key)
    &&& forall|id: u64, key: (u64, usize, usize)| windows.contains_key(id) && #[trigger] placed_at(windows[id], key)
        ==> idx.contains_key(key)
}

/// niri's state as the event stream has reported it.
pub struct ActualState {
    pub workspaces: HashMap<u64, Workspace>,
    pub windows: HashMap<u64, Window>,
    pub last_config_loaded_failed: Option<bool>,
    pub workspace_name_to_id: StringHashMap<u64>,
    pub windows_by_app_id: StringHashMap<BTreeSet<u64>>,
    pub positions: BTreeMap<(u64, usize, usize), u64>,
}

impl ActualState {
    /// Both maps store each record under its own id.
    pub open spec fn keyed_by_id(&self) -> bool {
        &&& workspaces_keyed_by_id(self.workspaces@)
        &&& windows_keyed_by_id(self.windows@)
    }

    /// The three derived indices agree with the workspace and window maps.
    pub open spec fn indices_consistent(&self) -> bool {
        &&& name_index_of(self.workspace_name_to_id@, self.workspaces@)
        &&& app_index_of(self.windows_by_app_id@, self.windows@)
        &&& position_index_of(self.positions@, self.windows@)
    }

    /// The state's invariant: records keyed by their ids and indices up to date.
    pub open spec fn well_formed(&self) -> bool {
        &&& self.keyed_by_id()
        &&& self.indices_consistent()
    }
}

/// Builds the name index of a workspace map.
fn build_name_index(workspaces: &HashMap<u64, Workspace>) -> (idx: StringHashMap<u64>)
    ensures
        name_index_of(idx@, workspaces@),
{
    let mut idx: StringHashMap<u64> = StringHashMap::new();
    let ghost m = workspaces@;
    for (id, ws) in it: workspaces.iter()
        invariant
            m == workspaces@,
            it.seq() == vstd::std_specs::hash::spec_hash_map_iter(workspaces).remaining(),
            forall|name: Seq<char>| #[trigger] idx@.contains_key(name)
                ==> m.contains_key(idx@[name]) && ws_named(m[idx@[name]], name),
            forall|i: int, name: Seq<char>| 0 <= i < it.index() && #[trigger] ws_named(*it.seq()[i].1, name)
                ==> idx@.contains_key(name),
    {
        match &ws.name {
            Some(n) => {
                idx.insert(n.clone(), *id);
            },
            None => {},
        }
    }
    assert forall|id: u64, name: Seq<char>| m.contains_key(id) && #[trigger] ws_named(m[id], name)
        implies idx@.contains_key(name) by {
        let v = vstd::std_specs::hash::spec_hash_map_iter(workspaces).remaining();
        assert(v.contains((&id, &m[id])));
        let i = choose|i: int| 0 <= i < v.len() && v[i] == (&id, &m[id]);
        assert(ws_named(*v[i].1, name));
    }
    idx
}

/// The ids among the first `n` entries of an iteration over a window map that carry
/// the application id `app`.
spec fn prefix_app_ids(entries: Seq<(&u64, &Window)>, n: int, app: Seq<char>) -> Set<u64> {
    Set::new(|id: u64| exists|i: int| 0 <= i < n && *entries[i].0 == id && #[trigger] has_app_id(*entries[i].1, app))
}

/// Builds the application index of a window map.
fn build_app_index(windows: &HashMap<u64, Window>) -> (idx: StringHashMap<BTreeSet<u64>>)
    ensures
        app_index_of(idx@, windows@),
{
    let mut idx: StringHashMap<BTreeSet<u64>> = StringHashMap::new();
    let ghost m = windows@;
    let ghost entries = vstd::std_specs::hash::spec_hash_map_iter(windows).remaining();
    for (id, w) in it: windows.iter()
        invariant
            m == windows@,
            entries == vstd::std_specs::hash::spec_hash_map_iter(windows).remaining(),
            it.seq() == entries,
            forall|app: Seq<char>| #[trigger] idx@.contains_key(app)
                ==> idx@[app]@ == prefix_app_ids(entries, it.index(), app),
            forall|i: int, app: Seq<char>| 0 <= i < it.index() && #[trigger] has_app_id(*entries[i].1, app)
                ==> idx@.contains_key(app),
            forall|app: Seq<char>| #[trigger] idx@.contains_key(app)
                ==> exists|i: int| 0 <= i < it.index() && #[trigger] has_app_id(*entries[i].1, app),
    {
        let ghost n = it.index();
        let ghost old_idx = idx@;
        match &w.app_id {
            Some(a) => {
                let mut ids: BTreeSet<u64> = match idx.get(a.as_str()) {
                    Some(existing) => existing.clone(),
                    None => BTreeSet::new(),
                };
                ids.insert(*id);
                idx.insert(a.clone(), ids);
                proof {
                    assert(has_app_id(*entries[n as int].1, a@));
                    assert forall|app: Seq<char>| #[trigger] idx@.contains_key(app)
                        implies exists|i: int| 0 <= i < n + 1 && #[trigger] has_app_id(*entries[i].1, app) by {
                        if app != a@ {
                            let i = choose|i: int| 0 <= i < n && #[trigger] has_app_id(*entries[i].1, app);
                            assert(has_app_id(*entries[i].1, app));
                        }
                    }
                    assert forall|app: Seq<char>| #[trigger] idx@.contains_key(app)
                        implies idx@[app]@ == prefix_app_ids(entries, n + 1, app) by {
                        if app == a@ {
                            assert forall|x: u64| idx@[app]@.contains(x)
                                <==> prefix_app_ids(entries, n + 1, app).contains(x) by {
                                if prefix_app_ids(entries, n + 1, app).contains(x) {
                                    let i = choose|i: int| 0 <= i < n + 1 && *entries[i].0 == x
                                        && #[trigger] has_app_id(*entries[i].1, app);
                                    if i < n {
                                        assert(prefix_app_ids(entries, n, app).contains(x));
                                    }
                                }
                                if idx@[app]@.contains(x) && x != *id {
                                    assert(prefix_app_ids(entries, n, app).contains(x));
                                }
                                if x == *id {
                                    assert(has_app_id(*entries[n].1, app));
                                }
                            }
                            assert(idx@[app]@ =~= prefix_app_ids(entries, n + 1, app));
                        } else {
                            assert forall|x: u64| old_idx[app]@.contains(x)
                                <==> prefix_app_ids(entries, n + 1, app).contains(x) by {
                                if prefix_app_ids(entries, n + 1, app).contains(x) {
                                    let i = choose|i: int| 0 <= i < n + 1 && *entries[i].0 == x
                                        && #[trigger] has_app_id(*entries[i].1, app);
                                    if i < n {
                                        assert(prefix_app_ids(entries, n, app).contains(x));
                                    }
                                }
                                if old_idx[app]@.contains(x) {
                                    let i = choose|i: int| 0 <= i < n && *entries[i].0 == x
                                        && #[trigger] has_app_id(*entries[i].1, app);
                                    assert(0 <= i < n + 1);
                                }
                            }
                            assert(idx@[app]@ =~= prefix_app_ids(entries, n + 1, app));
                        }
                    }
                }
            },
            None => {
                proof {
                    assert forall|app: Seq<char>| #[trigger] idx@.contains_key(app)
                        implies idx@[app]@ == prefix_app_ids(entries, n + 1, app) by {
                        assert forall|x: u64| idx@[app]@.contains(x)
                            <==> prefix_app_ids(entries, n + 1, app).contains(x) by {
                            if prefix_app_ids(entries, n + 1, app).contains(x) {
                                let i = choose|i: int| 0 <= i < n + 1 && *entries[i].0 == x
                                    && #[trigger] has_app_id(*entries[i].1, app);
                                if i < n {
                                    assert(prefix_app_ids(entries, n, app).contains(x));
                                }
                            }
                            if idx@[app]@.contains(x) {
                                let i = choose|i: int| 0 <= i < n && *entries[i].0 == x
                                    && #[trigger] has_app_id(*entries[i].1, app);
                                assert(0 <= i < n + 1);
                            }
                        }
                        assert(idx@[app]@ =~= prefix_app_ids(entries, n + 1, app));
                    }
                }
            },
        }
    }
    assert forall|app: Seq<char>| #[trigger] idx@.contains_key(app) implies idx@[app]@ == app_window_ids(m, app) by {
        assert forall|x: u64| prefix_app_ids(entries, entries.len() as int, app).contains(x)
            <==> app_window_ids(m, app).contains(x) by {
            if prefix_app_ids(entries, entries.len() as int, app).contains(x) {
                let i = choose|i: int| 0 <= i < entries.len() && *entries[i].0 == x
                    && #[trigger] has_app_id(*entries[i].1, app);
                assert(m.contains_key(*entries[i].0) && m[*entries[i].0] == *entries[i].1);
            }
            if app_window_ids(m, app).contains(x) {
                assert(entries.contains((&x, &m[x])));
                let i = choose|i: int| 0 <= i < entries.len() && entries[i] == (&x, &m[x]);
                assert(has_app_id(*entries[i].1, app));
            }
        }
        assert(prefix_app_ids(entries, entries.len() as int, app) =~= app_window_ids(m, app));
    }
    assert forall|app: Seq<char>| #[trigger] idx@.contains_key(app)
        implies exists|id: u64| #[trigger] app_window_ids(m, app).contains(id) by {
        let i = choose|i: int| 0 <= i < entries.len() && #[trigger] has_app_id(*entries[i].1, app);
        assert(m.contains_key(*entries[i].0) && m[*entries[i].0] == *entries[i].1);
        assert(app_window_ids(m, app).contains(*entries[i].0));
    }
    assert forall|id: u64, app: Seq<char>| m.contains_key(id) && #[trigger] has_app_id(m[id], app)
        implies idx@.contains_key(app) by {
        assert(entries.contains((&id, &m[id])));
        let i = choose|i: int| 0 <= i < entries.len() && entries[i] == (&id, &m[id]);
        assert(has_app_id(*entries[i].1, app));
    }
    idx
}

/// Builds the position index of a window map whose windows are stored under their ids.
fn build_position_index(windows: &HashMap<u64, Window>) -> (idx: BTreeMap<(u64, usize, usize), u64>)
    requires
        windows_keyed_by_id(windows@),
    ensures
        position_index_of(idx@, windows@),
{
    let mut idx: BTreeMap<(u64, usize, usize), u64> = BTreeMap::new();
    let ghost m = windows@;
    let ghost entries = vstd::std_specs::hash::spec_hash_map_iter(windows).remaining();
    for (id, w) in it: windows.iter()
        invariant
            m == windows@,
            windows_keyed_by_id(m),
            entries == vstd::std_specs::hash::spec_hash_map_iter(windows).remaining(),
            it.seq() == entries,
            forall|key: (u64, usize, usize)| #[trigger] idx@.contains_key(key)
                ==> m.contains_key(idx@[key]) && placed_at(m[idx@[key]], key),
            forall|i: int, key: (u64, usize, usize)| 0 <= i < it.index() && #[trigger] placed_at(*entries[i].1, key)
                ==> idx@.contains_key(key),
    {
        assert(m.contains_key(*id) && m[*id] == *w);
        match (w.workspace_id, w.layout.pos_in_scrolling_layout) {
            (Some(workspace_id), Some((column, row))) => {
                idx.insert((workspace_id, column, row), w.id);
            },
            _ => {},
        }
    }
    assert forall|id: u64, key: (u64, usize, usize)| m.contains_key(id) && #[trigger] placed_at(m[id], key)
        implies idx@.contains_key(key) by {
        assert(entries.contains((&id, &m[id])));
        let i = choose|i: int| 0 <= i < entries.len() && entries[i] == (&id, &m[id]);
        assert(placed_at(*entries[i].1, key));
    }
    idx
}

impl ActualState {
    /// An empty state: no workspaces, no windows, no config-load report.
    pub fn new() -> (s: Self)
        ensures
            s.well_formed(),
            s.workspaces@ == Map::<u64, Workspace>::empty(),
            s.windows@ == Map::<u64, Window>::empty(),
            s.last_config_loaded_failed is None,
    {
        ActualState {
            workspaces: HashMap::new(),
            windows: HashMap::new(),
            last_config_loaded_failed: None,
            workspace_name_to_id: StringHashMap::new(),
            windows_by_app_id: StringHashMap::new(),
            positions: BTreeMap::new(),
        }
    }

    /// Recomputes the name, application and position indices from the workspace and
    /// window maps.
    pub fn rebuild_indices(&mut self)
        requires
            old(self).keyed_by_id(),
        ensures
            final(self).well_formed(),
            final(self).workspaces@ == old(self).workspaces@,
            final(self).windows@ == old(self).windows@,
            final(self).last_config_loaded_failed == old(self).last_config_loaded_failed,
    {
        self.workspace_name_to_id = build_name_index(&self.workspaces);
        self.windows_by_app_id = build_app_index(&self.windows);
        self.positions = build_position_index(&self.windows);
    }
}

/// The map that collecting `(workspace.id, workspace)` pairs of a sequence yields:
/// a later workspace with the same id replaces an earlier one.
pub open spec fn workspace_map(s: Seq<Workspace>) -> Map<u64, Workspace>
    decreases s.len(),
{
    if s.len() == 0 {
        Map::empty()
    } else {
        workspace_map(s.drop_last()).insert(s.last().id, s.last())
    }
}

/// The map that collecting `(window.id, window)` pairs of a sequence yields:
/// a later window with the same id replaces an earlier one.
pub open spec fn window_map(s: Seq<Window>) -> Map<u64, Window>
    decreases s.len(),
{
    if s.len() == 0 {
        Map::empty()
    } else {
        window_map(s.drop_last()).insert(s.last().id, s.last())
    }
}

proof fn lemma_workspace_map_keyed(s: Seq<Workspace>)
    ensures
        workspaces_keyed_by_id(workspace_map(s)),
    decreases s.len(),
{
    if s.len() > 0 {
        lemma_workspace_map_keyed(s.drop_last());
    }
}

proof fn lemma_window_map_keyed(s: Seq<Window>)
    ensures
        windows_keyed_by_id(window_map(s)),
    decreases s.len(),
{
    if s.len() > 0 {
        lemma_window_map_keyed(s.drop_last());
    }
}

/// Collects workspaces into a map keyed by id.
fn collect_workspaces(workspaces: &Vec<Workspace>) -> (m: HashMap<u64, Workspace>)
    ensures
        m@ == workspace_map(workspaces@),
{
    let mut m: HashMap<u64, Workspace> = HashMap::new();
    let mut i: usize = 0;
    while i < workspaces.len()
        invariant
            i <= workspaces.len(),
            m@ == workspace_map(workspaces@.take(i as int)),
        decreases workspaces.len() - i,
    {
        let ws = workspaces[i].clone();
        m.insert(ws.id, ws);
        assert(workspaces@.take(i + 1).drop_last() =~= workspaces@.take(i as int));
        i += 1;
    }
    assert(workspaces@.take(i as int) =~= workspaces@);
    m
}

/// Collects windows into a map keyed by id.
fn collect_windows(windows: &Vec<Window>) -> (m: HashMap<u64, Window>)
    ensures
        m@ == window_map(windows@),
{
    let mut m: HashMap<u64, Window> = HashMap::new();
    let mut i: usize = 0;
    while i < windows.len()
        invariant
            i <= windows.len(),
            m@ == window_map(windows@.take(i as int)),
        decreases windows.len() - i,
    {
        let w = windows[i].clone();
        m.insert(w.id, w);
        assert(windows@.take(i + 1).drop_last() =~= windows@.take(i as int));
        i += 1;
    }
    assert(windows@.take(i as int) =~= windows@);
    m
}

impl ActualState {
    /// Replaces the whole workspace map by the given workspaces.
    pub fn replace_workspaces(&mut self, workspaces: Vec<Workspace>)
        requires
            old(self).keyed_by_id(),
        ensures
            final(self).well_formed(),
            final(self).workspaces@ == workspace_map(workspaces@),
            final(self).windows@ == old(self).windows@,
            final(self).last_config_loaded_failed == old(self).last_config_loaded_failed,
    {
        self.workspaces = collect_workspaces(&workspaces);
        proof {
            lemma_workspace_map_keyed(workspaces@);
        }
        self.rebuild_indices();
    }

    /// Replaces the whole window map by the given windows.
    pub fn replace_windows(&mut self, windows: Vec<Window>)
        requires
            old(self).keyed_by_id(),
        ensures
            final(self).well_formed(),
            final(self).windows@ == window_map(windows@),
            final(self).workspaces@ == old(self).workspaces@,
            final(self).last_config_loaded_failed == old(self).last_config_loaded_failed,
    {
        self.windows = collect_windows(&windows);
        proof {
            lemma_window_map_keyed(windows@);
        }
        self.rebuild_indices();
    }

    /// The id the name index gives for `name`.
    pub open spec fn spec_workspace_id_by_name(&self, name: Seq<char>) -> Option<u64> {
        if self.workspace_name_to_id@.contains_key(name) {
            Some(self.workspace_name_to_id@[name])
        } else {
            None
        }
    }

    /// The id of a workspace named `name`, if there is one. Where several workspaces
    /// share the name, the name index holds one of them.
    pub fn workspace_id_by_name(&self, name: &str) -> (r: Option<u64>)
        requires
            self.well_formed(),
        ensures
            r == self.spec_workspace_id_by_name(name@),
            r is None <==> (forall|id: u64| self.workspaces@.contains_key(id) ==> !ws_named(#[trigger] self.workspaces@[id], name@)),
            r matches Some(id) ==> self.workspaces@.contains_key(id) && ws_named(self.workspaces@[id], name@),
    {
        match self.workspace_name_to_id.get(name) {
            Some(id) => Some(*id),
            None => None,
        }
    }

    /// The workspace that `workspace_id_by_name` designates.
    pub fn workspace_by_name(&self, name: &str) -> (r: Option<&Workspace>)
        requires
            self.well_formed(),
        ensures
            match self.spec_workspace_id_by_name(name@) {
                Some(id) => r == Some(&self.workspaces@[id]),
                None => r is None,
            },
    {
        match self.workspace_id_by_name(name) {
            Some(id) => self.workspaces.get(&id),
            None => None,
        }
    }

    /// The scrolling-layout position (column, row) of a window, if it is known and tiled.
    pub fn window_position_by_id(&self, window_id: u64) -> (r: Option<(usize, usize)>)
        ensures
            r == (if self.windows@.contains_key(window_id) {
                self.windows@[window_id].layout.pos_in_scrolling_layout
            } else {
                None
            }),
    {
        match self.windows.get(&window_id) {
            Some(w) => w.layout.pos_in_scrolling_layout,
            None => None,
        }
    }

    /// The ids of the known windows.
    pub fn window_ids(&self) -> (r: Vec<u64>)
        ensures
            forall|id: u64| r@.contains(id) <==> self.windows@.contains_key(id),
    {
        let mut r: Vec<u64> = Vec::new();
        let ghost entries = vstd::std_specs::hash::spec_hash_map_iter(&self.windows).remaining();
        proof {
            lemma_seen_all(&self.windows);
        }
        for (id, w) in it: self.windows.iter()
            invariant
                entries == vstd::std_specs::hash::spec_hash_map_iter(&self.windows).remaining(),
                it.seq() == entries,
                forall|k: u64| r@.contains(k) <==> seen_keys(entries, it.index() as int).contains(k),
        {
            let ghost n = it.index();
            let ghost before = r@;
            proof {
                lemma_seen_step(entries, n as int);
            }
            r.push(*id);
            assert forall|k: u64| r@.contains(k) <==> seen_keys(entries, n + 1).contains(k) by {
                if r@.contains(k) && k != *id {
                    let j = choose|j: int| 0 <= j < r@.len() && r@[j] == k;
                    assert(before[j] == k);
                }
                if before.contains(k) {
                    let j = choose|j: int| 0 <= j < before.len() && before[j] == k;
                    assert(r@[j] == k);
                }
                assert(r@[before.len() as int] == *id);
            }
        }
        r
    }
}

/// `x` orders before `y` (`false` before `true`).
pub open spec fn bool_lt(x: bool, y: bool) -> bool {
    !x && y
}

/// The key by which a window is preferred among windows of one application id: first
/// whether it is on the preferred workspace, then whether it is tiled, then whether it
/// is focused, then its id. The preferred window has the greatest key.
pub open spec fn window_rank(w: Window, preferred: Option<u64>) -> (bool, bool, bool, u64) {
    (preferred is Some && w.workspace_id == preferred, !w.is_floating, w.is_focused, w.id)
}

/// Lexicographic strict order on window ranks.
pub open spec fn rank_lt(a: (bool, bool, bool, u64), b: (bool, bool, bool, u64)) -> bool {
    ||| bool_lt(a.0, b.0)
    ||| a.0 == b.0 && bool_lt(a.1, b.1)
    ||| a.0 == b.0 && a.1 == b.1 && bool_lt(a.2, b.2)
    ||| a.0 == b.0 && a.1 == b.1 && a.2 == b.2 && a.3 < b.3
}

/// `id` is the window of application `app` with the greatest rank.
pub open spec fn is_preferred_window(windows: Map<u64, Window>, app: Seq<char>, preferred: Option<u64>, id: u64) -> bool {
    &&& app_window_ids(windows, app).contains(id)
    &&& forall|o: u64| #[trigger] app_window_ids(windows, app).contains(o)
        ==> !rank_lt(window_rank(windows[id], preferred), window_rank(windows[o], preferred))
}

fn rank_of(w: &Window, preferred: Option<u64>) -> (r: (bool, bool, bool, u64))
    ensures
        r == window_rank(*w, preferred),
{
    let on_preferred = match preferred {
        Some(p) => match w.workspace_id {
            Some(ws) => ws == p,
            None => false,
        },
        None => false,
    };
    (on_preferred, !w.is_floating, w.is_focused, w.id)
}

fn rank_less(a: (bool, bool, bool, u64), b: (bool, bool, bool, u64)) -> (r: bool)
    ensures
        r == rank_lt(a, b),
{
    if a.0 != b.0 {
        !a.0 && b.0
    } else if a.1 != b.1 {
        !a.1 && b.1
    } else if a.2 != b.2 {
        !a.2 && b.2
    } else {
        a.3 < b.3
    }
}

impl ActualState {
    /// The workspace id that an optional preferred workspace name resolves to.
    pub open spec fn spec_preferred_id(&self, preferred_workspace: Option<&str>) -> Option<u64> {
        match preferred_workspace {
            Some(name) => self.spec_workspace_id_by_name(name@),
            None => None,
        }
    }

    /// Among the windows with application id `app_id`, the one with the greatest rank
    /// (on the preferred workspace, tiled, focused, highest id, in that order).
    pub fn preferred_window_id_by_app_id(&self, app_id: &str, preferred_workspace: Option<&str>) -> (r: Option<u64>)
        requires
            self.well_formed(),
        ensures
            r is None <==> app_window_ids(self.windows@, app_id@).is_empty(),
            r matches Some(id) ==> is_preferred_window(
                self.windows@,
                app_id@,
                self.spec_preferred_id(preferred_workspace),
                id,
            ),
    {
        let preferred_id = match preferred_workspace {
            Some(name) => self.workspace_id_by_name(name),
            None => None,
        };
        let ghost m = self.windows@;
        let ghost app = app_id@;
        match self.windows_by_app_id.get(app_id) {
            None => {
                assert(app_window_ids(m, app) =~= Set::empty());
                None
            },
            Some(ids) => {
                let ghost entries = vstd::std_specs::btree::spec_btree_keys_iter(ids).remaining();
                assert(ids@ == app_window_ids(m, app));
                let mut best: Option<(u64, (bool, bool, bool, u64))> = None;
                for id in it: ids.iter()
                    invariant
                        m == self.windows@,
                        self.well_formed(),
                        ids@ == app_window_ids(m, app),
                        entries == vstd::std_specs::btree::spec_btree_keys_iter(ids).remaining(),
                        it.seq() == entries,
                        entries.unref().to_set() == ids@,
                        best is None ==> it.index() == 0,
                        best matches Some(b) ==> {
                            &&& ids@.contains(b.0)
                            &&& b.1 == window_rank(m[b.0], preferred_id)
                            &&& forall|j: int| 0 <= j < it.index()
                                ==> !rank_lt(b.1, window_rank(m[*entries[j]], preferred_id))
                        },
                {
                    let ghost n = it.index();
                    assert(entries.unref().to_set().contains(*entries[n]));
                    assert(ids@.contains(*id));
                    match self.windows.get(id) {
                        Some(w) => {
                            let rk = rank_of(w, preferred_id);
                            let replace = match best {
                                None => true,
                                Some(b) => rank_less(b.1, rk),
                            };
                            if replace {
                                best = Some((*id, rk));
                            }
                        },
                        None => {},
                    }
                }
                match best {
                    Some(b) => Some(b.0),
                    None => {
                        assert(ids@ =~= Set::empty()) by {
                            assert forall|o: u64| !ids@.contains(o) by {
                                if ids@.contains(o) {
                                    assert(entries.unref().to_set().contains(o));
                                }
                            }
                        }
                        None
                    },
                }
            },
        }
    }
}

/// A window is a tiled window on workspace `ws` in column `column`.
pub open spec fn in_column(w: Window, ws: u64, column: usize) -> bool {
    &&& w.workspace_id == Some(ws)
    &&& !w.is_floating
    &&& w.layout.pos_in_scrolling_layout matches Some(pos) && pos.0 == column
}

/// Selects the ids whose windows are tiled in column `column` of workspace `ws`.
pub open spec fn column_filter(windows: Map<u64, Window>, ws: u64, column: usize) -> spec_fn(u64) -> bool {
    |id: u64| in_column(windows[id], ws, column)
}

/// The ids of the tiled windows in column `column` of workspace `ws`.
pub open spec fn column_window_ids(windows: Map<u64, Window>, ws: u64, column: usize) -> Set<u64> {
    windows.dom().filter(column_filter(windows, ws, column))
}

/// Some tiled window of workspace `ws` is in column `column`.
pub open spec fn column_occupied(windows: Map<u64, Window>, ws: u64, column: usize) -> bool {
    exists|id: u64| windows.contains_key(id) && #[trigger] in_column(windows[id], ws, column)
}

/// A sequence of columns in strictly increasing order.
pub open spec fn strictly_increasing(q: Seq<usize>) -> bool {
    forall|i: int, j: int| 0 <= i < j < q.len() ==> q[i] < q[j]
}

/// The occupied columns of workspace `ws`, in increasing order.
pub open spec fn occupied_columns(windows: Map<u64, Window>, ws: u64) -> Seq<usize> {
    choose|q: Seq<usize>| strictly_increasing(q) && forall|c: usize| q.contains(c) <==> column_occupied(windows, ws, c)
}

/// The number of tiled windows in each occupied column of workspace `ws`, from the
/// leftmost occupied column to the rightmost.
pub open spec fn column_counts(windows: Map<u64, Window>, ws: u64) -> Seq<usize> {
    occupied_columns(windows, ws).map_values(|c: usize| column_window_ids(windows, ws, c).len() as usize)
}

/// Two strictly increasing sequences with the same elements are equal.
proof fn lemma_sorted_unique(a: Seq<usize>, b: Seq<usize>)
    requires
        strictly_increasing(a),
        strictly_increasing(b),
        forall|c: usize| a.contains(c) <==> b.contains(c),
    ensures
        a == b,
    decreases a.len(),
{
    if a.len() == 0 {
        if b.len() > 0 {
            assert(b.contains(b[0]));
        }
        assert(a =~= b);
    } else {
        assert(a.contains(a[0]));
        assert(b.len() > 0);
        assert(b.contains(b[0]));
        let ia = choose|i: int| 0 <= i < a.len() && a[i] == b[0];
        let ib = choose|i: int| 0 <= i < b.len() && b[i] == a[0];
        assert(a[0] <= a[ia]);
        assert(b[0] <= b[ib]);
        assert(a[0] == b[0]);
        let a1 = a.drop_first();
        let b1 = b.drop_first();
        assert forall|c: usize| a1.contains(c) <==> b1.contains(c) by {
            if a1.contains(c) {
                let i = choose|i: int| 0 <= i < a1.len() && a1[i] == c;
                assert(a[i + 1] == c);
                assert(c > a[0]);
                assert(b.contains(c));
                let k = choose|k: int| 0 <= k < b.len() && b[k] == c;
                assert(k != 0);
                assert(b1[k - 1] == c);
            }
            if b1.contains(c) {
                let i = choose|i: int| 0 <= i < b1.len() && b1[i] == c;
                assert(b[i + 1] == c);
                assert(c > b[0]);
                assert(a.contains(c));
                let k = choose|k: int| 0 <= k < a.len() && a[k] == c;
                assert(k != 0);
                assert(a1[k - 1] == c);
            }
        }
        lemma_sorted_unique(a1, b1);
        assert(a =~= b) by {
            assert forall|i: int| 0 <= i < a.len() implies a[i] == b[i] by {
                if i > 0 {
                    assert(a[i] == a1[i - 1]);
                    assert(b[i] == b1[i - 1]);
                }
            }
        }
    }
}

/// Some id of `seen` belongs to a tiled window in column `column` of workspace `ws`.
spec fn witnessed(seen: Set<u64>, windows: Map<u64, Window>, ws: u64, column: usize) -> bool {
    exists|k: u64| seen.contains(k) && #[trigger] in_column(windows[k], ws, column)
}

proof fn lemma_witness_grows(small: Set<u64>, large: Set<u64>, windows: Map<u64, Window>, ws: u64, column: usize)
    requires
        witnessed(small, windows, ws, column),
        small.subset_of(large),
    ensures
        witnessed(large, windows, ws, column),
{
    let k = choose|k: u64| small.contains(k) && #[trigger] in_column(windows[k], ws, column);
    assert(large.contains(k));
}

/// Per-column counts of the tiled windows of workspace `ws`, as (column, count) pairs
/// in increasing column order.
fn column_count_pairs(windows: &HashMap<u64, Window>, ws: u64) -> (pairs: Vec<(usize, usize)>)
    ensures
        forall|i: int, j: int| 0 <= i < j < pairs.len() ==> pairs@[i].0 < pairs@[j].0,
        forall|c: usize| column_occupied(windows@, ws, c) ==> exists|i: int| 0 <= i < pairs.len() && #[trigger] pairs@[i].0 == c,
        forall|i: int| 0 <= i < pairs.len() ==> column_occupied(windows@, ws, #[trigger] pairs@[i].0),
        forall|i: int| 0 <= i < pairs.len() ==> #[trigger] pairs@[i].1 == column_window_ids(windows@, ws, pairs@[i].0).len(),
{
    let ghost m = windows@;
    let total = windows.len();
    let iter = windows.iter();
    let ghost entries = iter.remaining();
    assert(entries.no_duplicates());
    let mut pairs: Vec<(usize, usize)> = Vec::new();
    let ghost mut seen: Set<u64> = Set::empty();
    for (id, w) in it: iter
        invariant
            m == windows@,
            total == m.len(),
            entries == vstd::std_specs::hash::spec_hash_map_iter(windows).remaining(),
            entries.len() == m.dom().len(),
            entries.no_duplicates(),
            it.seq() == entries,
            seen.finite(),
            seen.len() == it.index(),
            forall|k: u64| seen.contains(k) <==> exists|i: int| 0 <= i < it.index() && *entries[i].0 == k,
            forall|i: int, j: int| 0 <= i < j < pairs.len() ==> pairs@[i].0 < pairs@[j].0,
            forall|i: int| 0 <= i < pairs.len() ==> #[trigger] pairs@[i].1
                == seen.filter(column_filter(m, ws, pairs@[i].0)).len(),
            forall|i: int| 0 <= i < pairs.len() ==> #[trigger] pairs@[i].1 > 0,
            forall|k: u64, c: usize| seen.contains(k) && #[trigger] in_column(m[k], ws, c)
                ==> exists|i: int| 0 <= i < pairs.len() && #[trigger] pairs@[i].0 == c,
            forall|i: int| 0 <= i < pairs.len() ==> witnessed(seen, m, ws, #[trigger] pairs@[i].0),
    {
        let ghost n = it.index();
        assert(m.contains_key(*id) && m[*id] == *w);
        assert(!seen.contains(*id)) by {
            if seen.contains(*id) {
                let i = choose|i: int| 0 <= i < n && *entries[i].0 == *id;
                assert(m[*entries[i].0] == *entries[i].1);
                assert(entries[i] == entries[n]);
            }
        }
        let ghost old_seen = seen;
        let ghost old_pairs = pairs@;
        proof {
            seen = seen.insert(*id);
            assert forall|k: u64| seen.contains(k) <==> exists|i: int| 0 <= i < n + 1 && *entries[i].0 == k by {
                if seen.contains(k) && k != *id {
                    let i = choose|i: int| 0 <= i < n && *entries[i].0 == k;
                    assert(0 <= i < n + 1);
                }
                if exists|i: int| 0 <= i < n + 1 && *entries[i].0 == k {
                    let i = choose|i: int| 0 <= i < n + 1 && *entries[i].0 == k;
                    if i < n {
                        assert(old_seen.contains(k));
                    }
                }
            }
        }
        let relevant = match w.workspace_id {
            Some(x) => x == ws && !w.is_floating,
            None => false,
        };
        let column_opt = if relevant { w.layout.pos_in_scrolling_layout } else { None };
        match column_opt {
            Some((column, _)) => {
                assert(in_column(m[*id], ws, column));
                let mut j: usize = 0;
                while j < pairs.len() && pairs[j].0 < column
                    invariant
                        j <= pairs.len(),
                        pairs@ == old_pairs,
                        forall|i: int| 0 <= i < j ==> pairs@[i].0 < column,
                    decreases pairs.len() - j,
                {
                    j += 1;
                }
                proof {
                    assert forall|i: int| 0 <= i < old_pairs.len() && old_pairs[i].0 != column implies
                        seen.filter(column_filter(m, ws, old_pairs[i].0)) == old_seen.filter(column_filter(m, ws, old_pairs[i].0)) by {
                        assert(seen.filter(column_filter(m, ws, old_pairs[i].0)) =~= old_seen.filter(column_filter(m, ws, old_pairs[i].0)));
                    }
                }
                if j < pairs.len() && pairs[j].0 == column {
                    let count = pairs[j].1;
                    proof {
                        let f = column_filter(m, ws, column);
                        assert(seen.filter(f) =~= old_seen.filter(f).insert(*id));
                        old_seen.lemma_len_filter(f);
                        assert(count <= old_seen.len());
                    }
                    pairs.set(j, (column, count + 1));
                    proof {
                        assert forall|k: u64, c: usize| seen.contains(k) && #[trigger] in_column(m[k], ws, c)
                            implies exists|i: int| 0 <= i < pairs.len() && #[trigger] pairs@[i].0 == c by {
                            if k == *id {
                                assert(c == column);
                                assert(pairs@[j as int].0 == c);
                            } else {
                                let i = choose|i: int| 0 <= i < old_pairs.len() && #[trigger] old_pairs[i].0 == c;
                                assert(pairs@[i].0 == c);
                            }
                        }
                        assert forall|i: int| 0 <= i < pairs.len() implies witnessed(seen, m, ws, #[trigger] pairs@[i].0) by {
                            assert(pairs@[i].0 == old_pairs[i].0);
                            lemma_witness_grows(old_seen, seen, m, ws, old_pairs[i].0);
                        }
                    }
                } else {
                    proof {
                        let f = column_filter(m, ws, column);
                        assert(old_seen.filter(f) =~= Set::empty()) by {
                            assert forall|k: u64| !old_seen.filter(f).contains(k) by {
                                if old_seen.filter(f).contains(k) {
                                    assert(in_column(m[k], ws, column));
                                    let i = choose|i: int| 0 <= i < old_pairs.len() && #[trigger] old_pairs[i].0 == column;
                                    if i < j {
                                    } else {
                                        assert(j < old_pairs.len());
                                        assert(old_pairs[j as int].0 > column);
                                        assert(old_pairs[j as int].0 <= old_pairs[i].0);
                                    }
                                }
                            }
                        }
                        assert(seen.filter(f) =~= Set::empty().insert(*id));
                    }
                    pairs.insert(j, (column, 1));
                    proof {
                        assert forall|i: int| 0 <= i < pairs.len() implies #[trigger] pairs@[i].1
                            == seen.filter(column_filter(m, ws, pairs@[i].0)).len() by {
                            if i < j {
                                assert(pairs@[i] == old_pairs[i]);
                            } else if i > j {
                                assert(pairs@[i] == old_pairs[i - 1]);
                            }
                        }
                        assert forall|i: int| 0 <= i < pairs.len() implies #[trigger] pairs@[i].1 > 0 by {
                            if i < j {
                                assert(pairs@[i] == old_pairs[i]);
                            } else if i > j {
                                assert(pairs@[i] == old_pairs[i - 1]);
                            }
                        }
                        assert forall|a: int, b: int| 0 <= a < b < pairs.len() implies pairs@[a].0 < pairs@[b].0 by {
                            if b < j {
                                assert(pairs@[a] == old_pairs[a] && pairs@[b] == old_pairs[b]);
                            } else if b == j {
                                assert(pairs@[a] == old_pairs[a]);
                            } else if a < j {
                                assert(pairs@[a] == old_pairs[a] && pairs@[b] == old_pairs[b - 1]);
                                assert(old_pairs[a].0 < column);
                                assert(old_pairs[j as int].0 >= column);
                            } else if a == j {
                                assert(pairs@[b] == old_pairs[b - 1]);
                                assert(old_pairs[j as int].0 >= column);
                                assert(old_pairs[j as int].0 != column);
                            } else {
                                assert(pairs@[a] == old_pairs[a - 1] && pairs@[b] == old_pairs[b - 1]);
                            }
                        }
                        assert forall|k: u64, c: usize| seen.contains(k) && #[trigger] in_column(m[k], ws, c)
                            implies exists|i: int| 0 <= i < pairs.len() && #[trigger] pairs@[i].0 == c by {
                            if k == *id {
                                assert(c == column);
                                assert(pairs@[j as int].0 == c);
                            } else {
                                let i = choose|i: int| 0 <= i < old_pairs.len() && #[trigger] old_pairs[i].0 == c;
                                if i < j {
                                    assert(pairs@[i].0 == c);
                                } else {
                                    assert(pairs@[i + 1].0 == c);
                                }
                            }
                        }
                        assert forall|i: int| 0 <= i < pairs.len() implies witnessed(seen, m, ws, #[trigger] pairs@[i].0) by {
                            if i == j {
                                assert(seen.contains(*id) && in_column(m[*id], ws, pairs@[i].0));
                            } else {
                                let oi = if i < j { i } else { i - 1 };
                                assert(pairs@[i] == old_pairs[oi]);
                                lemma_witness_grows(old_seen, seen, m, ws, old_pairs[oi].0);
                            }
                        }
                    }
                }
            },
            None => {
                proof {
                    assert forall|c: usize| !in_column(m[*id], ws, c) by {}
                    assert forall|i: int| 0 <= i < pairs.len() implies #[trigger] pairs@[i].1
                        == seen.filter(column_filter(m, ws, pairs@[i].0)).len() by {
                        assert(seen.filter(column_filter(m, ws, pairs@[i].0)) =~= old_seen.filter(column_filter(m, ws, pairs@[i].0)));
                    }
                    assert forall|i: int| 0 <= i < pairs.len() implies witnessed(seen, m, ws, #[trigger] pairs@[i].0) by {
                        lemma_witness_grows(old_seen, seen, m, ws, old_pairs[i].0);
                    }
                }
            },
        }
    }
    proof {
        assert forall|k: u64| seen.contains(k) <==> m.contains_key(k) by {
            if seen.contains(k) {
                let i = choose|i: int| 0 <= i < entries.len() && *entries[i].0 == k;
                assert(m.contains_key(*entries[i].0));
            }
            if m.contains_key(k) {
                assert(entries.contains((&k, &m[k])));
                let i = choose|i: int| 0 <= i < entries.len() && entries[i] == (&k, &m[k]);
                assert(*entries[i].0 == k);
            }
        }
        assert(seen =~= m.dom());
        assert forall|c: usize| column_occupied(m, ws, c) implies exists|i: int| 0 <= i < pairs.len() && #[trigger] pairs@[i].0 == c by {
            let k = choose|k: u64| m.contains_key(k) && #[trigger] in_column(m[k], ws, c);
            assert(seen.contains(k));
        }
        assert forall|i: int| 0 <= i < pairs.len() implies column_occupied(m, ws, #[trigger] pairs@[i].0) by {
            assert(witnessed(seen, m, ws, pairs@[i].0));
            let k = choose|k: u64| seen.contains(k) && #[trigger] in_column(m[k], ws, pairs@[i].0);
            assert(m.contains_key(k));
        }
    }
    pairs
}

impl ActualState {
    /// For the workspace named `workspace_name`, the number of tiled windows in each of
    /// its occupied columns, from left to right; `None` when no workspace has the name.
    pub fn workspace_column_counts(&self, workspace_name: &str) -> (r: Option<Vec<usize>>)
        requires
            self.well_formed(),
        ensures
            match self.spec_workspace_id_by_name(workspace_name@) {
                None => r is None,
                Some(ws) => r matches Some(v) && v@ == column_counts(self.windows@, ws),
            },
    {
        let ws = match self.workspace_id_by_name(workspace_name) {
            Some(id) => id,
            None => return None,
        };
        let pairs = column_count_pairs(&self.windows, ws);
        let ghost m = self.windows@;
        let ghost q = pairs@.map_values(|p: (usize, usize)| p.0);
        proof {
            assert forall|c: usize| q.contains(c) <==> column_occupied(m, ws, c) by {
                if q.contains(c) {
                    let i = choose|i: int| 0 <= i < q.len() && q[i] == c;
                    assert(pairs@[i].0 == c);
                }
                if column_occupied(m, ws, c) {
                    let i = choose|i: int| 0 <= i < pairs.len() && #[trigger] pairs@[i].0 == c;
                    assert(q[i] == c);
                }
            }
            assert(strictly_increasing(q));
            let o = occupied_columns(m, ws);
            assert(strictly_increasing(o) && forall|c: usize| o.contains(c) <==> column_occupied(m, ws, c));
            lemma_sorted_unique(q, o);
        }
        let mut counts: Vec<usize> = Vec::new();
        let mut i: usize = 0;
        while i < pairs.len()
            invariant
                i <= pairs.len(),
                counts.len() == i,
                forall|j: int| 0 <= j < i ==> counts@[j] == #[trigger] pairs@[j].1,
            decreases pairs.len() - i,
        {
            counts.push(pairs[i].1);
            i += 1;
        }
        proof {
            let target = column_counts(m, ws);
            assert forall|j: int| 0 <= j < counts.len() implies counts@[j] == target[j] by {
                assert(q[j] == pairs@[j].0);
                assert(pairs@[j].1 == column_window_ids(m, ws, pairs@[j].0).len());
            }
            assert(counts@ =~= target);
        }
        Some(counts)
    }

    /// The preferred window of application `app_id` when no workspace is preferred.
    pub fn first_window_id_by_app_id(&self, app_id: &str) -> (r: Option<u64>)
        requires
            self.well_formed(),
        ensures
            r is None <==> app_window_ids(self.windows@, app_id@).is_empty(),
            r matches Some(id) ==> is_preferred_window(self.windows@, app_id@, None, id),
    {
        self.preferred_window_id_by_app_id(app_id, None)
    }

    /// The preferred window of application `app_id` on workspace `workspace_name`:
    /// `None` when no workspace has that name or no window of the application is on it.
    pub fn window_id_by_app_id_on_workspace(&self, app_id: &str, workspace_name: &str) -> (r: Option<u64>)
        requires
            self.well_formed(),
        ensures
            match self.spec_workspace_id_by_name(workspace_name@) {
                None => r is None,
                Some(ws) => {
                    &&& r is None <==> (forall|id: u64| #[trigger] app_window_ids(self.windows@, app_id@).contains(id)
                        ==> self.windows@[id].workspace_id != Some(ws))
                    &&& r matches Some(id) ==> is_preferred_window(self.windows@, app_id@, Some(ws), id)
                        && self.windows@[id].workspace_id == Some(ws)
                },
            },
    {
        let ws = match self.workspace_id_by_name(workspace_name) {
            Some(id) => id,
            None => return None,
        };
        let candidate = self.preferred_window_id_by_app_id(app_id, Some(workspace_name));
        match candidate {
            Some(id) => {
                let on_workspace = match self.windows.get(&id) {
                    Some(w) => w.workspace_id == Some(ws),
                    None => false,
                };
                if on_workspace {
                    Some(id)
                } else {
                    proof {
                        assert forall|o: u64| #[trigger] app_window_ids(self.windows@, app_id@).contains(o)
                            implies self.windows@[o].workspace_id != Some(ws) by {
                            assert(!rank_lt(window_rank(self.windows@[id], Some(ws)), window_rank(self.windows@[o], Some(ws))));
                        }
                    }
                    None
                }
            },
            None => None,
        }
    }

    /// The preferred window of application `app_id` when no workspace is preferred.
    pub fn window_by_app_id(&self, app_id: &str) -> (r: Option<&Window>)
        requires
            self.well_formed(),
        ensures
            r is None <==> app_window_ids(self.windows@, app_id@).is_empty(),
            r matches Some(w) ==> is_preferred_window(self.windows@, app_id@, None, w.id)
                && self.windows@[w.id] == *w,
    {
        match self.first_window_id_by_app_id(app_id) {
            Some(id) => self.windows.get(&id),
            None => None,
        }
    }
}

impl Default for ActualState {
    /// An empty, well-formed state.
    fn default() -> (s: Self)
        ensures
            s.well_formed(),
            s.workspaces@ == Map::<u64, Workspace>::empty(),
            s.windows@ == Map::<u64, Window>::empty(),
            s.last_config_loaded_failed is None,
    {
        Self::new()
    }
}

impl ActualState {
    /// An independent copy of the state, with freshly built indices.
    pub fn snapshot(&self) -> (r: ActualState)
        requires
            self.well_formed(),
        ensures
            r.well_formed(),
            r.workspaces@ == self.workspaces@,
            r.windows@ == self.windows@,
            r.last_config_loaded_failed == self.last_config_loaded_failed,
    {
        let mut r = ActualState {
            workspaces: self.workspaces.clone(),
            windows: self.windows.clone(),
            last_config_loaded_failed: self.last_config_loaded_failed,
            workspace_name_to_id: StringHashMap::new(),
            windows_by_app_id: StringHashMap::new(),
            positions: BTreeMap::new(),
        };
        r.rebuild_indices();
        r
    }
}

/// The keys among the first `n` entries of an iteration over a map.
pub open spec fn seen_keys<V>(entries: Seq<(&u64, &V)>, n: int) -> Set<u64> {
    Set::new(|k: u64| exists|i: int| 0 <= i < n && *entries[i].0 == k)
}

/// One more entry adds its key.
pub proof fn lemma_seen_step<V>(entries: Seq<(&u64, &V)>, n: int)
    requires
        0 <= n < entries.len(),
    ensures
        seen_keys(entries, n + 1) == seen_keys(entries, n).insert(*entries[n].0),
{
    assert forall|k: u64| seen_keys(entries, n + 1).contains(k) <==> seen_keys(entries, n).insert(*entries[n].0).contains(k) by {
        if seen_keys(entries, n + 1).contains(k) {
            let i = choose|i: int| 0 <= i < n + 1 && *entries[i].0 == k;
            if i < n {
                assert(seen_keys(entries, n).contains(k));
            }
        }
        if seen_keys(entries, n).contains(k) {
            let i = choose|i: int| 0 <= i < n && *entries[i].0 == k;
            assert(0 <= i < n + 1);
        }
        if k == *entries[n].0 {
            assert(0 <= n < n + 1);
        }
    }
    assert(seen_keys(entries, n + 1) =~= seen_keys(entries, n).insert(*entries[n].0));
}

/// A complete iteration over a map visits exactly its keys, each with its value.
pub proof fn lemma_seen_all<V>(m: &HashMap<u64, V>)
    ensures
        ({
            let entries = vstd::std_specs::hash::spec_hash_map_iter(m).remaining();
            &&& seen_keys(entries, entries.len() as int) == m@.dom()
            &&& forall|i: int| 0 <= i < entries.len() ==> m@.contains_key(*entries[i].0) && m@[*entries[i].0] == *entries[i].1
        }),
{
    let entries = vstd::std_specs::hash::spec_hash_map_iter(m).remaining();
    assert forall|k: u64| seen_keys(entries, entries.len() as int).contains(k) <==> m@.dom().contains(k) by {
        if m@.contains_key(k) {
            assert(entries.contains((&k, &m@[k])));
            let i = choose|i: int| 0 <= i < entries.len() && entries[i] == (&k, &m@[k]);
            assert(*entries[i].0 == k);
        }
        if seen_keys(entries, entries.len() as int).contains(k) {
            let i = choose|i: int| 0 <= i < entries.len() && *entries[i].0 == k;
            assert(m@.contains_key(*entries[i].0));
        }
    }
    assert(seen_keys(entries, entries.len() as int) =~= m@.dom());
}

} // verus!
