//! What the autostart remembers between runs: which niri window it placed at each
//! configured position.
use vstd::prelude::*;

use crate::config::WindowSpec;
use crate::model::{opt_str_is, Window};
use crate::state::ActualState;
use crate::text::{decimal, lemma_text_asymmetric, lemma_text_total, lemma_text_transitive, text3, text_less, text_lt, usize_text};

verus! {

broadcast use vstd::std_specs::hash::group_hash_axioms;

/// The version of the stored format.
pub const STATE_VERSION: u32 = 1;

/// A configured position: workspace name, column and row, both counted from one.
#[derive(Debug, Clone, PartialEq, Eq)]
pub struct WindowKey {
    pub workspace: String,
    pub column: usize,
    pub row: usize,
}

/// What is remembered of one placed window.
#[derive(Debug, Clone, PartialEq)]
pub struct StoredWindow {
    pub workspace: String,
    pub column: usize,
    pub row: usize,
    pub window_id: u64,
    pub app_id: String,
    pub pid: Option<i32>,
    pub command: Vec<String>,
}

/// The remembered placements, ordered by position.
#[derive(Debug, Clone, PartialEq)]
pub struct RuntimeState {
    pub version: u32,
    pub windows: Vec<StoredWindow>,
}

impl WindowKey {
    /// The position `column`, `row` on the workspace named `workspace`.
    pub fn new(workspace: &str, column: usize, row: usize) -> (k: Self)
        ensures
            k.workspace@ == workspace@,
            k.column == column,
            k.row == row,
    {
        WindowKey { workspace: workspace.to_string(), column, row }
    }

    /// The position as text: `workspace:column:row`.
    pub fn to_text(&self) -> (r: String)
        ensures
            r@ == self.workspace@ + ":"@ + decimal(self.column as nat) + ":"@ + decimal(self.row as nat),
    {
        let column = usize_text(self.column);
        let row = usize_text(self.row);
        let head = text3("", &self.workspace, ":");
        let mut r = text3("", &head, "");
        r.append(column.as_str());
        r.append(":");
        r.append(row.as_str());
        proof {
            reveal_strlit("");
        }
        assert(r@ =~= self.workspace@ + ":"@ + decimal(self.column as nat) + ":"@ + decimal(self.row as nat));
        r
    }
}

/// The position of a stored placement, as plain values.
pub open spec fn key_of(w: StoredWindow) -> (Seq<char>, usize, usize) {
    (w.workspace@, w.column, w.row)
}

/// The position of a key, as plain values.
pub open spec fn key_view(k: WindowKey) -> (Seq<char>, usize, usize) {
    (k.workspace@, k.column, k.row)
}

/// Positions ordered by workspace name, then column, then row.
pub open spec fn key_lt(a: (Seq<char>, usize, usize), b: (Seq<char>, usize, usize)) -> bool {
    ||| text_lt(a.0, b.0)
    ||| a.0 == b.0 && a.1 < b.1
    ||| a.0 == b.0 && a.1 == b.1 && a.2 < b.2
}

/// The stored placements are in position order.
pub open spec fn sorted_by_key(s: Seq<StoredWindow>) -> bool {
    forall|i: int, j: int| 0 <= i < j < s.len() ==> !key_lt(key_of(s[j]), key_of(s[i]))
}

/// Selects the placements at position `k`.
pub open spec fn key_is(k: (Seq<char>, usize, usize)) -> spec_fn(StoredWindow) -> bool {
    |w: StoredWindow| key_of(w) == k
}

/// The stored placements at one position, in their order.
pub open spec fn at_key(s: Seq<StoredWindow>, k: (Seq<char>, usize, usize)) -> Seq<StoredWindow> {
    s.filter(key_is(k))
}

/// `out` is `input` sorted stably by position: in position order, and the placements at
/// each position keep their relative order.
pub open spec fn stably_sorted(input: Seq<StoredWindow>, out: Seq<StoredWindow>) -> bool {
    &&& sorted_by_key(out)
    &&& forall|k: (Seq<char>, usize, usize)| #[trigger] at_key(out, k) == at_key(input, k)
}

proof fn lemma_key_total(a: (Seq<char>, usize, usize), b: (Seq<char>, usize, usize))
    ensures
        a == b || key_lt(a, b) || key_lt(b, a),
{
    lemma_text_total(a.0, b.0);
}

proof fn lemma_key_asymmetric(a: (Seq<char>, usize, usize), b: (Seq<char>, usize, usize))
    ensures
        !(key_lt(a, b) && key_lt(b, a)),
        !key_lt(a, a),
{
    lemma_text_asymmetric(a.0, b.0);
    lemma_text_asymmetric(a.0, a.0);
}

proof fn lemma_key_transitive(a: (Seq<char>, usize, usize), b: (Seq<char>, usize, usize), c: (Seq<char>, usize, usize))
    requires
        key_lt(a, b),
        key_lt(b, c),
    ensures
        key_lt(a, c),
{
    if text_lt(a.0, b.0) && text_lt(b.0, c.0) {
        lemma_text_transitive(a.0, b.0, c.0);
    }
}

/// Whether the position `a` sorts before `b`.
fn key_less(a: &StoredWindow, b: &StoredWindow) -> (r: bool)
    ensures
        r == key_lt(key_of(*a), key_of(*b)),
{
    if text_less(&a.workspace, &b.workspace) {
        return true;
    }
    if !crate::model::string_eq(&a.workspace, &b.workspace) {
        return false;
    }
    a.column < b.column || (a.column == b.column && a.row < b.row)
}

proof fn lemma_filter_insert_before(s: Seq<StoredWindow>, p: int, e: StoredWindow, pred: spec_fn(StoredWindow) -> bool)
    requires
        0 <= p <= s.len(),
        forall|i: int| p <= i < s.len() ==> !pred(s[i]),
    ensures
        s.insert(p, e).filter(pred) == if pred(e) { s.filter(pred).push(e) } else { s.filter(pred) },
{
    let head = s.take(p);
    let tail = s.skip(p);
    assert(s =~= head + tail);
    assert(s.insert(p, e) =~= head.push(e) + tail);
    Seq::filter_distributes_over_add(head, tail, pred);
    Seq::filter_distributes_over_add(head.push(e), tail, pred);
    head.lemma_filter_push(e, pred);
    assert forall|i: int| 0 <= i < tail.len() implies !pred(tail[i]) by {
        assert(tail[i] == s[p + i]);
    }
    tail.lemma_all_neg_filter_empty(pred);
    assert(tail.filter(pred) =~= Seq::<StoredWindow>::empty());
    assert(head.filter(pred) + Seq::<StoredWindow>::empty() =~= head.filter(pred));
    assert(head.push(e).filter(pred) + Seq::<StoredWindow>::empty() =~= head.push(e).filter(pred));
}

/// Sorts placements by position, keeping placements at the same position in order.
fn sort_by_key(input: Vec<StoredWindow>) -> (out: Vec<StoredWindow>)
    ensures
        stably_sorted(input@, out@),
{
    let ghost whole = input@;
    let mut out: Vec<StoredWindow> = Vec::new();
    let mut rest = input;
    let ghost mut done: Seq<StoredWindow> = Seq::empty();
    assert(rest@ =~= whole.skip(0));
    while rest.len() > 0
        invariant
            done.len() + rest@.len() == whole.len(),
            done == whole.take(done.len() as int),
            rest@ == whole.skip(done.len() as int),
            sorted_by_key(out@),
            forall|k: (Seq<char>, usize, usize)| #[trigger] at_key(out@, k) == at_key(done, k),
        decreases rest@.len(),
    {
        let e = rest.remove(0);
        let ghost n = done.len() as int;
        assert(e == whole[n]);
        let mut p: usize = 0;
        while p < out.len() && !key_less(&e, &out[p])
            invariant
                p <= out.len(),
                forall|i: int| 0 <= i < p ==> !key_lt(key_of(e), key_of(#[trigger] out@[i])),
            decreases out.len() - p,
        {
            p += 1;
        }
        let ghost before = out@;
        out.insert(p, e);
        proof {
            // every placement before `p` is at or before `e`; every one from `p` on is after it
            assert forall|i: int| p <= i < before.len() implies key_lt(key_of(e), key_of(before[i])) by {
                assert(key_lt(key_of(e), key_of(before[p as int])));
                if i > p {
                    assert(!key_lt(key_of(before[i]), key_of(before[p as int])));
                    lemma_key_total(key_of(before[i]), key_of(before[p as int]));
                    if key_lt(key_of(before[p as int]), key_of(before[i])) {
                        lemma_key_transitive(key_of(e), key_of(before[p as int]), key_of(before[i]));
                    }
                }
            }
            assert forall|a: int, b: int| 0 <= a < b < out@.len() implies !key_lt(key_of(out@[b]), key_of(out@[a])) by {
                if b < p {
                    assert(out@[a] == before[a] && out@[b] == before[b]);
                } else if b == p {
                    assert(out@[a] == before[a]);
                    lemma_key_total(key_of(e), key_of(before[a]));
                    lemma_key_asymmetric(key_of(e), key_of(before[a]));
                } else if a < p {
                    assert(out@[a] == before[a] && out@[b] == before[b - 1]);
                    lemma_key_total(key_of(e), key_of(before[a]));
                    lemma_key_asymmetric(key_of(before[b - 1]), key_of(e));
                    if key_lt(key_of(before[a]), key_of(e)) {
                        if key_lt(key_of(before[b - 1]), key_of(before[a])) {
                            lemma_key_transitive(key_of(before[b - 1]), key_of(before[a]), key_of(e));
                        }
                    }
                } else if a == p {
                    assert(out@[b] == before[b - 1]);
                    lemma_key_asymmetric(key_of(before[b - 1]), key_of(e));
                } else {
                    assert(out@[a] == before[a - 1] && out@[b] == before[b - 1]);
                }
            }
            assert forall|k: (Seq<char>, usize, usize)| #[trigger] at_key(out@, k) == at_key(done.push(e), k) by {
                let pred = key_is(k);
                assert(at_key(before, k) == at_key(done, k));
                done.lemma_filter_push(e, pred);
                if key_of(e) == k {
                    assert forall|i: int| p <= i < before.len() implies !pred(before[i]) by {
                        lemma_key_asymmetric(key_of(e), key_of(before[i]));
                    }
                    lemma_filter_insert_before(before, p as int, e, pred);
                    assert(pred(e));
                    assert(at_key(out@, k) == at_key(before, k).push(e));
                } else {
                    let head = before.take(p as int);
                    let tail = before.skip(p as int);
                    assert(out@ =~= head.push(e) + tail);
                    assert(before =~= head + tail);
                    Seq::filter_distributes_over_add(head.push(e), tail, pred);
                    Seq::filter_distributes_over_add(head, tail, pred);
                    head.lemma_filter_push(e, pred);
                    assert(!pred(e));
                    assert(at_key(out@, k) == at_key(before, k));
                }
            }
            done = done.push(e);
            assert(done =~= whole.take(n + 1));
            assert(rest@ =~= whole.skip(n + 1));
        }
    }
    proof {
        assert(done =~= whole);
    }
    out
}

/// The characters of each string of a list.
pub open spec fn texts(s: Seq<String>) -> Seq<Seq<char>> {
    s.map_values(|c: String| c@)
}

/// The first placement remembered at position `k`, if any.
pub open spec fn find_at_key(s: Seq<StoredWindow>, k: (Seq<char>, usize, usize)) -> Option<StoredWindow> {
    if at_key(s, k).len() > 0 {
        Some(at_key(s, k)[0])
    } else {
        None
    }
}

/// The first index of a placement at position `k`, if any.
pub open spec fn first_index_at(s: Seq<StoredWindow>, k: (Seq<char>, usize, usize)) -> Option<int> {
    if exists|i: int| 0 <= i < s.len() && key_of(#[trigger] s[i]) == k {
        Some(choose|i: int| 0 <= i < s.len() && key_of(s[i]) == k && forall|j: int| 0 <= j < i ==> key_of(#[trigger] s[j]) != k)
    } else {
        None
    }
}

/// The placements with the first one at the position of `st` replaced by `st`, or `st`
/// appended when there is none.
pub open spec fn replace_or_push(s: Seq<StoredWindow>, st: StoredWindow) -> Seq<StoredWindow> {
    match first_index_at(s, key_of(st)) {
        Some(i) => s.update(i, st),
        None => s.push(st),
    }
}

/// `st` records that window `window` was placed at `key` for the window spec `spec`.
pub open spec fn stored_for(st: StoredWindow, key: WindowKey, spec: WindowSpec, window: Window) -> bool {
    &&& key_of(st) == key_view(key)
    &&& st.window_id == window.id
    &&& st.app_id@ == spec.app_id@
    &&& st.pid == window.pid
    &&& texts(st.command@) == texts(spec.command@)
}

/// The remembered window for `key`, when it still fits: the first placement remembered
/// at the position must be for the same application id and command, and niri must
/// still show a window with that id, that application id and the remembered process id.
pub open spec fn spec_window_id(stored: Seq<StoredWindow>, key: (Seq<char>, usize, usize), spec: WindowSpec, windows: Map<u64, Window>) -> Option<u64> {
    match find_at_key(stored, key) {
        None => None,
        Some(st) => if st.app_id@ != spec.app_id@ || texts(st.command@) != texts(spec.command@) {
            None
        } else if !windows.contains_key(st.window_id) {
            None
        } else if !opt_str_is(windows[st.window_id].app_id, spec.app_id@) || windows[st.window_id].pid != st.pid {
            None
        } else {
            Some(st.window_id)
        },
    }
}

proof fn lemma_first_match(s: Seq<StoredWindow>, k: (Seq<char>, usize, usize), i: int)
    requires
        0 <= i < s.len(),
        key_of(s[i]) == k,
        forall|j: int| 0 <= j < i ==> key_of(#[trigger] s[j]) != k,
    ensures
        find_at_key(s, k) == Some(s[i]),
        first_index_at(s, k) == Some(i),
{
    let pred = key_is(k);
    let head = s.take(i);
    let tail = s.skip(i);
    assert(s =~= head + tail);
    Seq::filter_distributes_over_add(head, tail, pred);
    assert forall|j: int| 0 <= j < head.len() implies !pred(head[j]) by {
        assert(head[j] == s[j]);
    }
    head.lemma_all_neg_filter_empty(pred);
    assert(tail =~= seq![s[i]] + tail.drop_first());
    Seq::filter_distributes_over_add(seq![s[i]], tail.drop_first(), pred);
    assert(seq![s[i]] =~= Seq::<StoredWindow>::empty().push(s[i]));
    Seq::<StoredWindow>::empty().lemma_filter_push(s[i], pred);
    assert(Seq::<StoredWindow>::empty().filter(pred) =~= Seq::<StoredWindow>::empty()) by {
        Seq::<StoredWindow>::empty().lemma_all_neg_filter_empty(pred);
    }
    assert(at_key(s, k)[0] == s[i]);
    let c = choose|c: int| 0 <= c < s.len() && key_of(s[c]) == k && forall|j: int| 0 <= j < c ==> key_of(#[trigger] s[j]) != k;
    assert(key_of(s[i]) == k);
    if c < i {
    } else if c > i {
        assert(key_of(s[i]) != k);
    }
}

proof fn lemma_no_match(s: Seq<StoredWindow>, k: (Seq<char>, usize, usize))
    requires
        forall|j: int| 0 <= j < s.len() ==> key_of(#[trigger] s[j]) != k,
    ensures
        find_at_key(s, k) is None,
        first_index_at(s, k) is None,
{
    let pred = key_is(k);
    assert forall|j: int| 0 <= j < s.len() implies !pred(s[j]) by {}
    s.lemma_all_neg_filter_empty(pred);
}

/// Compares two lists of strings by their characters.
fn texts_equal(a: &Vec<String>, b: &Vec<String>) -> (r: bool)
    ensures
        r == (texts(a@) == texts(b@)),
{
    if a.len() != b.len() {
        assert(texts(a@).len() != texts(b@).len());
        return false;
    }
    let mut i: usize = 0;
    while i < a.len()
        invariant
            i <= a.len(),
            a.len() == b.len(),
            forall|j: int| 0 <= j < i ==> a@[j]@ == b@[j]@,
        decreases a.len() - i,
    {
        if !crate::model::string_eq(&a[i], &b[i]) {
            assert(texts(a@)[i as int] != texts(b@)[i as int]);
            return false;
        }
        i += 1;
    }
    assert(texts(a@) =~= texts(b@));
    true
}

impl StoredWindow {
    /// Whether this placement is at position `key`.
    pub fn matches_key(&self, key: &WindowKey) -> (r: bool)
        ensures
            r == (key_of(*self) == key_view(*key)),
    {
        crate::model::string_eq(&self.workspace, &key.workspace) && self.column == key.column && self.row == key.row
    }
}

impl Default for RuntimeState {
    /// Nothing remembered, current format version.
    fn default() -> (r: Self)
        ensures
            r.version == STATE_VERSION,
            r.windows@.len() == 0,
    {
        RuntimeState { version: STATE_VERSION, windows: Vec::new() }
    }
}

impl RuntimeState {
    /// The index of the first placement remembered at `key`.
    fn position_of(&self, key: &WindowKey) -> (r: Option<usize>)
        ensures
            match r {
                Some(i) => i < self.windows@.len() && first_index_at(self.windows@, key_view(*key)) == Some(i as int)
                    && find_at_key(self.windows@, key_view(*key)) == Some(self.windows@[i as int]),
                None => first_index_at(self.windows@, key_view(*key)) is None
                    && find_at_key(self.windows@, key_view(*key)) is None,
            },
    {
        let mut i: usize = 0;
        while i < self.windows.len()
            invariant
                i <= self.windows.len(),
                forall|j: int| 0 <= j < i ==> key_of(#[trigger] self.windows@[j]) != key_view(*key),
            decreases self.windows.len() - i,
        {
            if self.windows[i].matches_key(key) {
                proof {
                    lemma_first_match(self.windows@, key_view(*key), i as int);
                }
                return Some(i);
            }
            i += 1;
        }
        proof {
            lemma_no_match(self.windows@, key_view(*key));
        }
        None
    }

    /// The state as loaded, marked with the current format version.
    pub fn with_current_version(self) -> (r: Self)
        ensures
            r.version == STATE_VERSION,
            r.windows == self.windows,
    {
        RuntimeState { version: STATE_VERSION, windows: self.windows }
    }

    /// The remembered window for `key` when it still fits `spec` and niri's state (see
    /// `spec_window_id`).
    pub fn window_id(&self, key: &WindowKey, spec: &WindowSpec, state: &ActualState) -> (r: Option<u64>)
        ensures
            r == spec_window_id(self.windows@, key_view(*key), *spec, state.windows@),
    {
        let i = match self.position_of(key) {
            Some(i) => i,
            None => return None,
        };
        let stored = &self.windows[i];
        if !crate::model::string_eq(&stored.app_id, &spec.app_id) || !texts_equal(&stored.command, &spec.command) {
            return None;
        }
        let window = match state.windows.get(&stored.window_id) {
            Some(w) => w,
            None => return None,
        };
        if !crate::model::opt_string_is(&window.app_id, &spec.app_id) || window.pid != stored.pid {
            return None;
        }
        Some(stored.window_id)
    }

    /// Remembers that `window` was placed at `key` for `spec`: replaces the first
    /// placement remembered at that position, or adds one, then orders the placements by
    /// position (stably).
    pub fn record(&mut self, key: &WindowKey, spec: &WindowSpec, window: &Window)
        ensures
            final(self).version == old(self).version,
            exists|st: StoredWindow| stored_for(st, *key, *spec, *window)
                && stably_sorted(replace_or_push(old(self).windows@, st), final(self).windows@),
    {
        let stored = StoredWindow {
            workspace: key.workspace.clone(),
            column: key.column,
            row: key.row,
            window_id: window.id,
            app_id: spec.app_id.clone(),
            pid: window.pid,
            command: crate::config::copy_strings(&spec.command),
        };
        assert(texts(stored.command@) =~= texts(spec.command@));
        let ghost st = stored;
        let found = self.position_of(key);
        let mut windows: Vec<StoredWindow> = Vec::new();
        std::mem::swap(&mut windows, &mut self.windows);
        let ghost before = windows@;
        match found {
            Some(i) => {
                windows.set(i, stored);
            },
            None => {
                windows.push(stored);
            },
        }
        assert(windows@ == replace_or_push(before, st));
        self.windows = sort_by_key(windows);
        assert(stored_for(st, *key, *spec, *window));
        assert(stably_sorted(replace_or_push(before, st), self.windows@));
    }
}

proof fn lemma_replace_or_push_finds(s: Seq<StoredWindow>, st: StoredWindow)
    ensures
        find_at_key(replace_or_push(s, st), key_of(st)) == Some(st),
{
    let k = key_of(st);
    match first_index_at(s, k) {
        Some(i) => {
            let c = choose|c: int| 0 <= c < s.len() && key_of(s[c]) == k && forall|j: int| 0 <= j < c ==> key_of(#[trigger] s[j]) != k;
            assert(exists|i: int| 0 <= i < s.len() && key_of(#[trigger] s[i]) == k);
            let w = choose|i: int| 0 <= i < s.len() && key_of(#[trigger] s[i]) == k;
            lemma_least_match_exists(s, k, w);
            assert(c == i);
            let u = s.update(i, st);
            assert forall|j: int| 0 <= j < i implies key_of(#[trigger] u[j]) != k by {
                assert(u[j] == s[j]);
            }
            lemma_first_match(u, k, i);
        },
        None => {
            let u = s.push(st);
            assert forall|j: int| 0 <= j < s.len() implies key_of(#[trigger] u[j]) != k by {
                assert(u[j] == s[j]);
                if key_of(s[j]) == k {
                    assert(exists|i: int| 0 <= i < s.len() && key_of(#[trigger] s[i]) == k);
                }
            }
            lemma_first_match(u, k, s.len() as int);
        },
    }
}

proof fn lemma_least_match_exists(s: Seq<StoredWindow>, k: (Seq<char>, usize, usize), w: int)
    requires
        0 <= w < s.len(),
        key_of(s[w]) == k,
    ensures
        exists|c: int| 0 <= c < s.len() && key_of(s[c]) == k && forall|j: int| 0 <= j < c ==> key_of(#[trigger] s[j]) != k,
    decreases w,
{
    if exists|j: int| 0 <= j < w && key_of(#[trigger] s[j]) == k {
        let j = choose|j: int| 0 <= j < w && key_of(#[trigger] s[j]) == k;
        lemma_least_match_exists(s, k, j);
    } else {
        assert(forall|j: int| 0 <= j < w ==> key_of(#[trigger] s[j]) != k);
    }
}

proof fn lemma_replace_or_push_keeps_others(s: Seq<StoredWindow>, st: StoredWindow, k: (Seq<char>, usize, usize))
    requires
        k != key_of(st),
    ensures
        at_key(replace_or_push(s, st), k) == at_key(s, k),
{
    let pred = key_is(k);
    match first_index_at(s, key_of(st)) {
        Some(i) => {
            let c = choose|c: int| 0 <= c < s.len() && key_of(s[c]) == key_of(st) && forall|j: int| 0 <= j < c ==> key_of(#[trigger] s[j]) != key_of(st);
            assert(exists|i: int| 0 <= i < s.len() && key_of(#[trigger] s[i]) == key_of(st));
            let w = choose|i: int| 0 <= i < s.len() && key_of(#[trigger] s[i]) == key_of(st);
            lemma_least_match_exists(s, key_of(st), w);
            assert(c == i);
            let head = s.take(i);
            let tail = s.skip(i + 1);
            assert(s =~= head.push(s[i]) + tail);
            assert(s.update(i, st) =~= head.push(st) + tail);
            Seq::filter_distributes_over_add(head.push(s[i]), tail, pred);
            Seq::filter_distributes_over_add(head.push(st), tail, pred);
            head.lemma_filter_push(s[i], pred);
            head.lemma_filter_push(st, pred);
        },
        None => {
            s.lemma_filter_push(st, pred);
        },
    }
}

/// A remembered window is handed back for a position only when it fits: when the first
/// placement remembered at the position is for the spec's application id and command,
/// and niri still shows a window with the remembered id, the spec's application id and
/// the remembered process id; then it is that window. Nothing is handed back for a
/// position where nothing is remembered.
pub proof fn law_window_id_only_when_it_fits(
    stored: Seq<StoredWindow>,
    key: (Seq<char>, usize, usize),
    spec: WindowSpec,
    windows: Map<u64, Window>,
)
    ensures
        (forall|j: int| 0 <= j < stored.len() ==> key_of(#[trigger] stored[j]) != key) ==> spec_window_id(
            stored,
            key,
            spec,
            windows,
        ) is None,
        forall|i: int|
            0 <= i < stored.len() && key_of(#[trigger] stored[i]) == key && (forall|j: int|
                0 <= j < i ==> key_of(#[trigger] stored[j]) != key) ==> spec_window_id(stored, key, spec, windows) == if {
                &&& stored[i].app_id@ == spec.app_id@
                &&& texts(stored[i].command@) == texts(spec.command@)
                &&& windows.contains_key(stored[i].window_id)
                &&& opt_str_is(windows[stored[i].window_id].app_id, spec.app_id@)
                &&& windows[stored[i].window_id].pid == stored[i].pid
            } {
                Some(stored[i].window_id)
            } else {
                None
            },
{
    if forall|j: int| 0 <= j < stored.len() ==> key_of(#[trigger] stored[j]) != key {
        lemma_no_match(stored, key);
    }
    assert forall|i: int|
        0 <= i < stored.len() && key_of(#[trigger] stored[i]) == key && (forall|j: int|
            0 <= j < i ==> key_of(#[trigger] stored[j]) != key) implies spec_window_id(stored, key, spec, windows) == if {
            &&& stored[i].app_id@ == spec.app_id@
            &&& texts(stored[i].command@) == texts(spec.command@)
            &&& windows.contains_key(stored[i].window_id)
            &&& opt_str_is(windows[stored[i].window_id].app_id, spec.app_id@)
            &&& windows[stored[i].window_id].pid == stored[i].pid
        } {
            Some(stored[i].window_id)
        } else {
            None
        } by {
        lemma_first_match(stored, key, i);
    }
}

/// Reading back what was written: after `record(key, spec, window)`, `window_id(key,
/// spec, state)` gives the recorded window whenever niri still shows a window with its
/// id, the spec's application id and the recorded process id.
pub proof fn law_record_then_window_id(
    old_windows: Seq<StoredWindow>,
    new_windows: Seq<StoredWindow>,
    key: WindowKey,
    spec: WindowSpec,
    window: Window,
    windows: Map<u64, Window>,
)
    requires
        exists|st: StoredWindow| stored_for(st, key, spec, window) && stably_sorted(replace_or_push(old_windows, st), new_windows),
        windows.contains_key(window.id),
        opt_str_is(windows[window.id].app_id, spec.app_id@),
        windows[window.id].pid == window.pid,
    ensures
        spec_window_id(new_windows, key_view(key), spec, windows) == Some(window.id),
{
    let st = choose|st: StoredWindow| stored_for(st, key, spec, window) && stably_sorted(replace_or_push(old_windows, st), new_windows);
    lemma_replace_or_push_finds(old_windows, st);
    assert(at_key(new_windows, key_of(st)) == at_key(replace_or_push(old_windows, st), key_of(st)));
}

/// Recording at one position leaves what is remembered at every other position as it
/// was.
pub proof fn law_record_keeps_other_positions(
    old_windows: Seq<StoredWindow>,
    new_windows: Seq<StoredWindow>,
    key: WindowKey,
    spec: WindowSpec,
    window: Window,
    other: (Seq<char>, usize, usize),
)
    requires
        exists|st: StoredWindow| stored_for(st, key, spec, window) && stably_sorted(replace_or_push(old_windows, st), new_windows),
        other != key_view(key),
    ensures
        at_key(new_windows, other) == at_key(old_windows, other),
        find_at_key(new_windows, other) == find_at_key(old_windows, other),
{
    let st = choose|st: StoredWindow| stored_for(st, key, spec, window) && stably_sorted(replace_or_push(old_windows, st), new_windows);
    lemma_replace_or_push_keeps_others(old_windows, st, other);
    assert(at_key(new_windows, other) == at_key(replace_or_push(old_windows, st), other));
}

/// The remembered placements are in position order after every `record`.
pub proof fn law_record_keeps_order(
    old_windows: Seq<StoredWindow>,
    new_windows: Seq<StoredWindow>,
    key: WindowKey,
    spec: WindowSpec,
    window: Window,
)
    requires
        exists|st: StoredWindow| stored_for(st, key, spec, window) && stably_sorted(replace_or_push(old_windows, st), new_windows),
    ensures
        sorted_by_key(new_windows),
{
}


/// No two remembered placements share a position.
pub open spec fn keys_unique(s: Seq<StoredWindow>) -> bool {
    forall|i: int, j: int| 0 <= i < s.len() && 0 <= j < s.len() && i != j ==> key_of(s[i]) != key_of(s[j])
}

proof fn lemma_one_at_key(s: Seq<StoredWindow>, i: int)
    requires
        0 <= i < s.len(),
    ensures
        at_key(s, key_of(s[i])).len() >= 1,
{
    s.lemma_filter_contains(key_is(key_of(s[i])), i);
}

proof fn lemma_two_at_key(s: Seq<StoredWindow>, i: int, j: int)
    requires
        0 <= i < j < s.len(),
        key_of(s[i]) == key_of(s[j]),
    ensures
        at_key(s, key_of(s[i])).len() >= 2,
    decreases s.len(),
{
    let k = key_of(s[i]);
    let p = s.drop_last();
    assert(s =~= p.push(s.last()));
    p.lemma_filter_push(s.last(), key_is(k));
    assert(p[i] == s[i]);
    if j == s.len() - 1 {
        lemma_one_at_key(p, i);
    } else {
        assert(p[j] == s[j]);
        lemma_two_at_key(p, i, j);
    }
}

proof fn lemma_unique_at_most_one(s: Seq<StoredWindow>, k: (Seq<char>, usize, usize))
    requires
        keys_unique(s),
    ensures
        at_key(s, k).len() <= 1,
    decreases s.len(),
{
    if s.len() > 0 {
        let p = s.drop_last();
        assert(keys_unique(p)) by {
            assert forall|i: int, j: int| 0 <= i < p.len() && 0 <= j < p.len() && i != j implies key_of(p[i]) != key_of(
                p[j],
            ) by {
                assert(p[i] == s[i] && p[j] == s[j]);
            }
        }
        lemma_unique_at_most_one(p, k);
        assert(s =~= p.push(s.last()));
        p.lemma_filter_push(s.last(), key_is(k));
        if key_of(s.last()) == k && at_key(p, k).len() >= 1 {
            p.lemma_filter_pred(key_is(k), 0);
            let x = at_key(p, k)[0];
            assert(at_key(p, k).contains(x));
            p.lemma_filter_contains_rev(key_is(k), x);
            let t = choose|t: int| 0 <= t < p.len() && p[t] == x;
            assert(s[t] == x);
            assert(key_of(s[t]) == key_of(s[s.len() - 1]));
        }
    }
}

proof fn lemma_replace_or_push_unique(s: Seq<StoredWindow>, st: StoredWindow)
    requires
        keys_unique(s),
    ensures
        keys_unique(replace_or_push(s, st)),
{
    let r = replace_or_push(s, st);
    match first_index_at(s, key_of(st)) {
        Some(i) => {
            assert(0 <= i < s.len() && key_of(s[i]) == key_of(st));
            assert forall|a: int, b: int| 0 <= a < r.len() && 0 <= b < r.len() && a != b implies key_of(r[a]) != key_of(
                r[b],
            ) by {
                if a != i && b != i {
                    assert(r[a] == s[a] && r[b] == s[b]);
                } else if a == i {
                    assert(r[b] == s[b]);
                } else {
                    assert(r[a] == s[a]);
                }
            }
        },
        None => {
            assert forall|a: int, b: int| 0 <= a < r.len() && 0 <= b < r.len() && a != b implies key_of(r[a]) != key_of(
                r[b],
            ) by {
                if a < s.len() && b < s.len() {
                    assert(r[a] == s[a] && r[b] == s[b]);
                } else if a < s.len() {
                    assert(r[a] == s[a]);
                    assert(!(0 <= a < s.len() && key_of(s[a]) == key_of(st)));
                } else {
                    assert(r[b] == s[b]);
                    assert(!(0 <= b < s.len() && key_of(s[b]) == key_of(st)));
                }
            }
        },
    }
}

/// Recording keeps positions unique: when no two remembered placements share a
/// position, afterwards none do either, the placements are in strictly increasing
/// position order, exactly one placement is at the recorded position (the one for
/// `window` and `spec`), and every placement at another position is one that was
/// remembered before, and the other way round.
pub proof fn law_record_keeps_positions_unique(
    old_windows: Seq<StoredWindow>,
    new_windows: Seq<StoredWindow>,
    key: WindowKey,
    spec: WindowSpec,
    window: Window,
)
    requires
        keys_unique(old_windows),
        exists|st: StoredWindow| stored_for(st, key, spec, window) && stably_sorted(replace_or_push(old_windows, st), new_windows),
    ensures
        keys_unique(new_windows),
        forall|i: int, j: int| 0 <= i < j < new_windows.len() ==> key_lt(key_of(new_windows[i]), key_of(new_windows[j])),
        exists|st: StoredWindow| stored_for(st, key, spec, window) && at_key(new_windows, key_view(key)) == seq![st],
        forall|x: StoredWindow| key_of(x) != key_view(key) ==> (new_windows.contains(x) <==> old_windows.contains(x)),
{
    let st = choose|st: StoredWindow| stored_for(st, key, spec, window) && stably_sorted(replace_or_push(old_windows, st), new_windows);
    let r = replace_or_push(old_windows, st);
    lemma_replace_or_push_unique(old_windows, st);
    assert forall|i: int, j: int| 0 <= i < new_windows.len() && 0 <= j < new_windows.len() && i != j implies key_of(
        new_windows[i],
    ) != key_of(new_windows[j]) by {
        if key_of(new_windows[i]) == key_of(new_windows[j]) {
            let k = key_of(new_windows[i]);
            if i < j {
                lemma_two_at_key(new_windows, i, j);
            } else {
                lemma_two_at_key(new_windows, j, i);
            }
            assert(at_key(new_windows, k) == at_key(r, k));
            lemma_unique_at_most_one(r, k);
        }
    }
    assert forall|i: int, j: int| 0 <= i < j < new_windows.len() implies key_lt(
        key_of(new_windows[i]),
        key_of(new_windows[j]),
    ) by {
        lemma_key_total(key_of(new_windows[i]), key_of(new_windows[j]));
    }
    lemma_replace_or_push_finds(old_windows, st);
    lemma_unique_at_most_one(r, key_of(st));
    assert(at_key(new_windows, key_of(st)) == at_key(r, key_of(st)));
    assert(at_key(new_windows, key_view(key)) =~= seq![st]);
    assert forall|x: StoredWindow| key_of(x) != key_view(key) implies (new_windows.contains(x) <==> old_windows.contains(
        x,
    )) by {
        let k = key_of(x);
        lemma_replace_or_push_keeps_others(old_windows, st, k);
        assert(at_key(new_windows, k) == at_key(old_windows, k));
        if new_windows.contains(x) {
            let t = choose|t: int| 0 <= t < new_windows.len() && new_windows[t] == x;
            new_windows.lemma_filter_contains(key_is(k), t);
            old_windows.lemma_filter_contains_rev(key_is(k), x);
        }
        if old_windows.contains(x) {
            let t = choose|t: int| 0 <= t < old_windows.len() && old_windows[t] == x;
            old_windows.lemma_filter_contains(key_is(k), t);
            new_windows.lemma_filter_contains_rev(key_is(k), x);
        }
    }
}

} // verus!
