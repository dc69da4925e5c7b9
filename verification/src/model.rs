//! The picker's state: the tmux sessions it shows, the search filter, the
//! zoomed-in session with its windows, and the selection in either grid.
use vstd::prelude::*;

use crate::text::{
    clone_lines, clone_opt, contains_seq, contains_str, lowercase, pop_char, push_char, same_text,
    to_chars, to_lowercase,
};

verus! {

/// A tmux session as the picker shows it.
#[derive(Debug, Clone, PartialEq, Eq)]
pub struct Session {
    pub id: String,
    pub name: String,
    pub attached: bool,
    pub window_count: u32,
    pub current_window: Option<String>,
    pub last_activity: Option<String>,
    pub preview: Vec<String>,
    pub preview_error: Option<String>,
}

/// The captured content of one pane of a window.
#[derive(Clone, Debug, Default, PartialEq, Eq)]
pub struct PanePreview {
    pub id: String,
    pub active: bool,
    pub lines: Vec<String>,
}

/// A tmux window of the zoomed-in session.
#[derive(Debug, Clone, PartialEq, Eq)]
pub struct Window {
    pub id: String,
    pub index: u32,
    pub name: String,
    pub active: bool,
    pub last_activity: Option<String>,
    pub panes: Vec<PanePreview>,
    pub preview_error: Option<String>,
}

/// The picker's state.
#[derive(Debug)]
pub struct App {
    pub sessions: Vec<Session>,
    pub selected_index: usize,
    pub current_session_name: Option<String>,
    pub should_quit: bool,
    pub should_switch: bool,
    pub error: Option<String>,
    /// When true, the picker uses modal vim navigation (hjkl to move, `/` to search).
    pub vim_keys: bool,
    pub zoom_key: String,
    /// The open search query; `None` while no search is open.
    pub search_query: Option<String>,
    pub zoomed_session: Option<String>,
    pub windows: Vec<Window>,
    pub selected_window_index: usize,
}

/// A session as plain values.
pub struct SessionView {
    pub id: Seq<char>,
    pub name: Seq<char>,
    pub attached: bool,
    pub window_count: u32,
    pub current_window: Option<Seq<char>>,
    pub last_activity: Option<Seq<char>>,
    pub preview: Seq<Seq<char>>,
    pub preview_error: Option<Seq<char>>,
}

/// The views of a sequence of strings.
pub open spec fn lines_view(v: Seq<String>) -> Seq<Seq<char>> {
    v.map_values(|l: String| l@)
}

impl View for Session {
    type V = SessionView;

    open spec fn view(&self) -> SessionView {
        SessionView {
            id: self.id@,
            name: self.name@,
            attached: self.attached,
            window_count: self.window_count,
            current_window: opt_view(self.current_window),
            last_activity: opt_view(self.last_activity),
            preview: lines_view(self.preview@),
            preview_error: opt_view(self.preview_error),
        }
    }
}

/// A pane preview as plain values.
pub struct PanePreviewView {
    pub id: Seq<char>,
    pub active: bool,
    pub lines: Seq<Seq<char>>,
}

impl View for PanePreview {
    type V = PanePreviewView;

    open spec fn view(&self) -> PanePreviewView {
        PanePreviewView { id: self.id@, active: self.active, lines: lines_view(self.lines@) }
    }
}

/// A window as plain values.
pub struct WindowView {
    pub id: Seq<char>,
    pub index: u32,
    pub name: Seq<char>,
    pub active: bool,
    pub last_activity: Option<Seq<char>>,
    pub panes: Seq<PanePreviewView>,
    pub preview_error: Option<Seq<char>>,
}

impl View for Window {
    type V = WindowView;

    open spec fn view(&self) -> WindowView {
        WindowView {
            id: self.id@,
            index: self.index,
            name: self.name@,
            active: self.active,
            last_activity: opt_view(self.last_activity),
            panes: self.panes@.map_values(|p: PanePreview| p@),
            preview_error: opt_view(self.preview_error),
        }
    }
}

/// The views of a sequence of sessions.
pub open spec fn session_views(s: Seq<Session>) -> Seq<SessionView> {
    s.map_values(|x: Session| x@)
}

// ---------------------------------------------------------------------------
// Sequences and first matches
// ---------------------------------------------------------------------------

/// `i` is the first index of `s` whose element satisfies `p`.
pub open spec fn is_first<T>(s: Seq<T>, p: spec_fn(T) -> bool, i: int) -> bool {
    &&& 0 <= i < s.len()
    &&& p(s[i])
    &&& forall|j: int| 0 <= j < i ==> !p(#[trigger] s[j])
}

/// The first index of `s` whose element satisfies `p`, if there is one.
pub open spec fn first_index<T>(s: Seq<T>, p: spec_fn(T) -> bool) -> Option<int> {
    if exists|i: int| is_first(s, p, i) {
        Some(choose|i: int| is_first(s, p, i))
    } else {
        None
    }
}

/// The first index is unique.
pub proof fn lemma_first_index_is<T>(s: Seq<T>, p: spec_fn(T) -> bool, i: int)
    requires
        is_first(s, p, i),
    ensures
        first_index(s, p) == Some(i),
{
    let k = choose|k: int| is_first(s, p, k);
    if k < i {
        assert(!p(s[k]));
    } else if i < k {
        assert(!p(s[i]));
    }
}

/// Where no element satisfies `p` there is no first index.
pub proof fn lemma_first_index_none<T>(s: Seq<T>, p: spec_fn(T) -> bool)
    requires
        forall|j: int| 0 <= j < s.len() ==> !p(#[trigger] s[j]),
    ensures
        first_index(s, p) is None,
{
}

/// Where some element satisfies `p` there is a first index.
pub proof fn lemma_first_index_exists<T>(s: Seq<T>, p: spec_fn(T) -> bool, i: int)
    requires
        0 <= i < s.len(),
        p(s[i]),
    ensures
        first_index(s, p) is Some,
    decreases i,
{
    if exists|j: int| 0 <= j < i && p(#[trigger] s[j]) {
        let j = choose|j: int| 0 <= j < i && p(#[trigger] s[j]);
        lemma_first_index_exists(s, p, j);
    } else {
        assert(is_first(s, p, i));
    }
}

/// The values of an optional reference.
pub open spec fn opt_deref<T>(o: Option<&T>) -> Option<T> {
    match o {
        Some(x) => Some(*x),
        None => None,
    }
}

/// The view of an optional string.
pub open spec fn opt_view(o: Option<String>) -> Option<Seq<char>> {
    match o {
        Some(s) => Some(s@),
        None => None,
    }
}

/// The session's id is `t`.
pub open spec fn id_is(t: Seq<char>) -> spec_fn(Session) -> bool {
    |s: Session| s.id@ == t
}

/// The session's name is `t`.
pub open spec fn name_is(t: Seq<char>) -> spec_fn(Session) -> bool {
    |s: Session| s.name@ == t
}

/// The window's id is `t`.
pub open spec fn window_id_is(t: Seq<char>) -> spec_fn(Window) -> bool {
    |w: Window| w.id@ == t
}

/// The window is the active one of its session.
pub open spec fn window_is_active() -> spec_fn(Window) -> bool {
    |w: Window| w.active
}

// ---------------------------------------------------------------------------
// Fuzzy matching
// ---------------------------------------------------------------------------

/// `f` maps the positions of `small` to strictly increasing positions of `big`
/// holding the same characters.
pub open spec fn embeds(f: spec_fn(int) -> int, small: Seq<char>, big: Seq<char>) -> bool {
    &&& forall|k: int| 0 <= k < small.len() ==> 0 <= #[trigger] f(k) < big.len() && big[f(k)] == small[k]
    &&& forall|k1: int, k2: int| 0 <= k1 < k2 < small.len() ==> #[trigger] f(k1) < #[trigger] f(k2)
}

/// `small` is a (not necessarily contiguous) subsequence of `big`.
pub open spec fn is_subsequence(small: Seq<char>, big: Seq<char>) -> bool {
    exists|f: spec_fn(int) -> int| #[trigger] embeds(f, small, big)
}

/// A session name matches a query when the lowercased query is a subsequence
/// of the lowercased name.
pub open spec fn fuzzy_match(name: Seq<char>, query: Seq<char>) -> bool {
    is_subsequence(lowercase(query), lowercase(name))
}

proof fn lemma_extend_miss(q: Seq<char>, n: Seq<char>, j: int, i: int)
    requires
        0 <= j < q.len(),
        0 <= i < n.len(),
        !is_subsequence(q.take(j + 1), n.take(i)),
        n[i] != q[j],
    ensures
        !is_subsequence(q.take(j + 1), n.take(i + 1)),
{
    if is_subsequence(q.take(j + 1), n.take(i + 1)) {
        let g = choose|g: spec_fn(int) -> int| #[trigger] embeds(g, q.take(j + 1), n.take(i + 1));
        assert(0 <= g(j) < i + 1);
        if g(j) < i {
            assert forall|k: int| 0 <= k < j + 1 implies 0 <= #[trigger] g(k) < i && n.take(i)[g(k)]
                == q.take(j + 1)[k] by {
                if k < j {
                    assert(g(k) < g(j));
                }
                assert(n.take(i + 1)[g(k)] == q.take(j + 1)[k]);
            }
            assert(embeds(g, q.take(j + 1), n.take(i)));
        } else {
            assert(n.take(i + 1)[g(j)] == q.take(j + 1)[j]);
        }
    }
}

proof fn lemma_extend_hit(q: Seq<char>, n: Seq<char>, j: int, i: int)
    requires
        0 <= j,
        j + 1 < q.len(),
        0 <= i < n.len(),
        !is_subsequence(q.take(j + 1), n.take(i)),
    ensures
        !is_subsequence(q.take(j + 2), n.take(i + 1)),
{
    if is_subsequence(q.take(j + 2), n.take(i + 1)) {
        let g = choose|g: spec_fn(int) -> int| #[trigger] embeds(g, q.take(j + 2), n.take(i + 1));
        assert(g(j) < g(j + 1));
        assert(0 <= g(j + 1) < i + 1);
        assert forall|k: int| 0 <= k < j + 1 implies 0 <= #[trigger] g(k) < i && n.take(i)[g(k)]
            == q.take(j + 1)[k] by {
            if k < j {
                assert(g(k) < g(j));
            }
            assert(n.take(i + 1)[g(k)] == q.take(j + 2)[k]);
        }
        assert(embeds(g, q.take(j + 1), n.take(i)));
    }
}

proof fn lemma_prefix_subsequence(q: Seq<char>, n: Seq<char>, j: int)
    requires
        0 <= j <= q.len(),
        is_subsequence(q, n),
    ensures
        is_subsequence(q.take(j), n),
{
    let g = choose|g: spec_fn(int) -> int| #[trigger] embeds(g, q, n);
    assert(embeds(g, q.take(j), n));
}

/// Whether the characters of `query` occur in `name` in order, ignoring case.
/// A query that lowercases to nothing matches every name.
pub fn fuzzy_matches(name: &str, query: &str) -> (r: bool)
    ensures
        r == fuzzy_match(name@, query@),
        query@.len() == 0 ==> r,
{
    let lq = to_lowercase(query);
    if lq.as_str().unicode_len() == 0 {
        proof {
            let f = |k: int| k;
            assert(embeds(f, lowercase(query@), lowercase(name@)));
        }
        return true;
    }
    let ln = to_lowercase(name);
    is_subsequence_of(lq.as_str(), ln.as_str())
}

/// Whether the characters of `query` occur in `name` in order (not
/// necessarily next to each other).
pub fn is_subsequence_of(query: &str, name: &str) -> (r: bool)
    ensures
        r == is_subsequence(query@, name@),
{
    let qv = to_chars(query);
    let q = qv.len();
    if q == 0 {
        proof {
            let f = |k: int| k;
            assert(embeds(f, query@, name@));
        }
        return true;
    }
    let nv = to_chars(name);
    let n = nv.len();
    let mut i: usize = 0;
    let mut j: usize = 0;
    let ghost mut f: spec_fn(int) -> int = |k: int| k;
    proof {
        assert(embeds(f, qv@.take(0), nv@.take(0)));
        if is_subsequence(qv@.take(1), nv@.take(0)) {
            let g = choose|g: spec_fn(int) -> int| #[trigger] embeds(g, qv@.take(1), nv@.take(0));
            assert(qv@.take(1).len() == 1);
            assert(nv@.take(0).len() == 0);
            let x = g(0);
            assert(0 <= x < 0);
        }
    }
    while i < n && j < q
        invariant
            q == qv@.len(),
            n == nv@.len(),
            i <= n,
            j <= q,
            embeds(f, qv@.take(j as int), nv@.take(i as int)),
            j < q ==> !is_subsequence(qv@.take(j + 1), nv@.take(i as int)),
        decreases n - i,
    {
        if nv[i] == qv[j] {
            proof {
                let f2 = |k: int| if k == j { i as int } else { f(k) };
                assert forall|k: int| 0 <= k < j + 1 implies 0 <= #[trigger] f2(k) < i + 1 && nv@.take(
                    i + 1,
                )[f2(k)] == qv@.take(j + 1)[k] by {
                    if k < j {
                        assert(nv@.take(i as int)[f(k)] == qv@.take(j as int)[k]);
                    }
                }
                assert forall|k1: int, k2: int| 0 <= k1 < k2 < j + 1 implies #[trigger] f2(k1)
                    < #[trigger] f2(k2) by {
                    if k2 < j {
                        assert(f(k1) < f(k2));
                    } else {
                        assert(0 <= f(k1) < i);
                    }
                }
                assert(embeds(f2, qv@.take(j + 1), nv@.take(i + 1)));
                if j + 1 < q {
                    lemma_extend_hit(qv@, nv@, j as int, i as int);
                }
                f = f2;
            }
            j += 1;
        } else {
            proof {
                lemma_extend_miss(qv@, nv@, j as int, i as int);
                assert forall|k: int| 0 <= k < j implies 0 <= #[trigger] f(k) < i + 1 && nv@.take(i + 1)[f(k)]
                    == qv@.take(j as int)[k] by {
                    assert(nv@.take(i as int)[f(k)] == qv@.take(j as int)[k]);
                }
                assert(embeds(f, qv@.take(j as int), nv@.take(i + 1)));
            }
        }
        i += 1;
    }
    proof {
        assert(nv@.take(n as int) =~= nv@);
        assert(qv@.take(q as int) =~= qv@);
        if j < q {
            assert(i == n);
            if is_subsequence(qv@, nv@) {
                lemma_prefix_subsequence(qv@, nv@, j + 1);
            }
        } else {
            assert(embeds(f, qv@, nv@));
        }
    }
    j == q
}

// ---------------------------------------------------------------------------
// The model of the picker's state
// ---------------------------------------------------------------------------

/// The sessions a search query leaves visible: all of them without a query,
/// else those whose name fuzzy-matches it, in their order.
pub open spec fn visible_of(sessions: Seq<Session>, query: Option<Seq<char>>) -> Seq<Session> {
    match query {
        Some(q) => sessions.filter(|s: Session| fuzzy_match(s.name@, q)),
        None => sessions,
    }
}

/// The session a zoom target names: the first with that id, else the first
/// with that name.
pub open spec fn zoom_target_of(sessions: Seq<Session>, target: Option<Seq<char>>) -> Option<Session> {
    match target {
        None => None,
        Some(t) => match first_index(sessions, id_is(t)) {
            Some(i) => Some(sessions[i]),
            None => match first_index(sessions, name_is(t)) {
                Some(i) => Some(sessions[i]),
                None => None,
            },
        },
    }
}

/// `Some(s@)` of a session's name, or `None`.
pub open spec fn name_of(s: Option<Session>) -> Option<Seq<char>> {
    match s {
        Some(x) => Some(x.name@),
        None => None,
    }
}

/// `Some(s@)` of a session's id, or `None`.
pub open spec fn id_of(s: Option<Session>) -> Option<Seq<char>> {
    match s {
        Some(x) => Some(x.id@),
        None => None,
    }
}

/// The smaller of `a` and `b`.
pub open spec fn min_nat(a: int, b: int) -> int {
    if a <= b {
        a
    } else {
        b
    }
}

/// The views of a sequence of references.
pub open spec fn derefs<T>(s: Seq<&T>) -> Seq<T> {
    s.map_values(|x: &T| *x)
}

proof fn lemma_filter_step(s: Seq<Session>, p: spec_fn(Session) -> bool, i: int)
    requires
        0 <= i < s.len(),
    ensures
        s.take(i + 1).filter(p) == if p(s[i]) {
            s.take(i).filter(p).push(s[i])
        } else {
            s.take(i).filter(p)
        },
{
    reveal_with_fuel(Seq::<_>::filter, 1);
    assert(s.take(i + 1).drop_last() =~= s.take(i));
}

impl App {
    /// The search query, if a search is open.
    pub open spec fn query(self) -> Option<Seq<char>> {
        opt_view(self.search_query)
    }

    /// Whether the picker shows the windows of one session.
    pub open spec fn zoomed(self) -> bool {
        self.zoomed_session is Some
    }

    /// The sessions the session grid shows.
    pub open spec fn visible(self) -> Seq<Session> {
        visible_of(self.sessions@, self.query())
    }

    /// The selected card of the session grid.
    pub open spec fn selection(self) -> Option<Session> {
        if self.selected_index < self.visible().len() {
            Some(self.visible()[self.selected_index as int])
        } else {
            None
        }
    }

    /// The selected card of the window grid.
    pub open spec fn window_selection(self) -> Option<Window> {
        if self.selected_window_index < self.windows@.len() {
            Some(self.windows@[self.selected_window_index as int])
        } else {
            None
        }
    }

    /// The session the picker is zoomed into.
    pub open spec fn zoom_target(self) -> Option<Session> {
        zoom_target_of(self.sessions@, opt_view(self.zoomed_session))
    }

    /// Creates the state for `sessions`, selecting the first session named
    /// `current_session_name` (or the first card where there is none).
    pub fn new(sessions: Vec<Session>, current_session_name: Option<String>) -> (app: Self)
        ensures
            app.sessions@ == sessions@,
            app.selected_index == (match current_session_name {
                Some(n) => match first_index(sessions@, name_is(n@)) {
                    Some(i) => i,
                    None => 0,
                },
                None => 0,
            }),
            app.current_session_name == current_session_name,
            !app.should_quit,
            !app.should_switch,
            app.error is None,
            !app.vim_keys,
            app.zoom_key@ == seq!['z'],
            app.query() is None,
            app.zoomed_session is None,
            app.windows@.len() == 0,
            app.selected_window_index == 0,
    {
        let selected_index = match &current_session_name {
            Some(name) => match position_by_name(&sessions, name) {
                Some(i) => i,
                None => 0,
            },
            None => 0,
        };
        let zoom_key = String::from_str("z");
        proof {
            reveal_strlit("z");
        }
        Self {
            sessions,
            selected_index,
            current_session_name,
            should_quit: false,
            should_switch: false,
            error: None,
            vim_keys: false,
            zoom_key,
            search_query: None,
            zoomed_session: None,
            windows: Vec::new(),
            selected_window_index: 0,
        }
    }

    /// Whether the picker shows the windows of one session.
    pub fn is_zoomed(&self) -> (r: bool)
        ensures
            r == self.zoomed(),
    {
        self.zoomed_session.is_some()
    }

    /// The session the picker is zoomed into: the first session whose id is the
    /// zoom target, else the first whose name is.
    pub fn zoomed_session(&self) -> (r: Option<&Session>)
        ensures
            opt_deref(r) == self.zoom_target(),
    {
        match &self.zoomed_session {
            None => None,
            Some(target) => match position_by_id(&self.sessions, target) {
                Some(i) => Some(&self.sessions[i]),
                None => match position_by_name(&self.sessions, target) {
                    Some(i) => Some(&self.sessions[i]),
                    None => None,
                },
            },
        }
    }

    /// The number of windows of the zoomed-in session.
    pub fn visible_window_count(&self) -> (r: usize)
        ensures
            r == self.windows@.len(),
    {
        self.windows.len()
    }

    /// The selected window card, if the selection is on one.
    pub fn selected_window(&self) -> (r: Option<&Window>)
        ensures
            opt_deref(r) == self.window_selection(),
    {
        if self.selected_window_index < self.windows.len() {
            Some(&self.windows[self.selected_window_index])
        } else {
            None
        }
    }

    /// The tmux target of the selection: the selected window's id when zoomed,
    /// else the selected session's id.
    pub fn selected_target(&self) -> (r: Option<String>)
        ensures
            opt_view(r) == if self.zoomed() {
                match self.window_selection() {
                    Some(w) => Some(w.id@),
                    None => None,
                }
            } else {
                id_of(self.selection())
            },
    {
        if self.is_zoomed() {
            match self.selected_window() {
                Some(w) => Some(w.id.clone()),
                None => None,
            }
        } else {
            match self.selected_session() {
                Some(s) => Some(s.id.clone()),
                None => None,
            }
        }
    }

    /// The selected session card, if the selection is on one.
    pub fn selected_session(&self) -> (r: Option<&Session>)
        ensures
            opt_deref(r) == self.selection(),
    {
        let visible = self.visible_sessions();
        if self.selected_index < visible.len() {
            Some(visible[self.selected_index])
        } else {
            None
        }
    }

    /// The sessions the grid shows: all of them, or while searching those whose
    /// name fuzzy-matches the query, in order.
    pub fn visible_sessions(&self) -> (r: Vec<&Session>)
        ensures
            derefs(r@) == self.visible(),
    {
        let mut r: Vec<&Session> = Vec::new();
        match &self.search_query {
            None => {
                let mut i: usize = 0;
                while i < self.sessions.len()
                    invariant
                        i <= self.sessions@.len(),
                        derefs(r@) == self.sessions@.take(i as int),
                    decreases self.sessions@.len() - i,
                {
                    let ghost old_r = r@;
                    r.push(&self.sessions[i]);
                    assert(derefs(r@) =~= derefs(old_r).push(self.sessions@[i as int]));
                    assert(self.sessions@.take(i + 1) =~= self.sessions@.take(i as int).push(
                        self.sessions@[i as int],
                    ));
                    i += 1;
                }
                assert(self.sessions@.take(i as int) =~= self.sessions@);
            },
            Some(query) => {
                let ghost p = |s: Session| fuzzy_match(s.name@, query@);
                let mut i: usize = 0;
                assert(self.sessions@.take(0).filter(p) =~= Seq::<Session>::empty()) by {
                    reveal_with_fuel(Seq::<_>::filter, 1);
                }
                while i < self.sessions.len()
                    invariant
                        i <= self.sessions@.len(),
                        derefs(r@) == self.sessions@.take(i as int).filter(p),
                        p == (|s: Session| fuzzy_match(s.name@, query@)),
                    decreases self.sessions@.len() - i,
                {
                    proof {
                        lemma_filter_step(self.sessions@, p, i as int);
                    }
                    if fuzzy_matches(self.sessions[i].name.as_str(), query.as_str()) {
                        r.push(&self.sessions[i]);
                    }
                    assert(derefs(r@) =~= self.sessions@.take(i + 1).filter(p));
                    i += 1;
                }
                assert(self.sessions@.take(i as int) =~= self.sessions@);
            },
        }
        r
    }

    /// The number of sessions the grid shows.
    pub fn visible_session_count(&self) -> (r: usize)
        ensures
            r == self.visible().len(),
    {
        self.visible_sessions().len()
    }

    /// Whether a search is open.
    pub fn is_searching(&self) -> (r: bool)
        ensures
            r == self.query() is Some,
    {
        self.search_query.is_some()
    }

    /// The search query, if a search is open.
    pub fn search_text(&self) -> (r: Option<&str>)
        ensures
            match r {
                Some(t) => self.query() == Some(t@),
                None => self.query() is None,
            },
    {
        match &self.search_query {
            Some(q) => Some(q.as_str()),
            None => None,
        }
    }
}

/// The index of the first session whose name is `name`.
fn position_by_name(sessions: &Vec<Session>, name: &String) -> (r: Option<usize>)
    ensures
        opt_int(r) == first_index(sessions@, name_is(name@)),
{
    let mut i: usize = 0;
    while i < sessions.len()
        invariant
            i <= sessions@.len(),
            forall|j: int| 0 <= j < i ==> !name_is(name@)(#[trigger] sessions@[j]),
        decreases sessions@.len() - i,
    {
        if sessions[i].name == *name {
            proof {
                lemma_first_index_is(sessions@, name_is(name@), i as int);
            }
            return Some(i);
        }
        i += 1;
    }
    None
}

/// The index of the first session whose id is `id`.
fn position_by_id(sessions: &Vec<Session>, id: &String) -> (r: Option<usize>)
    ensures
        opt_int(r) == first_index(sessions@, id_is(id@)),
{
    let mut i: usize = 0;
    while i < sessions.len()
        invariant
            i <= sessions@.len(),
            forall|j: int| 0 <= j < i ==> !id_is(id@)(#[trigger] sessions@[j]),
        decreases sessions@.len() - i,
    {
        if sessions[i].id == *id {
            proof {
                lemma_first_index_is(sessions@, id_is(id@), i as int);
            }
            return Some(i);
        }
        i += 1;
    }
    None
}

/// An optional index as an optional integer.
pub open spec fn opt_int(o: Option<usize>) -> Option<int> {
    match o {
        Some(i) => Some(i as int),
        None => None,
    }
}

/// What zooming in or out leaves of the error banner: an error from refreshing
/// the session list stays, any other error is cleared.
pub open spec fn error_after_zoom(e: Option<String>) -> Option<String> {
    match e {
        Some(x) => if contains_seq(x@, "list-sessions"@) {
            Some(x)
        } else {
            None
        },
        None => None,
    }
}

impl App {
    /// `post` is what `start_search` makes of `self`.
    pub open spec fn after_start_search(self, post: App) -> bool {
        &&& post.query() == Some(Seq::<char>::empty())
        &&& post.selected_index == 0
        &&& post.sessions@ == self.sessions@
        &&& self.keeps_config(post)
        &&& self.keeps_zoom(post)
        &&& post.error == self.error
    }

    /// `post` is what `push_search_char` makes of `self`.
    pub open spec fn after_push_search_char(self, post: App, ch: char) -> bool {
        &&& match self.query() {
            Some(q) => post.query() == Some(q.push(ch)) && post.selected_index == 0,
            None => post == self,
        }
        &&& post.sessions@ == self.sessions@
        &&& self.keeps_config(post)
        &&& self.keeps_zoom(post)
        &&& post.error == self.error
    }

    /// `post` is what `pop_search_char` makes of `self`.
    pub open spec fn after_pop_search_char(self, post: App) -> bool {
        &&& match self.query() {
            Some(q) => post.query() == Some(
                if q.len() == 0 {
                    q
                } else {
                    q.drop_last()
                },
            ) && post.selected_index == 0,
            None => post == self,
        }
        &&& post.sessions@ == self.sessions@
        &&& self.keeps_config(post)
        &&& self.keeps_zoom(post)
        &&& post.error == self.error
    }

    /// `post` is what `clear_search` makes of `self`.
    pub open spec fn after_clear_search(self, post: App) -> bool {
        &&& post.query() is None
        &&& post.selected_index == 0
        &&& post.sessions@ == self.sessions@
        &&& self.keeps_config(post)
        &&& self.keeps_zoom(post)
        &&& post.error == self.error
    }

    /// `post` is what `toggle_zoom` makes of `self`.
    pub open spec fn after_toggle_zoom(self, post: App) -> bool {
        &&& self.zoomed() ==> {
            &&& self.zoom_cleared(post)
            &&& post.sessions@ == self.sessions@
            &&& post.search_query == self.search_query
            &&& self.keeps_config(post)
            &&& post.error == error_after_zoom(self.error)
            &&& post.selected_index == match name_of(self.zoom_target()) {
                Some(n) => match first_index(self.visible(), name_is(n)) {
                    Some(i) => i,
                    None => self.selected_index as int,
                },
                None => self.selected_index as int,
            }
        }
        &&& !self.zoomed() && self.selection() is Some ==> {
            &&& opt_view(post.zoomed_session) == id_of(self.selection())
            &&& post.selected_window_index == 0
            &&& post.windows@ == self.windows@
            &&& post.query() is None
            &&& post.selected_index == 0
            &&& post.sessions@ == self.sessions@
            &&& self.keeps_config(post)
            &&& post.error == error_after_zoom(self.error)
        }
        &&& !self.zoomed() && self.selection() is None ==> post == self
    }

    /// `post` is what `move_left` makes of `self`.
    pub open spec fn after_move_left(self, post: App) -> bool {
        &&& self.moved_only(post)
        &&& card_index(self) > 0 ==> self.selects(post, card_index(self) - 1)
        &&& card_index(self) == 0 ==> post == self
    }

    /// `post` is what `move_right` makes of `self`.
    pub open spec fn after_move_right(self, post: App) -> bool {
        &&& self.moved_only(post)
        &&& card_index(self) + 1 < card_count(self) ==> self.selects(post, card_index(self) + 1)
        &&& card_index(self) + 1 >= card_count(self) ==> post == self
    }

    /// `post` is what `move_up` makes of `self`.
    pub open spec fn after_move_up(self, post: App, columns: usize) -> bool {
        let c = if columns == 0 {
            1
        } else {
            columns as int
        };
        &&& self.moved_only(post)
        &&& card_index(self) >= c ==> self.selects(post, card_index(self) - c)
        &&& card_index(self) < c ==> post == self
    }

    /// `post` is what `move_down` makes of `self`.
    pub open spec fn after_move_down(self, post: App, columns: usize) -> bool {
        let c = if columns == 0 {
            1
        } else {
            columns as int
        };
        let count = card_count(self);
        let cur = card_index(self);
        &&& self.moved_only(post)
        &&& count > 0 && cur / c < (count - 1) / c ==> self.selects(post, min_nat(cur + c, count - 1))
        &&& !(count > 0 && cur / c < (count - 1) / c) ==> post == self
    }

    /// `post` has the same sessions, query, flags, error and configuration.
    pub open spec fn keeps_config(self, post: App) -> bool {
        &&& post.current_session_name == self.current_session_name
        &&& post.should_quit == self.should_quit
        &&& post.should_switch == self.should_switch
        &&& post.vim_keys == self.vim_keys
        &&& post.zoom_key == self.zoom_key
    }

    /// `post` has the same sessions and search query.
    pub open spec fn keeps_sessions(self, post: App) -> bool {
        &&& post.sessions@ == self.sessions@
        &&& post.search_query == self.search_query
    }

    /// `post` has the same zoom target, windows and window selection.
    pub open spec fn keeps_zoom(self, post: App) -> bool {
        &&& post.zoomed_session == self.zoomed_session
        &&& post.windows@ == self.windows@
        &&& post.selected_window_index == self.selected_window_index
    }

    /// `post` is `self` with the zoom left: no target, no windows, the first
    /// window selected.
    pub open spec fn zoom_cleared(self, post: App) -> bool {
        &&& post.zoomed_session is None
        &&& post.windows@.len() == 0
        &&& post.selected_window_index == 0
    }

    /// `post` is what `replace_sessions(sessions)` makes of `self`.
    pub open spec fn after_replace(self, post: App, sessions: Seq<Session>) -> bool {
        let name = if self.zoomed() {
            name_of(self.zoom_target())
        } else {
            name_of(self.selection())
        };
        let visible = visible_of(sessions, self.query());
        let clamped = min_nat(self.selected_index as int, visible.len() - 1);
        &&& post.sessions@ == sessions
        &&& post.search_query == self.search_query
        &&& self.keeps_config(post)
        &&& post.error == self.error
        &&& if visible.len() == 0 {
            &&& post.selected_index == 0
            &&& if self.zoomed() {
                self.zoom_cleared(post)
            } else {
                self.keeps_zoom(post)
            }
        } else if self.zoomed() {
            if zoom_target_of(sessions, opt_view(self.zoomed_session)) is None {
                &&& self.zoom_cleared(post)
                &&& post.selected_index == clamped
            } else {
                &&& self.keeps_zoom(post)
                &&& post.selected_index == self.selected_index
            }
        } else {
            &&& self.keeps_zoom(post)
            &&& post.selected_index == match name {
                Some(n) => match first_index(visible, name_is(n)) {
                    Some(i) => i,
                    None => clamped,
                },
                None => clamped,
            }
        }
    }

    /// Opens an empty search and selects the first card.
    pub fn start_search(&mut self)
        ensures
            old(self).after_start_search(*final(self)),
    {
        self.search_query = Some(String::new());
        self.selected_index = 0;
    }

    /// Appends `ch` to an open search and selects the first card; does nothing
    /// while no search is open.
    pub fn push_search_char(&mut self, ch: char)
        ensures
            old(self).after_push_search_char(*final(self), ch),
    {
        match self.search_query.take() {
            Some(mut query) => {
                push_char(&mut query, ch);
                self.search_query = Some(query);
                self.selected_index = 0;
            },
            None => {},
        }
    }

    /// Removes the last character of an open search and selects the first card;
    /// does nothing while no search is open.
    pub fn pop_search_char(&mut self)
        ensures
            old(self).after_pop_search_char(*final(self)),
    {
        match self.search_query.take() {
            Some(mut query) => {
                let _ = pop_char(&mut query);
                self.search_query = Some(query);
                self.selected_index = 0;
            },
            None => {},
        }
    }

    /// Closes the search and selects the first card.
    pub fn clear_search(&mut self)
        ensures
            old(self).after_clear_search(*final(self)),
    {
        self.search_query = None;
        self.selected_index = 0;
    }

    /// Clears the error banner unless it reports a failed session refresh.
    fn clear_zoom_error(&mut self)
        ensures
            final(self).error == error_after_zoom(old(self).error),
            final(self).sessions@ == old(self).sessions@,
            final(self).search_query == old(self).search_query,
            final(self).selected_index == old(self).selected_index,
            old(self).keeps_config(*final(self)),
            old(self).keeps_zoom(*final(self)),
    {
        let keep = match &self.error {
            Some(error) => contains_str(error.as_str(), "list-sessions"),
            None => true,
        };
        if !keep {
            self.error = None;
        }
    }

    /// Zooms out of the zoomed session, selecting it in the session grid, or
    /// zooms into the selected session, closing the search.
    pub fn toggle_zoom(&mut self)
        ensures
            old(self).after_toggle_zoom(*final(self)),
    {
        if self.is_zoomed() {
            let selected_name = match self.zoomed_session() {
                Some(session) => Some(session.name.clone()),
                None => None,
            };
            self.zoomed_session = None;
            self.windows.clear();
            self.selected_window_index = 0;
            self.clear_zoom_error();
            match selected_name {
                Some(name) => {
                    let pos = {
                        let visible = self.visible_sessions();
                        position_in_visible(&visible, &name)
                    };
                    match pos {
                        Some(p) => {
                            self.selected_index = p;
                        },
                        None => {},
                    }
                },
                None => {},
            }
        } else {
            let session_id = match self.selected_session() {
                Some(session) => Some(session.id.clone()),
                None => None,
            };
            match session_id {
                Some(id) => {
                    self.clear_search();
                    self.clear_zoom_error();
                    self.zoomed_session = Some(id);
                    self.selected_window_index = 0;
                },
                None => {},
            }
        }
    }

    /// `post` is `self` showing `windows`: the selected window (by id) stays
    /// selected where it is still listed, else the active window, else the
    /// first; the session grid's selection follows it; nothing else changes.
    pub open spec fn after_set_windows(self, post: App, windows: Seq<Window>) -> bool {
        &&& post.windows@ == windows
        &&& windows.len() == 0 ==> post.selected_window_index == 0 && post.selected_index
            == self.selected_index
        &&& windows.len() > 0 ==> {
            let chosen = match (match self.window_selection() {
                Some(w) => first_index(windows, window_id_is(w.id@)),
                None => None,
            }) {
                Some(i) => i,
                None => match first_index(windows, window_is_active()) {
                    Some(i) => i,
                    None => 0,
                },
            };
            &&& post.selected_window_index == chosen
            &&& post.selected_index == chosen
        }
        &&& post.sessions@ == self.sessions@
        &&& post.search_query == self.search_query
        &&& post.zoomed_session == self.zoomed_session
        &&& post.error == self.error
        &&& self.keeps_config(post)
    }

    /// Shows `windows` for the zoomed session, keeping the selected window (by
    /// id) where it is still there, else selecting the active window, else the
    /// first.
    pub fn set_windows_for_zoomed_session(&mut self, windows: Vec<Window>)
        ensures
            old(self).after_set_windows(*final(self), windows@),
    {
        let selected_id = match self.selected_window() {
            Some(w) => Some(w.id.clone()),
            None => None,
        };
        self.windows = windows;
        if self.windows.len() == 0 {
            self.selected_window_index = 0;
            return;
        }
        let by_id = match &selected_id {
            Some(id) => position_window_by_id(&self.windows, id),
            None => None,
        };
        let index = match by_id {
            Some(i) => i,
            None => match position_active_window(&self.windows) {
                Some(i) => i,
                None => 0,
            },
        };
        self.selected_window_index = index;
        self.selected_index = index;
    }

    /// Replaces the session list, keeping the zoom while its session is still
    /// there and otherwise keeping the selected session (by name) selected.
    pub fn replace_sessions(&mut self, sessions: Vec<Session>)
        ensures
            old(self).after_replace(*final(self), sessions@),
    {
        let selected_name = if self.is_zoomed() {
            match self.zoomed_session() {
                Some(session) => Some(session.name.clone()),
                None => None,
            }
        } else {
            match self.selected_session() {
                Some(session) => Some(session.name.clone()),
                None => None,
            }
        };
        self.sessions = sessions;
        let count = self.visible_session_count();
        if count == 0 {
            self.selected_index = 0;
            if self.is_zoomed() {
                self.zoomed_session = None;
                self.windows.clear();
                self.selected_window_index = 0;
            }
            return;
        }
        let clamped = if self.selected_index < count - 1 {
            self.selected_index
        } else {
            count - 1
        };
        if self.is_zoomed() {
            if self.zoomed_session().is_none() {
                self.zoomed_session = None;
                self.windows.clear();
                self.selected_window_index = 0;
                self.selected_index = clamped;
            }
        } else {
            let pos = match &selected_name {
                Some(name) => {
                    let visible = self.visible_sessions();
                    position_in_visible(&visible, name)
                },
                None => None,
            };
            self.selected_index = match pos {
                Some(p) => p,
                None => clamped,
            };
        }
    }
}

/// The index of the first visible session whose name is `name`.
fn position_in_visible(visible: &Vec<&Session>, name: &String) -> (r: Option<usize>)
    ensures
        opt_int(r) == first_index(derefs(visible@), name_is(name@)),
{
    let mut i: usize = 0;
    while i < visible.len()
        invariant
            i <= visible@.len(),
            forall|j: int| 0 <= j < i ==> !name_is(name@)(#[trigger] derefs(visible@)[j]),
        decreases visible@.len() - i,
    {
        if visible[i].name == *name {
            proof {
                lemma_first_index_is(derefs(visible@), name_is(name@), i as int);
            }
            return Some(i);
        }
        i += 1;
    }
    None
}

/// The index of the first window whose id is `id`.
fn position_window_by_id(windows: &Vec<Window>, id: &String) -> (r: Option<usize>)
    ensures
        opt_int(r) == first_index(windows@, window_id_is(id@)),
{
    let mut i: usize = 0;
    while i < windows.len()
        invariant
            i <= windows@.len(),
            forall|j: int| 0 <= j < i ==> !window_id_is(id@)(#[trigger] windows@[j]),
        decreases windows@.len() - i,
    {
        if windows[i].id == *id {
            proof {
                lemma_first_index_is(windows@, window_id_is(id@), i as int);
            }
            return Some(i);
        }
        i += 1;
    }
    None
}

/// The index of the first active window.
fn position_active_window(windows: &Vec<Window>) -> (r: Option<usize>)
    ensures
        opt_int(r) == first_index(windows@, window_is_active()),
{
    let mut i: usize = 0;
    while i < windows.len()
        invariant
            i <= windows@.len(),
            forall|j: int| 0 <= j < i ==> !window_is_active()(#[trigger] windows@[j]),
        decreases windows@.len() - i,
    {
        if windows[i].active {
            proof {
                lemma_first_index_is(windows@, window_is_active(), i as int);
            }
            return Some(i);
        }
        i += 1;
    }
    None
}

/// The number of cards of the grid the picker shows.
pub open spec fn card_count(app: App) -> int {
    if app.zoomed() {
        app.windows@.len() as int
    } else {
        app.visible().len() as int
    }
}

/// The selected card of the grid the picker shows.
pub open spec fn card_index(app: App) -> int {
    if app.zoomed() {
        app.selected_window_index as int
    } else {
        app.selected_index as int
    }
}

impl App {
    /// `post` differs from `self` at most in the selection.
    pub open spec fn moved_only(self, post: App) -> bool {
        &&& self.keeps_config(post)
        &&& self.keeps_sessions(post)
        &&& post.zoomed_session == self.zoomed_session
        &&& post.windows@ == self.windows@
        &&& post.error == self.error
    }

    /// `post` selects card `i` of the grid `self` shows.
    pub open spec fn selects(self, post: App, i: int) -> bool {
        if self.zoomed() {
            post.selected_window_index == i && post.selected_index == i
        } else {
            post.selected_index == i && post.selected_window_index == self.selected_window_index
        }
    }

    /// Selects the previous card, staying on the first.
    pub fn move_left(&mut self)
        ensures
            old(self).after_move_left(*final(self)),
    {
        if self.is_zoomed() {
            if self.selected_window_index > 0 {
                self.selected_window_index -= 1;
                self.selected_index = self.selected_window_index;
            }
        } else if self.selected_index > 0 {
            self.selected_index -= 1;
        }
    }

    /// Selects the next card, staying on the last.
    pub fn move_right(&mut self)
        ensures
            old(self).after_move_right(*final(self)),
    {
        if self.is_zoomed() {
            if self.selected_window_index < self.visible_window_count()
                && self.visible_window_count() - self.selected_window_index > 1 {
                self.selected_window_index += 1;
                self.selected_index = self.selected_window_index;
            }
        } else {
            let count = self.visible_session_count();
            if self.selected_index < count && count - self.selected_index > 1 {
                self.selected_index += 1;
            }
        }
    }

    /// Selects the card one row up (`columns` cards back, at least one), staying
    /// in place on the first row.
    pub fn move_up(&mut self, columns: usize)
        ensures
            old(self).after_move_up(*final(self), columns),
    {
        let columns = if columns == 0 {
            1
        } else {
            columns
        };
        if self.is_zoomed() {
            if self.selected_window_index >= columns {
                self.selected_window_index -= columns;
                self.selected_index = self.selected_window_index;
            }
        } else if self.selected_index >= columns {
            self.selected_index -= columns;
        }
    }

    /// Selects the card one row down (`columns` cards on, at least one), or the
    /// last card where the next row is shorter; stays in place on the last row.
    pub fn move_down(&mut self, columns: usize)
        ensures
            old(self).after_move_down(*final(self), columns),
    {
        let columns = if columns == 0 {
            1
        } else {
            columns
        };
        let count = if self.is_zoomed() {
            self.visible_window_count()
        } else {
            self.visible_session_count()
        };
        if count == 0 {
            return;
        }
        let last_index = count - 1;
        let current_index = if self.is_zoomed() {
            self.selected_window_index
        } else {
            self.selected_index
        };
        let current_row = current_index / columns;
        let last_row = last_index / columns;
        if current_row < last_row {
            let new_index = if columns <= last_index && current_index <= last_index - columns {
                current_index + columns
            } else {
                last_index
            };
            if self.is_zoomed() {
                self.selected_window_index = new_index;
                self.selected_index = new_index;
            } else {
                self.selected_index = new_index;
            }
        }
    }
}

/// The session view's id is `t`.
pub open spec fn view_id_is(t: Seq<char>) -> spec_fn(SessionView) -> bool {
    |s: SessionView| s.id == t
}

/// `news` where the first session with id `id` takes over the preview and
/// preview error of the first session with that id in `olds`, if both exist.
pub open spec fn with_preview_of(news: Seq<SessionView>, olds: Seq<SessionView>, id: Seq<char>) -> Seq<SessionView> {
    match (first_index(olds, view_id_is(id)), first_index(news, view_id_is(id))) {
        (Some(p), Some(n)) => news.update(
            n,
            SessionView { preview: olds[p].preview, preview_error: olds[p].preview_error, ..news[n] },
        ),
        _ => news,
    }
}

/// `news` where, in order, each session takes over the preview, the preview
/// error and (where it has none) the current window of the first session with
/// its id in `olds`; what is taken is gone from `olds` for later sessions.
pub open spec fn carry_previews(olds: Seq<SessionView>, news: Seq<SessionView>) -> Seq<SessionView>
    decreases news.len(),
{
    if news.len() == 0 {
        news
    } else {
        let s = news[0];
        match first_index(olds, view_id_is(s.id)) {
            None => seq![s] + carry_previews(olds, news.drop_first()),
            Some(j) => {
                let p = olds[j];
                let s2 = SessionView {
                    preview: p.preview,
                    preview_error: p.preview_error,
                    current_window: if s.current_window is None {
                        p.current_window
                    } else {
                        s.current_window
                    },
                    ..s
                };
                let p2 = SessionView {
                    preview: Seq::empty(),
                    preview_error: None,
                    current_window: if s.current_window is None {
                        None
                    } else {
                        p.current_window
                    },
                    ..p
                };
                seq![s2] + carry_previews(olds.update(j, p2), news.drop_first())
            },
        }
    }
}

/// The index of the first session whose id is `id`.
fn position_view_by_id(sessions: &Vec<Session>, id: &str) -> (r: Option<usize>)
    ensures
        opt_int(r) == first_index(session_views(sessions@), view_id_is(id@)),
        r matches Some(i) ==> i < sessions@.len(),
{
    let mut i: usize = 0;
    while i < sessions.len()
        invariant
            i <= sessions@.len(),
            forall|j: int| 0 <= j < i ==> !view_id_is(id@)(#[trigger] session_views(sessions@)[j]),
        decreases sessions@.len() - i,
    {
        if same_text(sessions[i].id.as_str(), id) {
            proof {
                lemma_first_index_is(session_views(sessions@), view_id_is(id@), i as int);
            }
            return Some(i);
        }
        i += 1;
    }
    None
}

impl App {
    /// Replaces the session list as `replace_sessions` does, except that the
    /// session with id `preserved_session_id` keeps the preview it had.
    pub fn replace_sessions_preserving_preview_for(
        &mut self,
        sessions: Vec<Session>,
        preserved_session_id: Option<&str>,
    )
        ensures
            old(self).after_replace(*final(self), final(self).sessions@),
            session_views(final(self).sessions@) == match preserved_session_id {
                Some(id) => with_preview_of(
                    session_views(sessions@),
                    session_views(old(self).sessions@),
                    id@,
                ),
                None => session_views(sessions@),
            },
    {
        let mut sessions = sessions;
        match preserved_session_id {
            Some(id) => {
                let previous = position_view_by_id(&self.sessions, id);
                let next = position_view_by_id(&sessions, id);
                match (previous, next) {
                    (Some(p), Some(n)) => {
                        let preview = clone_lines(&self.sessions[p].preview);
                        let preview_error = clone_opt(&self.sessions[p].preview_error);
                        let ghost before = sessions@;
                        let mut next_session = sessions.remove(n);
                        next_session.preview = preview;
                        next_session.preview_error = preview_error;
                        sessions.insert(n, next_session);
                        assert(session_views(sessions@) =~= session_views(before).update(
                            n as int,
                            next_session@,
                        ));
                    },
                    _ => {},
                }
            },
            None => {},
        }
        self.replace_sessions(sessions);
    }
}

/// `a` and `b` hold sessions with the same ids and names, in the same order.
pub open spec fn same_ids_and_names(a: Seq<Session>, b: Seq<Session>) -> bool {
    &&& a.len() == b.len()
    &&& forall|i: int| 0 <= i < a.len() ==> (#[trigger] a[i]).id@ == b[i].id@ && a[i].name@ == b[i].name@
}

/// Two sequences whose elements satisfy two predicates alike, position by
/// position, have the same first index.
pub proof fn lemma_first_index_same<T, U>(a: Seq<T>, pa: spec_fn(T) -> bool, b: Seq<U>, pb: spec_fn(U) -> bool)
    requires
        a.len() == b.len(),
        forall|i: int| 0 <= i < a.len() ==> pa(#[trigger] a[i]) == pb(b[i]),
    ensures
        first_index(a, pa) == first_index(b, pb),
{
    if exists|i: int| is_first(a, pa, i) {
        let i = choose|i: int| is_first(a, pa, i);
        assert forall|j: int| 0 <= j < i implies !pb(#[trigger] b[j]) by {
            assert(pa(a[j]) == pb(b[j]));
        }
        assert(is_first(b, pb, i));
        lemma_first_index_is(a, pa, i);
        lemma_first_index_is(b, pb, i);
    } else if exists|i: int| is_first(b, pb, i) {
        let i = choose|i: int| is_first(b, pb, i);
        assert forall|j: int| 0 <= j < i implies !pa(#[trigger] a[j]) by {
            assert(pa(a[j]) == pb(b[j]));
        }
        assert(pa(a[i]) == pb(b[i]));
        assert(is_first(a, pa, i));
    }
}

proof fn lemma_visible_same(a: Seq<Session>, b: Seq<Session>, q: Option<Seq<char>>)
    requires
        same_ids_and_names(a, b),
    ensures
        same_ids_and_names(visible_of(a, q), visible_of(b, q)),
    decreases a.len(),
{
    if let Some(qq) = q {
        let p = |s: Session| fuzzy_match(s.name@, qq);
        reveal_with_fuel(Seq::<_>::filter, 1);
        if a.len() > 0 {
            assert(same_ids_and_names(a.drop_last(), b.drop_last())) by {
                assert forall|i: int| 0 <= i < a.drop_last().len() implies (#[trigger] a.drop_last()[i]).id@
                    == b.drop_last()[i].id@ && a.drop_last()[i].name@ == b.drop_last()[i].name@ by {
                    assert(a.drop_last()[i] == a[i]);
                    assert(b.drop_last()[i] == b[i]);
                }
            }
            lemma_visible_same(a.drop_last(), b.drop_last(), q);
            assert(a.last().name@ == b.last().name@);
            let fa = a.drop_last().filter(p);
            let fb = b.drop_last().filter(p);
            if p(a.last()) {
                assert(a.filter(p) == fa.push(a.last()));
                assert(b.filter(p) == fb.push(b.last()));
                assert forall|i: int| 0 <= i < a.filter(p).len() implies (#[trigger] a.filter(p)[i]).id@
                    == b.filter(p)[i].id@ && a.filter(p)[i].name@ == b.filter(p)[i].name@ by {
                    if i < fa.len() {
                        assert(a.filter(p)[i] == fa[i]);
                        assert(b.filter(p)[i] == fb[i]);
                    }
                }
            } else {
                assert(a.filter(p) == fa);
                assert(b.filter(p) == fb);
            }
        }
    }
}

proof fn lemma_zoom_target_same(a: Seq<Session>, b: Seq<Session>, t: Option<Seq<char>>)
    requires
        same_ids_and_names(a, b),
    ensures
        name_of(zoom_target_of(a, t)) == name_of(zoom_target_of(b, t)),
        (zoom_target_of(a, t) is None) == (zoom_target_of(b, t) is None),
{
    if let Some(tt) = t {
        assert forall|i: int| 0 <= i < a.len() implies id_is(tt)(#[trigger] a[i]) == id_is(tt)(b[i]) by {}
        assert forall|i: int| 0 <= i < a.len() implies name_is(tt)(#[trigger] a[i]) == name_is(tt)(b[i]) by {}
        lemma_first_index_same(a, id_is(tt), b, id_is(tt));
        lemma_first_index_same(a, name_is(tt), b, name_is(tt));
        if let Some(i) = first_index(a, id_is(tt)) {
            assert(is_first(a, id_is(tt), i));
        } else if let Some(i) = first_index(a, name_is(tt)) {
            assert(is_first(a, name_is(tt), i));
        }
    }
}

impl App {
    /// Replacing the sessions only depends on the ids and names of the old ones.
    proof fn lemma_after_replace_same(self, other: App, post: App, sessions: Seq<Session>)
        requires
            same_ids_and_names(self.sessions@, other.sessions@),
            self.search_query == other.search_query,
            self.selected_index == other.selected_index,
            self.keeps_config(other),
            self.keeps_zoom(other),
            self.error == other.error,
            other.after_replace(post, sessions),
        ensures
            self.after_replace(post, sessions),
    {
        lemma_visible_same(self.sessions@, other.sessions@, self.query());
        lemma_zoom_target_same(self.sessions@, other.sessions@, opt_view(self.zoomed_session));
        let va = self.visible();
        let vb = other.visible();
        if self.selected_index < va.len() {
            assert(va[self.selected_index as int].name@ == vb[self.selected_index as int].name@);
        }
    }

    /// Replaces the session list as `replace_sessions` does, each new session
    /// taking over the preview, preview error and (where it has none) current
    /// window of the old session with its id.
    pub fn replace_sessions_preserving_all_previews(&mut self, sessions: Vec<Session>)
        ensures
            old(self).after_replace(*final(self), final(self).sessions@),
            session_views(final(self).sessions@) == carry_previews(
                session_views(old(self).sessions@),
                session_views(sessions@),
            ),
    {
        let mut sessions = sessions;
        let ghost olds0 = session_views(self.sessions@);
        let ghost news0 = session_views(sessions@);
        let ghost start = *self;
        let mut k: usize = 0;
        assert(news0.skip(0) =~= news0);
        while k < sessions.len()
            invariant
                k <= sessions@.len(),
                sessions@.len() == news0.len(),
                session_views(sessions@).skip(k as int) == news0.skip(k as int),
                carry_previews(olds0, news0) == session_views(sessions@).take(k as int) + carry_previews(
                    session_views(self.sessions@),
                    news0.skip(k as int),
                ),
                same_ids_and_names(self.sessions@, start.sessions@),
                self.search_query == start.search_query,
                self.selected_index == start.selected_index,
                start.keeps_config(*self),
                start.keeps_zoom(*self),
                self.error == start.error,
            decreases sessions@.len() - k,
        {
            let ghost olds = session_views(self.sessions@);
            let ghost rest = news0.skip(k as int);
            assert(rest[0] == session_views(sessions@)[k as int]);
            assert(rest.drop_first() =~= news0.skip(k + 1));
            let found = position_view_by_id(&self.sessions, sessions[k].id.as_str());
            match found {
                Some(j) => {
                    let ghost before_news = sessions@;
                    let ghost before_olds = self.sessions@;
                    let mut previous = self.sessions.remove(j);
                    let mut session = sessions.remove(k);
                    session.preview = previous.preview;
                    previous.preview = Vec::new();
                    session.preview_error = previous.preview_error.take();
                    if session.current_window.is_none() {
                        session.current_window = previous.current_window.take();
                    }
                    self.sessions.insert(j, previous);
                    sessions.insert(k, session);
                    proof {
                        assert(self.sessions@ =~= before_olds.update(j as int, previous));
                        assert(sessions@ =~= before_news.update(k as int, session));
                        assert(session_views(self.sessions@) =~= olds.update(j as int, previous@));
                        assert(lines_view(previous.preview@) =~= Seq::<Seq<char>>::empty());
                        assert(same_ids_and_names(self.sessions@, start.sessions@)) by {
                            assert forall|i: int| 0 <= i < self.sessions@.len() implies (
                            #[trigger] self.sessions@[i]).id@ == start.sessions@[i].id@
                                && self.sessions@[i].name@ == start.sessions@[i].name@ by {
                                if i != j {
                                    assert(self.sessions@[i] == before_olds[i]);
                                }
                            }
                        }
                        assert(session_views(sessions@).take(k + 1) =~= session_views(
                            before_news,
                        ).take(k as int).push(session@));
                        assert(session_views(sessions@).skip(k + 1) =~= news0.skip(k + 1));
                    }
                },
                None => {
                    proof {
                        assert(session_views(sessions@).take(k + 1) =~= session_views(sessions@).take(
                            k as int,
                        ).push(rest[0]));
                        assert(session_views(sessions@).skip(k + 1) =~= news0.skip(k + 1));
                    }
                },
            }
            k += 1;
        }
        proof {
            assert(news0.skip(k as int) =~= Seq::<SessionView>::empty());
            assert(session_views(sessions@).take(k as int) =~= session_views(sessions@));
        }
        let ghost mid = *self;
        self.replace_sessions(sessions);
        proof {
            start.lemma_after_replace_same(mid, *self, self.sessions@);
        }
    }
}

} // verus!
