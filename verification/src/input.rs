//! Keyboard and mouse handling: which key does what in the default, vim and
//! search modes, and the configurable toggle and zoom keys.
use vstd::prelude::*;

use crate::model::{App, card_count, card_index, first_index, opt_int, lemma_first_index_is};
use crate::ui::{Rect, calculate_grid, grid_cards, grid_fits};
use crate::text::{from_chars, to_chars, trim, trim_range};

verus! {

/// A key, as the terminal reports it.
#[derive(Clone, Copy, Debug, PartialEq, Eq, Structural)]
pub enum KeyCode {
    Backspace,
    Enter,
    Left,
    Right,
    Up,
    Down,
    Esc,
    Char(char),
    /// Any other key (function keys, Tab, Home, ...).
    Other,
}

/// The modifier keys held with a key, as a set of bits.
#[derive(Clone, Copy, Debug, PartialEq, Eq, Structural)]
pub struct KeyModifiers {
    pub bits: u8,
}

impl KeyModifiers {
    /// No modifier.
    pub fn none() -> (r: KeyModifiers)
        ensures
            r.bits == 0,
    {
        KeyModifiers { bits: 0 }
    }

    /// Shift.
    pub fn shift() -> (r: KeyModifiers)
        ensures
            r.bits == 1,
    {
        KeyModifiers { bits: 1 }
    }

    /// Control.
    pub fn control() -> (r: KeyModifiers)
        ensures
            r.bits == 2,
    {
        KeyModifiers { bits: 2 }
    }

    /// Alt.
    pub fn alt() -> (r: KeyModifiers)
        ensures
            r.bits == 4,
    {
        KeyModifiers { bits: 4 }
    }

    /// Adds the modifiers of `other`.
    pub fn insert(&mut self, other: KeyModifiers)
        ensures
            final(self).bits == old(self).bits | other.bits,
    {
        self.bits = self.bits | other.bits;
    }
}

/// A key press.
#[derive(Clone, Copy, Debug, PartialEq, Eq, Structural)]
pub struct KeyEvent {
    pub code: KeyCode,
    pub modifiers: KeyModifiers,
}

impl KeyEvent {
    /// The press of `code` with `modifiers`.
    pub fn new(code: KeyCode, modifiers: KeyModifiers) -> (r: KeyEvent)
        ensures
            r.code == code,
            r.modifiers == modifiers,
    {
        KeyEvent { code, modifiers }
    }
}

/// A configured key (the popup toggle key or the zoom key), written in tmux's
/// notation.
#[derive(Clone, Copy, Debug, PartialEq, Eq, Structural)]
pub struct ToggleKey {
    code: KeyCode,
    modifiers: KeyModifiers,
}

/// The modifier bits of a tmux key name's prefix: 4 (Alt) for `M-`, 2
/// (Control) for `C-`, else none.
pub open spec fn tmux_prefix_mods(value: Seq<char>) -> u8 {
    if value.len() >= 2 && value[0] == 'M' && value[1] == '-' {
        4
    } else if value.len() >= 2 && value[0] == 'C' && value[1] == '-' {
        2
    } else {
        0
    }
}

/// The length of a tmux key name's modifier prefix.
pub open spec fn tmux_prefix_len(value: Seq<char>) -> int {
    if value.len() >= 2 && (value[0] == 'M' || value[0] == 'C') && value[1] == '-' {
        2
    } else {
        0
    }
}

/// The key a tmux key name denotes, as a key code and modifier bits: an
/// optional `M-` (Alt) or `C-` (Control) prefix, then `Esc` or a single
/// character; an ASCII uppercase letter also holds Shift.
pub open spec fn tmux_key(value: Seq<char>) -> Option<(KeyCode, u8)> {
    let mods = tmux_prefix_mods(value);
    let key = value.skip(tmux_prefix_len(value));
    if key == "Esc"@ {
        Some((KeyCode::Esc, mods))
    } else if key.len() == 1 {
        Some(
            (
                KeyCode::Char(key[0]),
                if 'A' <= key[0] && key[0] <= 'Z' {
                    (mods + 1) as u8
                } else {
                    mods
                },
            ),
        )
    } else {
        None
    }
}

impl ToggleKey {
    /// The key.
    pub closed spec fn key_code(self) -> KeyCode {
        self.code
    }

    /// The modifier bits held with the key.
    pub closed spec fn key_mods(self) -> u8 {
        self.modifiers.bits
    }

    /// The key of `code` with modifier bits `mods`.
    pub open spec fn is_key(self, code: KeyCode, mods: u8) -> bool {
        self.key_code() == code && self.key_mods() == mods
    }

    /// Whether the press `key` is this key.
    pub open spec fn matches_key(self, key: KeyEvent) -> bool {
        self.key_code() == key.code && self.key_mods() == key.modifiers.bits
    }

    /// The key a tmux key name such as `z`, `E`, `M-e`, `C-x` or `Esc` denotes.
    pub fn from_tmux_key(value: &str) -> (r: Option<Self>)
        ensures
            match r {
                Some(k) => tmux_key(value@) == Some((k.key_code(), k.key_mods())),
                None => tmux_key(value@) is None,
            },
    {
        let v = to_chars(value);
        let n = v.len();
        let (mut modifiers, start) = if n >= 2 && v[0] == 'M' && v[1] == '-' {
            (KeyModifiers::alt(), 2)
        } else if n >= 2 && v[0] == 'C' && v[1] == '-' {
            (KeyModifiers::control(), 2)
        } else {
            (KeyModifiers::none(), 0)
        };
        let ghost key = v@.skip(start as int);
        assert(key =~= v@.subrange(start as int, n as int));
        assert(start == tmux_prefix_len(value@));
        assert(modifiers.bits == tmux_prefix_mods(value@));
        let code = if range_is_esc(&v, start, n) {
            KeyCode::Esc
        } else if n - start == 1 {
            let ch = v[start];
            assert(key[0] == ch);
            if 'A' <= ch && ch <= 'Z' {
                let ghost before = modifiers.bits;
                modifiers.insert(KeyModifiers::shift());
                assert(before == 0 || before == 2 || before == 4);
                assert(before == 0 || before == 2 || before == 4 ==> before | 1u8 == (before + 1) as u8)
                    by (bit_vector);
            }
            KeyCode::Char(ch)
        } else {
            return None;
        };
        Some(Self { code, modifiers })
    }

    /// Whether the press `key` is this key.
    fn matches(self, key: KeyEvent) -> (r: bool)
        ensures
            r == self.matches_key(key),
    {
        self.code == key.code && self.modifiers == key.modifiers
    }
}

/// Whether `v[lo..hi]` spells `Esc`.
fn range_is_esc(v: &Vec<char>, lo: usize, hi: usize) -> (r: bool)
    requires
        lo <= hi <= v.len(),
    ensures
        r == (v@.subrange(lo as int, hi as int) == "Esc"@),
{
    let e = to_chars("Esc");
    if hi - lo != e.len() {
        return false;
    }
    let mut i: usize = 0;
    while i < e.len()
        invariant
            lo <= hi <= v.len(),
            hi - lo == e@.len(),
            e@ == "Esc"@,
            i <= e@.len(),
            forall|j: int| 0 <= j < i ==> v@[lo + j] == e@[j],
        decreases e@.len() - i,
    {
        if v[lo + i] != e[i] {
            assert(v@.subrange(lo as int, hi as int)[i as int] != e@[i as int]);
            return false;
        }
        i += 1;
    }
    assert(v@.subrange(lo as int, hi as int) =~= e@);
    true
}

/// `Ctrl-C`.
pub open spec fn is_ctrl_c(code: KeyCode, mods: u8) -> bool {
    code == KeyCode::Char('c') && mods == 2
}

/// Whether `(code, mods)` may serve as the zoom key: not `Ctrl-C`, not `Esc`,
/// not the toggle key, and in vim mode none of the unmodified keys `h`, `j`,
/// `k`, `l`, `/`, `q`.
pub open spec fn valid_zoom_key(code: KeyCode, mods: u8, toggle_key: Option<ToggleKey>, vim_keys: bool) -> bool {
    &&& !is_ctrl_c(code, mods)
    &&& code != KeyCode::Esc
    &&& !(toggle_key matches Some(t) && t.is_key(code, mods))
    &&& !(vim_keys && mods == 0 && (code == KeyCode::Char('h') || code == KeyCode::Char('j')
        || code == KeyCode::Char('k') || code == KeyCode::Char('l') || code == KeyCode::Char('/')
        || code == KeyCode::Char('q')))
}

fn is_valid_zoom_key(key: ToggleKey, toggle_key: Option<ToggleKey>, vim_keys: bool) -> (r: bool)
    ensures
        r == valid_zoom_key(key.key_code(), key.key_mods(), toggle_key, vim_keys),
{
    if key.code == KeyCode::Char('c') && key.modifiers.bits == 2 {
        return false;
    }
    if key.code == KeyCode::Esc {
        return false;
    }
    match toggle_key {
        Some(t) => {
            if t.code == key.code && t.modifiers == key.modifiers {
                return false;
            }
        },
        None => {},
    }
    if vim_keys && key.modifiers.bits == 0 && (key.code == KeyCode::Char('h') || key.code
        == KeyCode::Char('j') || key.code == KeyCode::Char('k') || key.code == KeyCode::Char('l')
        || key.code == KeyCode::Char('/') || key.code == KeyCode::Char('q')) {
        return false;
    }
    true
}

/// The zoom key a configured name gives: the trimmed name where it denotes a
/// key that may serve as the zoom key, else `z` where that may, else none.
pub open spec fn zoom_key_choice(raw: Option<Seq<char>>, toggle_key: Option<ToggleKey>, vim_keys: bool) -> Option<(KeyCode, u8, Seq<char>)> {
    let configured = match raw {
        Some(s) => {
            let t = trim(s);
            match tmux_key(t) {
                Some((code, mods)) => if t.len() > 0 && valid_zoom_key(code, mods, toggle_key, vim_keys) {
                    Some((code, mods, t))
                } else {
                    None
                },
                None => None,
            }
        },
        None => None,
    };
    match configured {
        Some(c) => Some(c),
        None => if valid_zoom_key(KeyCode::Char('z'), 0, toggle_key, vim_keys) {
            Some((KeyCode::Char('z'), 0u8, seq!['z']))
        } else {
            None
        },
    }
}

/// The zoom key and the label the footer shows for it, from the configured
/// name `raw`: the configured key where it is valid, else `z`, else none
/// (with an empty label) where `z` is taken too.
pub fn resolve_zoom_key(raw: Option<&str>, toggle_key: Option<ToggleKey>, vim_keys: bool) -> (r: (
    Option<ToggleKey>,
    String,
))
    ensures
        match zoom_key_choice(
            match raw {
                Some(s) => Some(s@),
                None => None,
            },
            toggle_key,
            vim_keys,
        ) {
            Some((code, mods, label)) => r.0 matches Some(k) && k.is_key(code, mods) && r.1@ == label,
            None => r.0 is None && r.1@ == Seq::<char>::empty(),
        },
{
    match raw {
        Some(s) => {
            let v = to_chars(s);
            let (a, b) = trim_range(&v, 0, v.len());
            assert(v@.subrange(0, v@.len() as int) =~= s@);
            if a < b {
                let trimmed = from_chars(&v, a, b);
                match ToggleKey::from_tmux_key(trimmed.as_str()) {
                    Some(parsed) => {
                        if is_valid_zoom_key(parsed, toggle_key, vim_keys) {
                            return (Some(parsed), trimmed);
                        }
                    },
                    None => {},
                }
            }
        },
        None => {},
    }
    let default_key = ToggleKey { code: KeyCode::Char('z'), modifiers: KeyModifiers::none() };
    if is_valid_zoom_key(default_key, toggle_key, vim_keys) {
        let label = String::from_str("z");
        proof {
            reveal_strlit("z");
        }
        (Some(default_key), label)
    } else {
        (None, String::new())
    }
}

/// A key that types into the search filter: a character with no modifier or
/// with Shift.
pub open spec fn typeable(key: KeyEvent) -> bool {
    key.code is Char && (key.modifiers.bits == 0 || key.modifiers.bits == 1)
}

/// `post` is `pre` with the quit flag set.
pub open spec fn quits(pre: App, post: App) -> bool {
    post == App { should_quit: true, ..pre }
}

/// `post` is `pre` with the switch flag set.
pub open spec fn switches(pre: App, post: App) -> bool {
    post == App { should_switch: true, ..pre }
}

/// `post` is `pre` with `ch` typed into the search filter (opening the search
/// where none is open) and the first card selected.
pub open spec fn types_char(pre: App, post: App, ch: char) -> bool {
    &&& post.query() == Some(
        match pre.query() {
            Some(q) => q,
            None => Seq::empty(),
        }.push(ch),
    )
    &&& post.selected_index == 0
    &&& post.sessions@ == pre.sessions@
    &&& pre.keeps_config(post)
    &&& pre.keeps_zoom(post)
    &&& post.error == pre.error
}

/// The number of columns the grid uses for `columns`: at least one.
pub open spec fn at_least_one(columns: usize) -> int {
    if columns == 0 {
        1
    } else {
        columns as int
    }
}

/// `post` is `pre` after a move left within the row: no move from the first
/// column.
pub open spec fn moves_left_in_row(pre: App, post: App, columns: usize) -> bool {
    if card_index(pre) % at_least_one(columns) != 0 {
        pre.after_move_left(post)
    } else {
        post == pre
    }
}

/// `post` is `pre` after a move right within the row: no move from the last
/// column.
pub open spec fn moves_right_in_row(pre: App, post: App, columns: usize) -> bool {
    if card_index(pre) % at_least_one(columns) != at_least_one(columns) - 1 {
        pre.after_move_right(post)
    } else {
        post == pre
    }
}

/// `Esc` outside a search: zoom out where zoomed, else quit.
pub open spec fn escapes(pre: App, post: App) -> bool {
    if pre.zoomed() {
        pre.after_toggle_zoom(post)
    } else {
        quits(pre, post)
    }
}

/// What a key does in the default mode.
pub open spec fn default_key_effect(pre: App, post: App, key: KeyEvent, columns: usize) -> bool {
    match key.code {
        KeyCode::Esc => escapes(pre, post),
        KeyCode::Enter => switches(pre, post),
        KeyCode::Left => moves_left_in_row(pre, post, columns),
        KeyCode::Right => moves_right_in_row(pre, post, columns),
        KeyCode::Up => pre.after_move_up(post, columns),
        KeyCode::Down => pre.after_move_down(post, columns),
        KeyCode::Char(ch) => if typeable(key) && !pre.zoomed() {
            types_char(pre, post, ch)
        } else {
            post == pre
        },
        _ => post == pre,
    }
}

/// What a key does in vim's normal mode.
pub open spec fn vim_key_effect(pre: App, post: App, key: KeyEvent, columns: usize) -> bool {
    let plain = key.modifiers.bits == 0;
    if key.code == KeyCode::Char('q') && plain {
        quits(pre, post)
    } else if key.code == KeyCode::Esc {
        escapes(pre, post)
    } else if key.code == KeyCode::Enter {
        switches(pre, post)
    } else if key.code == KeyCode::Char('/') && plain && !pre.zoomed() {
        pre.after_start_search(post)
    } else if key.code == KeyCode::Left || (key.code == KeyCode::Char('h') && plain) {
        moves_left_in_row(pre, post, columns)
    } else if key.code == KeyCode::Right || (key.code == KeyCode::Char('l') && plain) {
        moves_right_in_row(pre, post, columns)
    } else if key.code == KeyCode::Up || (key.code == KeyCode::Char('k') && plain) {
        pre.after_move_up(post, columns)
    } else if key.code == KeyCode::Down || (key.code == KeyCode::Char('j') && plain) {
        pre.after_move_down(post, columns)
    } else {
        post == pre
    }
}

/// What a key does while a search is open.
pub open spec fn search_key_effect(pre: App, post: App, key: KeyEvent, columns: usize) -> bool {
    match key.code {
        KeyCode::Esc => if pre.vim_keys {
            pre.after_clear_search(post)
        } else if pre.query() == Some(Seq::<char>::empty()) {
            quits(pre, post)
        } else {
            pre.after_clear_search(post)
        },
        KeyCode::Enter => switches(pre, post),
        KeyCode::Backspace => pre.after_pop_search_char(post),
        KeyCode::Left => moves_left_in_row(pre, post, columns),
        KeyCode::Right => moves_right_in_row(pre, post, columns),
        KeyCode::Up => pre.after_move_up(post, columns),
        KeyCode::Down => pre.after_move_down(post, columns),
        KeyCode::Char(ch) => if typeable(key) {
            types_char(pre, post, ch)
        } else {
            post == pre
        },
        _ => post == pre,
    }
}

/// What a key does, given the configured toggle and zoom keys: `Ctrl-C` quits;
/// the toggle key quits, except that while searching a typeable toggle key
/// types; the zoom key zooms in or out, except that in a vim search a
/// typeable zoom key types; any other key goes to the search, vim or default
/// mode.
pub open spec fn key_effect(
    pre: App,
    post: App,
    key: KeyEvent,
    columns: usize,
    toggle_key: Option<ToggleKey>,
    zoom_key: Option<ToggleKey>,
) -> bool {
    let searching = pre.query() is Some;
    if is_ctrl_c(key.code, key.modifiers.bits) {
        quits(pre, post)
    } else if toggle_key matches Some(t) && t.matches_key(key) && !(searching && typeable(key)) {
        quits(pre, post)
    } else if zoom_key matches Some(z) && z.matches_key(key) && !(pre.vim_keys && searching
        && typeable(key)) {
        pre.after_toggle_zoom(post)
    } else if searching {
        search_key_effect(pre, post, key, columns)
    } else if pre.vim_keys {
        vim_key_effect(pre, post, key, columns)
    } else {
        default_key_effect(pre, post, key, columns)
    }
}

/// The default zoom key, `z`.
pub open spec fn default_zoom_key(k: ToggleKey) -> bool {
    k.is_key(KeyCode::Char('z'), 0)
}

/// Handles a key with no toggle key and the default zoom key `z`.
pub fn handle_key(app: &mut App, key: KeyEvent, columns: usize)
    ensures
        exists|z: ToggleKey|
            default_zoom_key(z) && key_effect(*old(app), *final(app), key, columns, None, Some(z)),
{
    let zoom_key = ToggleKey::from_tmux_key("z");
    proof {
        reveal_strlit("z");
        reveal_strlit("Esc");
        assert("z"@.skip(0) =~= "z"@);
        assert("z"@ != "Esc"@);
    }
    let ghost pre = *app;
    handle_key_with_toggle(app, key, columns, None, zoom_key);
    proof {
        let z = zoom_key.unwrap();
        assert(default_zoom_key(z) && key_effect(pre, *app, key, columns, None, Some(z)));
    }
}

/// Handles a key: `Ctrl-C` quits; the toggle key quits, except that while
/// searching a typeable toggle key types; the zoom key zooms in or out, except
/// that in a vim search a typeable zoom key types; any other key goes to the
/// search, vim or default mode.
pub fn handle_key_with_toggle(
    app: &mut App,
    key: KeyEvent,
    columns: usize,
    toggle_key: Option<ToggleKey>,
    zoom_key: Option<ToggleKey>,
)
    ensures
        key_effect(*old(app), *final(app), key, columns, toggle_key, zoom_key),
{
    if key.code == KeyCode::Char('c') && key.modifiers.bits == 2 {
        app.should_quit = true;
        return;
    }
    let toggle_match = match toggle_key {
        Some(t) => t.matches(key),
        None => false,
    };
    if toggle_match {
        let typeable_during_search = app.is_searching() && is_typeable_filter_key(key);
        if !typeable_during_search {
            app.should_quit = true;
            return;
        }
    }
    let is_zoom_match = match zoom_key {
        Some(z) => z.matches(key),
        None => false,
    };
    if is_zoom_match {
        let typeable_during_vim_search = app.vim_keys && app.is_searching() && is_typeable_filter_key(
            key,
        );
        if !typeable_during_vim_search {
            app.toggle_zoom();
            return;
        }
    }
    if app.is_searching() {
        handle_search_key(app, key, columns);
        return;
    }
    if app.vim_keys {
        handle_vim_normal_key(app, key, columns);
        return;
    }
    handle_default_key(app, key, columns);
}

/// Default mode: typing (when not zoomed) fuzzy-filters the list; arrows move;
/// `Esc` zooms out or quits; `Enter` switches.
fn handle_default_key(app: &mut App, key: KeyEvent, columns: usize)
    ensures
        default_key_effect(*old(app), *final(app), key, columns),
{
    match key.code {
        KeyCode::Esc => {
            if app.is_zoomed() {
                app.toggle_zoom();
            } else {
                app.should_quit = true;
            }
        },
        KeyCode::Enter => app.should_switch = true,
        KeyCode::Left => move_left(app, columns),
        KeyCode::Right => move_right(app, columns),
        KeyCode::Up => app.move_up(columns),
        KeyCode::Down => app.move_down(columns),
        KeyCode::Char(ch) => {
            if (key.modifiers.bits == 0 || key.modifiers.bits == 1) && !app.is_zoomed() {
                push_filter_char(app, ch);
            }
        },
        _ => {},
    }
}

/// Vim normal mode: hjkl (and arrows) move the selection, `/` enters search,
/// `q` quits.
fn handle_vim_normal_key(app: &mut App, key: KeyEvent, columns: usize)
    ensures
        vim_key_effect(*old(app), *final(app), key, columns),
{
    let plain = key.modifiers.bits == 0;
    if key.code == KeyCode::Char('q') && plain {
        app.should_quit = true;
    } else if key.code == KeyCode::Esc {
        if app.is_zoomed() {
            app.toggle_zoom();
        } else {
            app.should_quit = true;
        }
    } else if key.code == KeyCode::Enter {
        app.should_switch = true;
    } else if key.code == KeyCode::Char('/') && plain && !app.is_zoomed() {
        app.start_search();
    } else if key.code == KeyCode::Left || (key.code == KeyCode::Char('h') && plain) {
        move_left(app, columns);
    } else if key.code == KeyCode::Right || (key.code == KeyCode::Char('l') && plain) {
        move_right(app, columns);
    } else if key.code == KeyCode::Up || (key.code == KeyCode::Char('k') && plain) {
        app.move_up(columns);
    } else if key.code == KeyCode::Down || (key.code == KeyCode::Char('j') && plain) {
        app.move_down(columns);
    }
}

/// Keys the search filter accepts as text input: a character with no
/// modifier or with Shift, so both lower- and uppercase configured toggle keys
/// count as typeable.
fn is_typeable_filter_key(key: KeyEvent) -> (r: bool)
    ensures
        r == typeable(key),
{
    match key.code {
        KeyCode::Char(_) => key.modifiers.bits == 0 || key.modifiers.bits == 1,
        _ => false,
    }
}

/// Search mode: typing filters, `Backspace` edits, arrows move, `Enter`
/// switches; `Esc` returns to vim's normal mode, or quits on an empty query,
/// or clears the query.
fn handle_search_key(app: &mut App, key: KeyEvent, columns: usize)
    ensures
        search_key_effect(*old(app), *final(app), key, columns),
{
    match key.code {
        KeyCode::Esc => {
            if app.vim_keys {
                app.clear_search();
            } else {
                let empty = match app.search_text() {
                    Some(t) => {
                        let e = t.unicode_len() == 0;
                        assert(e ==> t@ =~= Seq::<char>::empty());
                        e
                    },
                    None => false,
                };
                if empty {
                    app.should_quit = true;
                } else {
                    app.clear_search();
                }
            }
        },
        KeyCode::Enter => app.should_switch = true,
        KeyCode::Backspace => app.pop_search_char(),
        KeyCode::Left => move_left(app, columns),
        KeyCode::Right => move_right(app, columns),
        KeyCode::Up => app.move_up(columns),
        KeyCode::Down => app.move_down(columns),
        KeyCode::Char(ch) => {
            if key.modifiers.bits == 0 || key.modifiers.bits == 1 {
                push_filter_char(app, ch);
            }
        },
        _ => {},
    }
}

/// Types `ch` into the search filter, opening the search where none is open.
fn push_filter_char(app: &mut App, ch: char)
    ensures
        types_char(*old(app), *final(app), ch),
{
    if !app.is_searching() {
        app.start_search();
    }
    app.push_search_char(ch);
}

/// Moves the selection one card left unless it is in the first column.
fn move_left(app: &mut App, columns: usize)
    ensures
        moves_left_in_row(*old(app), *final(app), columns),
{
    let columns = if columns == 0 {
        1
    } else {
        columns
    };
    let selected_index = if app.is_zoomed() {
        app.selected_window_index
    } else {
        app.selected_index
    };
    if selected_index % columns != 0 {
        app.move_left();
    }
}

/// Moves the selection one card right unless it is in the last column.
fn move_right(app: &mut App, columns: usize)
    ensures
        moves_right_in_row(*old(app), *final(app), columns),
{
    let columns = if columns == 0 {
        1
    } else {
        columns
    };
    let selected_index = if app.is_zoomed() {
        app.selected_window_index
    } else {
        app.selected_index
    };
    if selected_index % columns != columns - 1 {
        app.move_right();
    }
}

/// A mouse button.
#[derive(Clone, Copy, Debug, PartialEq, Eq, Structural)]
pub enum MouseButton {
    Left,
    Right,
    Middle,
}

/// What the mouse did.
#[derive(Clone, Copy, Debug, PartialEq, Eq, Structural)]
pub enum MouseEventKind {
    Down(MouseButton),
    Up(MouseButton),
    Drag(MouseButton),
    Moved,
    ScrollDown,
    ScrollUp,
    ScrollLeft,
    ScrollRight,
}

/// A mouse event at a terminal cell.
#[derive(Clone, Copy, Debug, PartialEq, Eq, Structural)]
pub struct MouseEvent {
    pub kind: MouseEventKind,
    pub column: u16,
    pub row: u16,
    pub modifiers: KeyModifiers,
}

/// Whether the cell `(x, y)` lies in `area`.
pub open spec fn in_rect(area: Rect, x: u16, y: u16) -> bool {
    &&& x >= area.x
    &&& x < crate::ui::sat16(area.x + area.width)
    &&& y >= area.y
    &&& y < crate::ui::sat16(area.y + area.height)
}

/// The card holds the cell `(x, y)`.
pub open spec fn holds_point(x: u16, y: u16) -> spec_fn(Rect) -> bool {
    |r: Rect| in_rect(r, x, y)
}

/// Whether the cell `(x, y)` lies in `area`.
fn contains(area: Rect, x: u16, y: u16) -> (r: bool)
    ensures
        r == in_rect(area, x, y),
{
    let right: u32 = if area.x as u32 + area.width as u32 > 65535 {
        65535
    } else {
        area.x as u32 + area.width as u32
    };
    let bottom: u32 = if area.y as u32 + area.height as u32 > 65535 {
        65535
    } else {
        area.y as u32 + area.height as u32
    };
    x >= area.x && (x as u32) < right && y >= area.y && (y as u32) < bottom
}

/// What a mouse event does: a left click on a card of the grid in
/// `grid_area` selects that card and asks to switch to it; anything else does
/// nothing.
pub open spec fn mouse_effect(
    pre: App,
    post: App,
    mouse: MouseEvent,
    grid_area: Rect,
    min_card_width: Option<u16>,
    forced_columns: Option<usize>,
) -> bool {
    let cards = grid_cards(grid_area, card_count(pre), min_card_width, forced_columns);
    if mouse.kind == MouseEventKind::Down(MouseButton::Left) {
        match first_index(cards, holds_point(mouse.column, mouse.row)) {
            Some(i) => if pre.zoomed() {
                post == App { selected_window_index: i as usize, should_switch: true, ..pre }
            } else {
                post == App { selected_index: i as usize, should_switch: true, ..pre }
            },
            None => post == pre,
        }
    } else {
        post == pre
    }
}

/// Handles a mouse event: a left click on a card selects it and asks to
/// switch to it.
pub fn handle_mouse(
    app: &mut App,
    mouse: MouseEvent,
    grid_area: Rect,
    min_card_width: Option<u16>,
    forced_columns: Option<usize>,
)
    requires
        grid_fits(grid_area, card_count(*old(app)), min_card_width, forced_columns),
    ensures
        mouse_effect(*old(app), *final(app), mouse, grid_area, min_card_width, forced_columns),
{
    if mouse.kind != MouseEventKind::Down(MouseButton::Left) {
        return;
    }
    let count = if app.is_zoomed() {
        app.visible_window_count()
    } else {
        app.visible_session_count()
    };
    let grid = calculate_grid(grid_area, count, min_card_width, forced_columns);
    let ghost cards = grid_cards(grid_area, count as int, min_card_width, forced_columns);
    assert(grid.cards@ =~= cards);
    let found = position_of_point(&grid.cards, mouse.column, mouse.row);
    match found {
        Some(i) => {
            if app.is_zoomed() {
                app.selected_window_index = i;
            } else {
                app.selected_index = i;
            }
            app.should_switch = true;
        },
        None => {},
    }
}

/// The index of the first card holding the cell `(x, y)`.
fn position_of_point(cards: &Vec<Rect>, x: u16, y: u16) -> (r: Option<usize>)
    ensures
        opt_int(r) == first_index(cards@, holds_point(x, y)),
{
    let mut i: usize = 0;
    while i < cards.len()
        invariant
            i <= cards@.len(),
            forall|j: int| 0 <= j < i ==> !holds_point(x, y)(#[trigger] cards@[j]),
        decreases cards@.len() - i,
    {
        if contains(cards[i], x, y) {
            proof {
                lemma_first_index_is(cards@, holds_point(x, y), i as int);
            }
            return Some(i);
        }
        i += 1;
    }
    proof {
        crate::model::lemma_first_index_none(cards@, holds_point(x, y));
    }
    None
}

} // verus!
