//! Properties of the picker that relate several operations: what a key always
//! does, what zooming in and out gives back, what a search edit undoes, what
//! moving keeps, and what a refresh of the listings keeps.
use vstd::prelude::*;

use crate::input::{
    KeyCode, KeyEvent, MouseButton, MouseEvent, MouseEventKind, ToggleKey, at_least_one, holds_point, is_ctrl_c,
    key_effect, mouse_effect, tmux_key, zoom_key_choice,
};
use crate::model::{
    App, Session, SessionView, Window, card_count, card_index, carry_previews, first_index, fuzzy_match, id_is,
    id_of, is_first, lemma_first_index_exists, lemma_first_index_is, lemma_first_index_same, name_is, name_of,
    opt_view, view_id_is, visible_of, zoom_target_of,
};
use crate::screen::{decimal, digit_char};
use crate::text::{digits_value, is_digit, lines, lowercase, splitn, trim, trim_end, unsigned_digits};
use crate::tmux::{drop_trailing_blank, preview_lines, separator_of, session_line, window_line};
use crate::style::{BOLD, ITALIC, Style, TermColor, UNDERLINED, adding, plain, removing, with_bg, with_fg};
use crate::ui::{CARD_GAP, Rect, card_len, card_offset, gaps, grid_cards, palette, set_color, sgr_apply, usable};

verus! {

/// `Ctrl-C` quits, whatever the mode, the search and the configured keys, and
/// changes nothing else.
pub proof fn law_ctrl_c_quits(
    pre: App,
    post: App,
    key: KeyEvent,
    columns: usize,
    toggle_key: Option<ToggleKey>,
    zoom_key: Option<ToggleKey>,
)
    requires
        is_ctrl_c(key.code, key.modifiers.bits),
        key_effect(pre, post, key, columns, toggle_key, zoom_key),
    ensures
        post == (App { should_quit: true, ..pre }),
{
}

/// The zoom key chosen from a configured name is never `Ctrl-C`, `Esc` or the
/// toggle key, so it never hides what those keys do.
pub proof fn law_zoom_key_is_free(raw: Option<Seq<char>>, toggle_key: Option<ToggleKey>, vim_keys: bool)
    ensures
        zoom_key_choice(raw, toggle_key, vim_keys) matches Some((code, mods, label)) ==> {
            &&& !is_ctrl_c(code, mods)
            &&& code != KeyCode::Esc
            &&& !(toggle_key matches Some(t) && t.is_key(code, mods))
        },
{
}

/// `Esc` in the window grid, with no search open and neither configured key
/// bound to it, returns to the session grid and does not quit.
pub proof fn law_esc_leaves_window_grid(
    pre: App,
    post: App,
    key: KeyEvent,
    columns: usize,
    toggle_key: Option<ToggleKey>,
    zoom_key: Option<ToggleKey>,
)
    requires
        pre.zoomed(),
        pre.query() is None,
        key.code == KeyCode::Esc,
        !(toggle_key matches Some(t) && t.matches_key(key)),
        !(zoom_key matches Some(z) && z.matches_key(key)),
        key_effect(pre, post, key, columns, toggle_key, zoom_key),
    ensures
        !post.zoomed(),
        post.should_quit == pre.should_quit,
        post.sessions@ == pre.sessions@,
{
}

/// Whether no two sessions share an id (as tmux guarantees).
pub open spec fn unique_ids(sessions: Seq<Session>) -> bool {
    forall|i: int, j: int|
        0 <= i < sessions.len() && 0 <= j < sessions.len() && i != j ==> #[trigger] sessions[i].id@
            != #[trigger] sessions[j].id@
}

/// Zooming into the selected session and straight out again returns to the
/// session grid with that session selected (by name), the search closed.
pub proof fn law_zoom_round_trip(a: App, b: App, c: App)
    requires
        unique_ids(a.sessions@),
        !a.zoomed(),
        a.selection() is Some,
        a.after_toggle_zoom(b),
        b.after_toggle_zoom(c),
    ensures
        !c.zoomed(),
        c.query() is None,
        c.sessions@ == a.sessions@,
        c.selection() is Some,
        name_of(c.selection()) == name_of(a.selection()),
        c.should_quit == a.should_quit,
        c.should_switch == a.should_switch,
{
    let s = a.selection().unwrap();
    let sessions = a.sessions@;
    assert(a.visible().contains(s)) by {
        assert(a.visible()[a.selected_index as int] == s);
    }
    match a.query() {
        Some(q) => {
            sessions.lemma_filter_contains_rev(|x: Session| fuzzy_match(x.name@, q), s);
        },
        None => {},
    }
    assert(sessions.contains(s));
    let i = choose|i: int| 0 <= i < sessions.len() && sessions[i] == s;
    assert(b.zoomed());
    assert(opt_view(b.zoomed_session) == Some(s.id@));
    assert(is_first(sessions, id_is(s.id@), i)) by {
        assert forall|j: int| 0 <= j < i implies !id_is(s.id@)(#[trigger] sessions[j]) by {
            assert(sessions[j].id@ != sessions[i].id@);
        }
    }
    lemma_first_index_is(sessions, id_is(s.id@), i);
    assert(b.zoom_target() == Some(s));
    assert(b.visible() == sessions);
    assert(name_is(s.name@)(sessions[i]));
    lemma_first_index_exists(sessions, name_is(s.name@), i);
    let m = first_index(sessions, name_is(s.name@)).unwrap();
    assert(is_first(sessions, name_is(s.name@), m)) by {
        assert(exists|x: int| is_first(sessions, name_is(s.name@), x));
    }
    assert(c.selected_index == m);
    assert(c.visible() == sessions);
}

/// Typing a character into an open search and deleting it again gives back
/// the query there was.
pub proof fn law_search_edit_undone(a: App, b: App, c: App, ch: char)
    requires
        a.query() is Some,
        a.after_push_search_char(b, ch),
        b.after_pop_search_char(c),
    ensures
        c.query() == a.query(),
        c.sessions@ == a.sessions@,
        c.selected_index == 0,
{
    let q = a.query().unwrap();
    assert(q.push(ch).drop_last() =~= q);
}

/// A query with no characters once lowercased (such as the empty query of a
/// search just opened) leaves every session visible.
pub proof fn law_blank_query_shows_all(sessions: Seq<Session>, q: Seq<char>)
    requires
        lowercase(q).len() == 0,
    ensures
        visible_of(sessions, Some(q)) == sessions,
{
    let pred = |x: Session| fuzzy_match(x.name@, q);
    assert forall|x: Session| #[trigger] pred(x) by {
        let f = |k: int| k;
        assert(crate::model::embeds(f, lowercase(q), lowercase(x.name@)));
    }
    lemma_filter_all(sessions, pred);
}

proof fn lemma_filter_all(s: Seq<Session>, pred: spec_fn(Session) -> bool)
    requires
        forall|x: Session| #[trigger] pred(x),
    ensures
        s.filter(pred) == s,
    decreases s.len(),
{
    reveal(Seq::filter);
    if s.len() > 0 {
        lemma_filter_all(s.drop_last(), pred);
        assert(s.drop_last().push(s.last()) =~= s);
    }
}

/// The selection is on a card of the grid the picker shows.
pub open spec fn selection_on_card(app: App) -> bool {
    0 <= card_index(app) < card_count(app)
}

/// Moving the selection in any direction keeps it on a card.
pub proof fn law_moves_keep_selection_on_card(pre: App, post: App, columns: usize)
    requires
        selection_on_card(pre),
        pre.after_move_left(post) || pre.after_move_right(post) || pre.after_move_up(post, columns)
            || pre.after_move_down(post, columns),
    ensures
        selection_on_card(post),
        card_count(post) == card_count(pre),
{
    assert(post.visible() == pre.visible());
    assert(post.zoomed() == pre.zoomed());
    let c: int = if columns == 0 { 1 } else { columns as int };
    if pre.after_move_down(post, columns) {
        let count = card_count(pre);
        let cur = card_index(pre);
        if count > 0 && cur / c < (count - 1) / c {
            assert(card_index(post) == crate::model::min_nat(cur + c, count - 1));
        }
    }
}

/// A refresh of the session list keeps the picker zoomed into its session,
/// with its windows and window selection, while that session is still listed
/// (by id, or else by name) and the search leaves some session visible.
pub proof fn law_refresh_keeps_zoom(a: App, b: App, sessions: Seq<Session>)
    requires
        a.zoomed(),
        zoom_target_of(sessions, opt_view(a.zoomed_session)) is Some,
        visible_of(sessions, a.query()).len() > 0,
        a.after_replace(b, sessions),
    ensures
        b.zoomed_session == a.zoomed_session,
        b.windows@ == a.windows@,
        b.selected_window_index == a.selected_window_index,
{
}

/// A refresh of the session list in the session grid keeps the selected
/// session selected (by name) while a session of that name is still visible.
pub proof fn law_refresh_keeps_selection(a: App, b: App, sessions: Seq<Session>, i: int)
    requires
        !a.zoomed(),
        a.selection() is Some,
        0 <= i < visible_of(sessions, a.query()).len(),
        visible_of(sessions, a.query())[i].name@ == a.selection().unwrap().name@,
        a.after_replace(b, sessions),
    ensures
        b.selection() is Some,
        name_of(b.selection()) == name_of(a.selection()),
{
    let visible = visible_of(sessions, a.query());
    let n = a.selection().unwrap().name@;
    lemma_first_index_exists(visible, name_is(n), i);
    let m = first_index(visible, name_is(n)).unwrap();
    assert(is_first(visible, name_is(n), m)) by {
        assert(exists|x: int| is_first(visible, name_is(n), x));
    }
    assert(b.visible() == visible);
}

/// Whether no two listed sessions share an id.
pub open spec fn unique_view_ids(sessions: Seq<SessionView>) -> bool {
    forall|i: int, j: int|
        0 <= i < sessions.len() && 0 <= j < sessions.len() && i != j ==> #[trigger] sessions[i].id
            != #[trigger] sessions[j].id
}

/// `result` is the refreshed session `new` with what it takes over from the
/// first old session of its id: the preview, the preview error, and the
/// current window where it has none; `new` itself where no old session has
/// its id.
pub open spec fn takes_over_preview(olds: Seq<SessionView>, new: SessionView, result: SessionView) -> bool {
    match first_index(olds, view_id_is(new.id)) {
        Some(j) => result == SessionView {
            preview: olds[j].preview,
            preview_error: olds[j].preview_error,
            current_window: if new.current_window is None {
                olds[j].current_window
            } else {
                new.current_window
            },
            ..new
        },
        None => result == new,
    }
}

/// A refresh without previews keeps the preview each session had: where the
/// refreshed sessions have distinct ids, each takes over the preview, the
/// preview error and (where it has none) the current window of the old
/// session with its id, and is otherwise as listed.
pub proof fn law_refresh_keeps_previews(olds: Seq<SessionView>, news: Seq<SessionView>)
    requires
        unique_view_ids(news),
    ensures
        carry_previews(olds, news).len() == news.len(),
        forall|i: int|
            0 <= i < news.len() ==> takes_over_preview(olds, news[i], #[trigger] carry_previews(olds, news)[i]),
    decreases news.len(),
{
    if news.len() > 0 {
        let s = news[0];
        let rest = news.drop_first();
        assert(unique_view_ids(rest)) by {
            assert forall|i: int, j: int|
                0 <= i < rest.len() && 0 <= j < rest.len() && i != j implies #[trigger] rest[i].id
                != #[trigger] rest[j].id by {
                assert(rest[i] == news[i + 1] && rest[j] == news[j + 1]);
            }
        }
        match first_index(olds, view_id_is(s.id)) {
            None => {
                law_refresh_keeps_previews(olds, rest);
                let r = carry_previews(olds, news);
                assert forall|i: int| 0 <= i < news.len() implies takes_over_preview(
                    olds,
                    news[i],
                    #[trigger] carry_previews(olds, news)[i],
                ) by {
                    if i > 0 {
                        assert(r[i] == carry_previews(olds, rest)[i - 1]);
                        assert(news[i] == rest[i - 1]);
                    }
                }
            },
            Some(j) => {
                assert(is_first(olds, view_id_is(s.id), j)) by {
                    assert(exists|x: int| is_first(olds, view_id_is(s.id), x));
                }
                let p = olds[j];
                let p2 = SessionView {
                    preview: Seq::empty(),
                    preview_error: None,
                    current_window: if s.current_window is None {
                        None
                    } else {
                        p.current_window
                    },
                    ..p
                };
                let olds2 = olds.update(j, p2);
                law_refresh_keeps_previews(olds2, rest);
                let r = carry_previews(olds, news);
                assert(r == seq![r[0]] + carry_previews(olds2, rest));
                assert forall|i: int| 0 <= i < news.len() implies takes_over_preview(
                    olds,
                    news[i],
                    #[trigger] carry_previews(olds, news)[i],
                ) by {
                    if i > 0 {
                        let x = news[i];
                        assert(x == rest[i - 1]);
                        assert(r[i] == carry_previews(olds2, rest)[i - 1]);
                        assert(x.id != s.id);
                        assert forall|k: int| 0 <= k < olds.len() implies view_id_is(x.id)(
                            #[trigger] olds[k],
                        ) == view_id_is(x.id)(olds2[k]) by {
                            if k == j {
                                assert(olds2[k].id == olds[k].id);
                            }
                        }
                        lemma_first_index_same(olds, view_id_is(x.id), olds2, view_id_is(x.id));
                        match first_index(olds, view_id_is(x.id)) {
                            Some(k) => {
                                assert(is_first(olds, view_id_is(x.id), k)) by {
                                    assert(exists|y: int| is_first(olds, view_id_is(x.id), y));
                                }
                                assert(k != j);
                                assert(olds2[k] == olds[k]);
                            },
                            None => {},
                        }
                    }
                }
            },
        }
    }
}

/// Every session matches a search for its own name.
pub proof fn law_name_matches_itself(name: Seq<char>)
    ensures
        fuzzy_match(name, name),
{
    let f = |k: int| k;
    assert(crate::model::embeds(f, lowercase(name), lowercase(name)));
}

proof fn lemma_no_trailing_blank(s: Seq<Seq<char>>)
    ensures
        drop_trailing_blank(s).len() > 0 ==> drop_trailing_blank(s).last().len() > 0,
    decreases s.len(),
{
    if s.len() > 0 && s.last().len() == 0 {
        lemma_no_trailing_blank(s.drop_last());
    }
}

/// A card's preview holds at most the requested number of lines and never
/// ends in a blank line.
pub proof fn law_preview_is_bounded(output: Seq<char>, max_lines: nat)
    ensures
        preview_lines(output, max_lines).len() <= max_lines,
        preview_lines(output, max_lines).len() > 0 ==> preview_lines(output, max_lines).last().len() > 0,
{
    let kept = drop_trailing_blank(lines(output).map_values(|l: Seq<char>| trim_end(l)));
    lemma_no_trailing_blank(lines(output).map_values(|l: Seq<char>| trim_end(l)));
    let p = preview_lines(output, max_lines);
    if p.len() > 0 {
        assert(p.last() == kept.last());
    }
}

/// Along an axis of the card grid, cards follow each other with the card gap
/// between them, the first at the start; where the axis leaves room for the
/// gaps and a cell per card, the last card ends exactly at the axis's end.
pub proof fn law_cards_tile_axis(len: int, n: int)
    requires
        0 <= len <= u16::MAX,
        1 <= n,
        CARD_GAP * (n - 1) <= u16::MAX,
    ensures
        card_offset(len, n, 0) == 0,
        forall|i: int|
            0 <= i < n - 1 ==> #[trigger] card_offset(len, n, i + 1) == card_offset(len, n, i) + card_len(
                len,
                n,
                i,
            ) + CARD_GAP,
        forall|i: int| 0 <= i < n ==> #[trigger] card_len(len, n, i) >= 1,
        len >= gaps(n) + n ==> card_offset(len, n, n - 1) + card_len(len, n, n - 1) == len,
{
    let u = usable(len, n);
    let q = u / n;
    let r = u % n;
    assert(u == n * q + r && 0 <= r < n) by (nonlinear_arith)
        requires
            n >= 1,
            u >= 0,
            q == u / n,
            r == u % n,
    ;
    assert(q >= 1) by (nonlinear_arith)
        requires
            u >= n,
            n >= 1,
            q == u / n,
    ;
    assert(card_offset(len, n, 0) == 0) by {
        assert(0 * q == 0) by (nonlinear_arith);
    }
    assert forall|i: int| 0 <= i < n - 1 implies #[trigger] card_offset(len, n, i + 1) == card_offset(len, n, i)
        + card_len(len, n, i) + CARD_GAP by {
        assert((i + 1) * q == i * q + q) by (nonlinear_arith);
    }
    assert(card_offset(len, n, n - 1) + card_len(len, n, n - 1) == u + gaps(n)) by {
        assert((n - 1) * q + q == n * q) by (nonlinear_arith);
    }
}

/// No key changes the listed sessions, the error shown, or the picker's
/// configuration, and none withdraws a quit or a switch already asked for.
pub proof fn law_keys_keep_sessions(
    pre: App,
    post: App,
    key: KeyEvent,
    columns: usize,
    toggle_key: Option<ToggleKey>,
    zoom_key: Option<ToggleKey>,
)
    requires
        key_effect(pre, post, key, columns, toggle_key, zoom_key),
    ensures
        post.sessions@ == pre.sessions@,
        post.current_session_name == pre.current_session_name,
        post.vim_keys == pre.vim_keys,
        post.zoom_key == pre.zoom_key,
        pre.should_quit ==> post.should_quit,
        pre.should_switch ==> post.should_switch,
{
}

/// A click changes at most the selection and asks at most for a switch.
pub proof fn law_clicks_only_select(
    pre: App,
    post: App,
    mouse: MouseEvent,
    grid_area: Rect,
    min_card_width: Option<u16>,
    forced_columns: Option<usize>,
)
    requires
        mouse_effect(pre, post, mouse, grid_area, min_card_width, forced_columns),
    ensures
        post == (App {
            selected_index: post.selected_index,
            selected_window_index: post.selected_window_index,
            should_switch: post.should_switch,
            ..pre
        }),
        pre.should_switch ==> post.should_switch,
{
}

/// One step of work in the window grid: a fresh window listing, or a move of
/// the selection.
pub open spec fn window_grid_step(a: App, b: App) -> bool {
    ||| exists|w: Seq<Window>| #[trigger] a.after_set_windows(b, w)
    ||| a.after_move_left(b)
    ||| a.after_move_right(b)
    ||| exists|c: usize| #[trigger] a.after_move_up(b, c)
    ||| exists|c: usize| #[trigger] a.after_move_down(b, c)
}

/// Whether `s` is the only listed session with its name.
pub open spec fn only_one_named(sessions: Seq<Session>, s: Session) -> bool {
    forall|k: int| 0 <= k < sessions.len() && (#[trigger] sessions[k]).name@ == s.name@ ==> sessions[k] == s
}

proof fn lemma_window_work_keeps(trace: Seq<App>, k: int)
    requires
        0 <= k < trace.len(),
        forall|i: int| 0 <= i < trace.len() - 1 ==> #[trigger] window_grid_step(trace[i], trace[i + 1]),
    ensures
        trace[k].zoomed_session == trace[0].zoomed_session,
        trace[k].sessions@ == trace[0].sessions@,
        trace[k].search_query == trace[0].search_query,
        trace[0].keeps_config(trace[k]),
    decreases k,
{
    if k > 0 {
        lemma_window_work_keeps(trace, k - 1);
        let j = k - 1;
        assert(window_grid_step(trace[j], trace[j + 1]));
    }
}

/// Zooming into the selected session, loading its windows and moving among
/// them any number of times, then zooming out, returns to the session grid
/// with that session selected again (its id is the switch target), with no
/// window left and the search closed. Session ids are distinct (as tmux
/// guarantees) and no other session shares the selected one's name.
pub proof fn law_zoom_round_trip_after_window_work(a: App, trace: Seq<App>, c: App)
    requires
        unique_ids(a.sessions@),
        !a.zoomed(),
        a.query() is None,
        a.selection() is Some,
        only_one_named(a.sessions@, a.selection().unwrap()),
        trace.len() >= 1,
        a.after_toggle_zoom(trace[0]),
        forall|i: int| 0 <= i < trace.len() - 1 ==> #[trigger] window_grid_step(trace[i], trace[i + 1]),
        trace.last().after_toggle_zoom(c),
    ensures
        !c.zoomed(),
        c.windows@.len() == 0,
        c.selected_window_index == 0,
        c.sessions@ == a.sessions@,
        c.query() is None,
        c.selection() == a.selection(),
        id_of(c.selection()) == id_of(a.selection()),
{
    let s = a.selection().unwrap();
    let sessions = a.sessions@;
    let b = trace[0];
    let l = trace.last();
    let i = a.selected_index as int;
    assert(a.visible() == sessions);
    assert(sessions[i] == s);
    assert(is_first(sessions, id_is(s.id@), i)) by {
        assert forall|j: int| 0 <= j < i implies !id_is(s.id@)(#[trigger] sessions[j]) by {
            assert(sessions[j].id@ != sessions[i].id@);
        }
    }
    lemma_first_index_is(sessions, id_is(s.id@), i);
    assert(b.zoom_target() == Some(s));
    lemma_window_work_keeps(trace, trace.len() - 1);
    assert(l.zoomed_session == b.zoomed_session);
    assert(l.sessions@ == sessions);
    assert(l.zoom_target() == Some(s));
    assert(l.zoomed());
    assert(l.visible() == sessions);
    assert(is_first(sessions, name_is(s.name@), i)) by {
        assert forall|j: int| 0 <= j < i implies !name_is(s.name@)(#[trigger] sessions[j]) by {
            if sessions[j].name@ == s.name@ {
                assert(sessions[j] == s);
                assert(sessions[j].id@ != sessions[i].id@);
            }
        }
    }
    lemma_first_index_is(sessions, name_is(s.name@), i);
    assert(c.selected_index == i);
    assert(c.visible() == sessions);
}

/// The Right arrow never wraps onto the next row: on the last column of the
/// grid (`columns` wide, at least one) it changes nothing; elsewhere it
/// selects the next card, as `App::move_right` does.
pub proof fn law_right_stays_in_row(
    pre: App,
    post: App,
    key: KeyEvent,
    columns: usize,
    toggle_key: Option<ToggleKey>,
    zoom_key: Option<ToggleKey>,
)
    requires
        key.code == KeyCode::Right,
        !(toggle_key matches Some(t) && t.matches_key(key)),
        !(zoom_key matches Some(z) && z.matches_key(key)),
        key_effect(pre, post, key, columns, toggle_key, zoom_key),
    ensures
        card_index(pre) % at_least_one(columns) == at_least_one(columns) - 1 ==> post == pre,
        card_index(pre) % at_least_one(columns) != at_least_one(columns) - 1 ==> pre.after_move_right(post),
{
}

/// The Left arrow never wraps onto the previous row: on the first column it
/// changes nothing; elsewhere it selects the previous card, as
/// `App::move_left` does.
pub proof fn law_left_stays_in_row(
    pre: App,
    post: App,
    key: KeyEvent,
    columns: usize,
    toggle_key: Option<ToggleKey>,
    zoom_key: Option<ToggleKey>,
)
    requires
        key.code == KeyCode::Left,
        !(toggle_key matches Some(t) && t.matches_key(key)),
        !(zoom_key matches Some(z) && z.matches_key(key)),
        key_effect(pre, post, key, columns, toggle_key, zoom_key),
    ensures
        card_index(pre) % at_least_one(columns) == 0 ==> post == pre,
        card_index(pre) % at_least_one(columns) != 0 ==> pre.after_move_left(post),
{
}

/// Enter asks to switch to the selection and changes nothing else, in every
/// mode and whether or not a search is open (unless a configured key is bound
/// to it).
pub proof fn law_enter_switches(
    pre: App,
    post: App,
    key: KeyEvent,
    columns: usize,
    toggle_key: Option<ToggleKey>,
    zoom_key: Option<ToggleKey>,
)
    requires
        key.code == KeyCode::Enter,
        !(toggle_key matches Some(t) && t.matches_key(key)),
        !(zoom_key matches Some(z) && z.matches_key(key)),
        key_effect(pre, post, key, columns, toggle_key, zoom_key),
    ensures
        post == (App { should_switch: true, ..pre }),
{
}

/// The eight colours of the standard ANSI palette, in the order of their SGR
/// numbers (30-37 for the foreground, 40-47 for the background).
pub open spec fn standard_colours() -> Seq<TermColor> {
    seq![
        TermColor::Black,
        TermColor::Red,
        TermColor::Green,
        TermColor::Yellow,
        TermColor::Blue,
        TermColor::Magenta,
        TermColor::Cyan,
        TermColor::Gray,
    ]
}

/// The eight bright colours, in the order of their SGR numbers (90-97 for the
/// foreground, 100-107 for the background).
pub open spec fn bright_colours() -> Seq<TermColor> {
    seq![
        TermColor::DarkGray,
        TermColor::LightRed,
        TermColor::LightGreen,
        TermColor::LightYellow,
        TermColor::LightBlue,
        TermColor::LightMagenta,
        TermColor::LightCyan,
        TermColor::White,
    ]
}

/// The palette `ansi_color` reads follows the standard ANSI order: colour
/// number `k` below 8 is the `k`-th standard (or bright) colour; any other
/// number is the terminal's default.
pub proof fn law_palette_is_ansi_order(k: u16)
    ensures
        k < 8 ==> palette(k, false) == standard_colours()[k as int],
        k < 8 ==> palette(k, true) == bright_colours()[k as int],
        k >= 8 ==> palette(k, false) == TermColor::Reset && palette(k, true) == TermColor::Reset,
{
}

/// Reading SGR parameters after a first one continues exactly as reading the
/// remaining parameters alone.
proof fn lemma_sgr_shift(params: Seq<int>, x: int, j: int, style: Style)
    requires
        j >= 0,
    ensures
        sgr_apply(seq![x] + params, j + 1, style) == sgr_apply(params, j, style),
    decreases params.len() + 5 - j,
{
    let q = seq![x] + params;
    let i = j + 1;
    if j < params.len() {
        assert(q[i] == params[j]);
        if j + 1 < params.len() {
            assert(q[i + 1] == params[j + 1]);
        }
        if j + 2 < params.len() {
            assert(q[i + 2] == params[j + 2]);
        }
        if j + 3 < params.len() {
            assert(q[i + 3] == params[j + 3]);
        }
        if j + 4 < params.len() {
            assert(q[i + 4] == params[j + 4]);
        }
        let p = params[j];
        if p == 38 || p == 48 {
            let is_fg = p == 38;
            if j + 1 < params.len() && params[j + 1] == 5 {
                let next = if j + 2 < params.len() && params[j + 2] <= 255 {
                    set_color(style, is_fg, TermColor::Indexed(params[j + 2] as u8))
                } else {
                    style
                };
                lemma_sgr_shift(params, x, j + 3, next);
            } else if j + 1 < params.len() && params[j + 1] == 2 {
                let next = if j + 5 <= params.len() && params[j + 2] <= 255 && params[j + 3] <= 255
                    && params[j + 4] <= 255 {
                    set_color(
                        style,
                        is_fg,
                        TermColor::Rgb(params[j + 2] as u8, params[j + 3] as u8, params[j + 4] as u8),
                    )
                } else {
                    style
                };
                lemma_sgr_shift(params, x, j + 5, next);
            } else {
                lemma_sgr_shift(params, x, j + 1, style);
            }
        } else {
            let next = if p == 0 {
                plain()
            } else if p == 1 {
                adding(style, BOLD)
            } else if p == 3 {
                adding(style, ITALIC)
            } else if p == 4 {
                adding(style, UNDERLINED)
            } else if p == 22 {
                removing(style, BOLD)
            } else if p == 23 {
                removing(style, ITALIC)
            } else if p == 24 {
                removing(style, UNDERLINED)
            } else if 30 <= p <= 37 {
                with_fg(style, palette((p - 30) as u16, false))
            } else if p == 39 {
                Style { fg: None, ..style }
            } else if 40 <= p <= 47 {
                with_bg(style, palette((p - 40) as u16, false))
            } else if p == 49 {
                Style { bg: None, ..style }
            } else if 90 <= p <= 97 {
                with_fg(style, palette((p - 90) as u16, true))
            } else if 100 <= p <= 107 {
                with_bg(style, palette((p - 100) as u16, true))
            } else {
                style
            };
            lemma_sgr_shift(params, x, j + 1, next);
        }
        assert(sgr_apply(q, i, style) == sgr_apply(params, j, style));
    }
}

/// SGR 39 clears the foreground and leaves the rest of the style, 49 clears
/// the background and leaves the rest; the parameters after them apply to the
/// result.
pub proof fn law_sgr_default_colours(rest: Seq<int>, style: Style)
    ensures
        sgr_apply(seq![39int] + rest, 0, style) == sgr_apply(rest, 0, Style { fg: None, ..style }),
        sgr_apply(seq![49int] + rest, 0, style) == sgr_apply(rest, 0, Style { bg: None, ..style }),
{
    assert((seq![39int] + rest)[0] == 39);
    assert((seq![49int] + rest)[0] == 49);
    lemma_sgr_shift(rest, 39, 0, Style { fg: None, ..style });
    lemma_sgr_shift(rest, 49, 0, Style { bg: None, ..style });
}

/// SGR 30+k and 40+k (k below 8) set the foreground and the background to the
/// `k`-th standard colour, 90+k and 100+k to the `k`-th bright colour, and
/// leave the rest of the style; the parameters after them apply to the result.
pub proof fn law_sgr_palette_colours(k: int, rest: Seq<int>, style: Style)
    requires
        0 <= k < 8,
    ensures
        sgr_apply(seq![30 + k] + rest, 0, style) == sgr_apply(
            rest,
            0,
            Style { fg: Some(standard_colours()[k]), ..style },
        ),
        sgr_apply(seq![40 + k] + rest, 0, style) == sgr_apply(
            rest,
            0,
            Style { bg: Some(standard_colours()[k]), ..style },
        ),
        sgr_apply(seq![90 + k] + rest, 0, style) == sgr_apply(
            rest,
            0,
            Style { fg: Some(bright_colours()[k]), ..style },
        ),
        sgr_apply(seq![100 + k] + rest, 0, style) == sgr_apply(
            rest,
            0,
            Style { bg: Some(bright_colours()[k]), ..style },
        ),
{
    assert((seq![30 + k] + rest)[0] == 30 + k);
    assert((seq![40 + k] + rest)[0] == 40 + k);
    assert((seq![90 + k] + rest)[0] == 90 + k);
    assert((seq![100 + k] + rest)[0] == 100 + k);
    law_palette_is_ansi_order(k as u16);
    lemma_sgr_shift(rest, 30 + k, 0, Style { fg: Some(standard_colours()[k]), ..style });
    lemma_sgr_shift(rest, 40 + k, 0, Style { bg: Some(standard_colours()[k]), ..style });
    lemma_sgr_shift(rest, 90 + k, 0, Style { fg: Some(bright_colours()[k]), ..style });
    lemma_sgr_shift(rest, 100 + k, 0, Style { bg: Some(bright_colours()[k]), ..style });
}

/// The fields of a listing line: the trimmed line split at its separator
/// into at most `n` fields.
pub open spec fn listing_fields(raw: Seq<char>, n: nat) -> Seq<Seq<char>> {
    splitn(trim(raw), n, separator_of(trim(raw)))
}

/// Whether `field` is a run of ASCII digits whose value fits a `u32`.
pub open spec fn u32_digits(field: Seq<char>) -> bool {
    &&& field.len() > 0
    &&& forall|k: int| 0 <= k < field.len() ==> is_digit(#[trigger] field[k])
    &&& digits_value(field) <= u32::MAX
}

/// A session line's window count is the decimal value of its fourth field,
/// however many digits that has, wherever the field is a number that fits a
/// `u32`.
pub proof fn law_session_window_count(raw: Seq<char>)
    requires
        trim(raw).len() > 0,
        listing_fields(raw, 6).len() > 3,
        listing_fields(raw, 6)[1].len() > 0,
        u32_digits(listing_fields(raw, 6)[3]),
    ensures
        session_line(raw) matches Some(s) && s.window_count == digits_value(listing_fields(raw, 6)[3]),
{
    let f = listing_fields(raw, 6)[3];
    assert(is_digit(f[0]));
    assert(unsigned_digits(f) == f);
}

/// A window line's index is the decimal value of its fourth field, however
/// many digits that has, wherever the field is a number that fits a `u32`.
pub proof fn law_window_index(raw: Seq<char>)
    requires
        trim(raw).len() > 0,
        listing_fields(raw, 5).len() > 3,
        listing_fields(raw, 5)[1].len() > 0,
        u32_digits(listing_fields(raw, 5)[3]),
    ensures
        window_line(raw) matches Some(w) && w.index == digits_value(listing_fields(raw, 5)[3]),
{
    let f = listing_fields(raw, 5)[3];
    assert(is_digit(f[0]));
    assert(unsigned_digits(f) == f);
}

/// The decimal rendering of a number is a run of digits with that value.
pub proof fn lemma_decimal_digits(n: nat)
    ensures
        decimal(n).len() > 0,
        forall|k: int| 0 <= k < decimal(n).len() ==> is_digit(#[trigger] decimal(n)[k]),
        digits_value(decimal(n)) == n,
    decreases n,
{
    if n >= 10 {
        lemma_decimal_digits(n / 10);
        let d = decimal(n / 10);
        let c = digit_char((n % 10) as int);
        assert(decimal(n) == d.push(c));
        assert(d.push(c).drop_last() =~= d);
        assert(is_digit(c) && c as nat - '0' as nat == n % 10);
        assert(forall|k: int| 0 <= k < d.len() ==> d.push(c)[k] == d[k]);
        assert(digits_value(d.push(c)) == digits_value(d) * 10 + (c as nat - '0' as nat));
        assert((n / 10) * 10 + n % 10 == n) by (nonlinear_arith);
    } else {
        let c = digit_char(n as int);
        assert(c as nat - '0' as nat == n);
        assert(digits_value(seq![c]) == digits_value(seq![c].drop_last()) * 10 + (c as nat - '0' as nat));
        assert(decimal(n) == seq![digit_char(n as int)]);
        assert(seq![digit_char(n as int)].drop_last() =~= Seq::<char>::empty());
    }
}

/// A window listed with the index `n` written in decimal gets the index `n`,
/// which its card title shows again (`window_card_title` writes
/// `decimal(index)`).
pub proof fn law_window_index_round_trip(raw: Seq<char>, n: u32)
    requires
        trim(raw).len() > 0,
        listing_fields(raw, 5).len() > 3,
        listing_fields(raw, 5)[1].len() > 0,
        listing_fields(raw, 5)[3] == decimal(n as nat),
    ensures
        window_line(raw) matches Some(w) && w.index == n,
{
    lemma_decimal_digits(n as nat);
    law_window_index(raw);
}

/// A session listed with the window count `n` written in decimal gets the
/// window count `n`.
pub proof fn law_session_window_count_round_trip(raw: Seq<char>, n: u32)
    requires
        trim(raw).len() > 0,
        listing_fields(raw, 6).len() > 3,
        listing_fields(raw, 6)[1].len() > 0,
        listing_fields(raw, 6)[3] == decimal(n as nat),
    ensures
        session_line(raw) matches Some(s) && s.window_count == n,
{
    lemma_decimal_digits(n as nat);
    law_session_window_count(raw);
}

/// Backspace in an open search deletes the query's last character (an empty
/// query stays empty) and selects the first card; the sessions, the zoom and
/// the flags are unchanged.
pub proof fn law_backspace_edits_search(
    pre: App,
    post: App,
    key: KeyEvent,
    columns: usize,
    toggle_key: Option<ToggleKey>,
    zoom_key: Option<ToggleKey>,
)
    requires
        key.code == KeyCode::Backspace,
        pre.query() is Some,
        !(toggle_key matches Some(t) && t.matches_key(key)),
        !(zoom_key matches Some(z) && z.matches_key(key)),
        key_effect(pre, post, key, columns, toggle_key, zoom_key),
    ensures
        post.query() == Some(
            if pre.query().unwrap().len() == 0 {
                Seq::<char>::empty()
            } else {
                pre.query().unwrap().take(pre.query().unwrap().len() - 1)
            },
        ),
        post.selected_index == 0,
        post.sessions@ == pre.sessions@,
        post.zoomed_session == pre.zoomed_session,
        post.should_quit == pre.should_quit,
        post.should_switch == pre.should_switch,
{
    let q = pre.query().unwrap();
    if q.len() > 0 {
        assert(q.drop_last() =~= q.take(q.len() - 1));
    }
}

/// A character typed with no modifier (or Shift) into an open search is
/// appended to the query and the first card is selected; the sessions, the
/// zoom and the flags are unchanged.
pub proof fn law_typing_extends_search(
    pre: App,
    post: App,
    ch: char,
    key: KeyEvent,
    columns: usize,
    toggle_key: Option<ToggleKey>,
    zoom_key: Option<ToggleKey>,
)
    requires
        key.code == KeyCode::Char(ch),
        key.modifiers.bits == 0 || key.modifiers.bits == 1,
        pre.query() is Some,
        !(zoom_key matches Some(z) && z.matches_key(key)),
        key_effect(pre, post, key, columns, toggle_key, zoom_key),
    ensures
        post.query() == Some(pre.query().unwrap().push(ch)),
        post.selected_index == 0,
        post.sessions@ == pre.sessions@,
        post.zoomed_session == pre.zoomed_session,
        post.should_quit == pre.should_quit,
        post.should_switch == pre.should_switch,
{
}

/// In the default mode, in the session grid with no search open, a character
/// typed with no modifier (or Shift) opens a search holding just that
/// character and selects the first card.
pub proof fn law_typing_starts_search(
    pre: App,
    post: App,
    ch: char,
    key: KeyEvent,
    columns: usize,
    toggle_key: Option<ToggleKey>,
    zoom_key: Option<ToggleKey>,
)
    requires
        key.code == KeyCode::Char(ch),
        key.modifiers.bits == 0 || key.modifiers.bits == 1,
        !pre.vim_keys,
        !pre.zoomed(),
        pre.query() is None,
        !(toggle_key matches Some(t) && t.matches_key(key)),
        !(zoom_key matches Some(z) && z.matches_key(key)),
        key_effect(pre, post, key, columns, toggle_key, zoom_key),
    ensures
        post.query() == Some(seq![ch]),
        post.selected_index == 0,
        post.sessions@ == pre.sessions@,
        post.should_quit == pre.should_quit,
{
    assert(Seq::<char>::empty().push(ch) =~= seq![ch]);
}

/// Esc in an open search closes it without quitting, except that in the
/// default mode Esc on an empty query quits.
pub proof fn law_esc_in_search(
    pre: App,
    post: App,
    key: KeyEvent,
    columns: usize,
    toggle_key: Option<ToggleKey>,
    zoom_key: Option<ToggleKey>,
)
    requires
        key.code == KeyCode::Esc,
        pre.query() is Some,
        !(toggle_key matches Some(t) && t.matches_key(key)),
        !(zoom_key matches Some(z) && z.matches_key(key)),
        key_effect(pre, post, key, columns, toggle_key, zoom_key),
    ensures
        !pre.vim_keys && pre.query().unwrap().len() == 0 ==> post == (App { should_quit: true, ..pre }),
        pre.vim_keys || pre.query().unwrap().len() > 0 ==> {
            &&& post.query() is None
            &&& post.selected_index == 0
            &&& post.should_quit == pre.should_quit
            &&& post.sessions@ == pre.sessions@
            &&& post.zoomed_session == pre.zoomed_session
        },
{
    let q = pre.query().unwrap();
    if q.len() == 0 {
        assert(q =~= Seq::<char>::empty());
    }
}

/// In vim's normal mode `q` quits and `/` opens an empty search in the
/// session grid, neither changing anything else.
pub proof fn law_vim_keys(
    pre: App,
    post: App,
    key: KeyEvent,
    columns: usize,
    toggle_key: Option<ToggleKey>,
    zoom_key: Option<ToggleKey>,
)
    requires
        pre.vim_keys,
        pre.query() is None,
        key.modifiers.bits == 0,
        key.code == KeyCode::Char('q') || key.code == KeyCode::Char('/'),
        !(toggle_key matches Some(t) && t.matches_key(key)),
        !(zoom_key matches Some(z) && z.matches_key(key)),
        key_effect(pre, post, key, columns, toggle_key, zoom_key),
    ensures
        key.code == KeyCode::Char('q') ==> post == (App { should_quit: true, ..pre }),
        key.code == KeyCode::Char('/') && !pre.zoomed() ==> {
            &&& post.query() == Some(Seq::<char>::empty())
            &&& post.selected_index == 0
            &&& post.sessions@ == pre.sessions@
            &&& post.should_quit == pre.should_quit
        },
        key.code == KeyCode::Char('/') && pre.zoomed() ==> post == pre,
{
}

/// SGR 0 resets the style; 1, 3 and 4 add bold, italic and underline (and
/// take them out of the removed modifiers); 22, 23 and 24 remove them. The
/// parameters after them apply to the result.
pub proof fn law_sgr_modifiers(rest: Seq<int>, style: Style)
    ensures
        sgr_apply(seq![0int] + rest, 0, style) == sgr_apply(
            rest,
            0,
            Style { fg: None, bg: None, add_modifier: 0, sub_modifier: 0 },
        ),
        sgr_apply(seq![1int] + rest, 0, style) == sgr_apply(
            rest,
            0,
            Style { add_modifier: style.add_modifier | 1, sub_modifier: style.sub_modifier & !1u16, ..style },
        ),
        sgr_apply(seq![3int] + rest, 0, style) == sgr_apply(
            rest,
            0,
            Style { add_modifier: style.add_modifier | 4, sub_modifier: style.sub_modifier & !4u16, ..style },
        ),
        sgr_apply(seq![4int] + rest, 0, style) == sgr_apply(
            rest,
            0,
            Style { add_modifier: style.add_modifier | 8, sub_modifier: style.sub_modifier & !8u16, ..style },
        ),
        sgr_apply(seq![22int] + rest, 0, style) == sgr_apply(
            rest,
            0,
            Style { add_modifier: style.add_modifier & !1u16, sub_modifier: style.sub_modifier | 1, ..style },
        ),
        sgr_apply(seq![23int] + rest, 0, style) == sgr_apply(
            rest,
            0,
            Style { add_modifier: style.add_modifier & !4u16, sub_modifier: style.sub_modifier | 4, ..style },
        ),
        sgr_apply(seq![24int] + rest, 0, style) == sgr_apply(
            rest,
            0,
            Style { add_modifier: style.add_modifier & !8u16, sub_modifier: style.sub_modifier | 8, ..style },
        ),
{
    assert((seq![0int] + rest)[0] == 0);
    assert((seq![1int] + rest)[0] == 1);
    assert((seq![3int] + rest)[0] == 3);
    assert((seq![4int] + rest)[0] == 4);
    assert((seq![22int] + rest)[0] == 22);
    assert((seq![23int] + rest)[0] == 23);
    assert((seq![24int] + rest)[0] == 24);
    lemma_sgr_shift(rest, 0, 0, plain());
    lemma_sgr_shift(rest, 1, 0, adding(style, BOLD));
    lemma_sgr_shift(rest, 3, 0, adding(style, ITALIC));
    lemma_sgr_shift(rest, 4, 0, adding(style, UNDERLINED));
    lemma_sgr_shift(rest, 22, 0, removing(style, BOLD));
    lemma_sgr_shift(rest, 23, 0, removing(style, ITALIC));
    lemma_sgr_shift(rest, 24, 0, removing(style, UNDERLINED));
}

/// SGR `38;5;n` and `48;5;n` (n at most 255) set the foreground and the
/// background to palette colour `n`; `38;2;r;g;b` and `48;2;r;g;b` (each at
/// most 255) to that RGB colour. The parameters after them apply to the
/// result.
pub proof fn law_sgr_extended_colours(n: int, r: int, g: int, b: int, rest: Seq<int>, style: Style)
    requires
        0 <= n <= 255,
        0 <= r <= 255,
        0 <= g <= 255,
        0 <= b <= 255,
    ensures
        sgr_apply(seq![38int, 5, n] + rest, 0, style) == sgr_apply(
            rest,
            0,
            Style { fg: Some(TermColor::Indexed(n as u8)), ..style },
        ),
        sgr_apply(seq![48int, 5, n] + rest, 0, style) == sgr_apply(
            rest,
            0,
            Style { bg: Some(TermColor::Indexed(n as u8)), ..style },
        ),
        sgr_apply(seq![38int, 2, r, g, b] + rest, 0, style) == sgr_apply(
            rest,
            0,
            Style { fg: Some(TermColor::Rgb(r as u8, g as u8, b as u8)), ..style },
        ),
        sgr_apply(seq![48int, 2, r, g, b] + rest, 0, style) == sgr_apply(
            rest,
            0,
            Style { bg: Some(TermColor::Rgb(r as u8, g as u8, b as u8)), ..style },
        ),
{
    lemma_sgr_skip(seq![38int, 5, n], rest, Style { fg: Some(TermColor::Indexed(n as u8)), ..style });
    lemma_sgr_skip(seq![48int, 5, n], rest, Style { bg: Some(TermColor::Indexed(n as u8)), ..style });
    lemma_sgr_skip(
        seq![38int, 2, r, g, b],
        rest,
        Style { fg: Some(TermColor::Rgb(r as u8, g as u8, b as u8)), ..style },
    );
    lemma_sgr_skip(
        seq![48int, 2, r, g, b],
        rest,
        Style { bg: Some(TermColor::Rgb(r as u8, g as u8, b as u8)), ..style },
    );
    let a = seq![38int, 5, n] + rest;
    assert(a[0] == 38 && a[1] == 5 && a[2] == n);
    let c = seq![48int, 5, n] + rest;
    assert(c[0] == 48 && c[1] == 5 && c[2] == n);
    let d = seq![38int, 2, r, g, b] + rest;
    assert(d[0] == 38 && d[1] == 2 && d[2] == r && d[3] == g && d[4] == b);
    let e = seq![48int, 2, r, g, b] + rest;
    assert(e[0] == 48 && e[1] == 2 && e[2] == r && e[3] == g && e[4] == b);
}

/// Reading the parameters after a prefix continues as reading the remaining
/// parameters alone.
proof fn lemma_sgr_skip(prefix: Seq<int>, rest: Seq<int>, style: Style)
    ensures
        sgr_apply(prefix + rest, prefix.len() as int, style) == sgr_apply(rest, 0, style),
    decreases prefix.len(),
{
    if prefix.len() > 0 {
        let x = prefix[0];
        let tail = prefix.drop_first();
        lemma_sgr_skip(tail, rest, style);
        assert(prefix + rest =~= seq![x] + (tail + rest));
        lemma_sgr_shift(tail + rest, x, tail.len() as int, style);
    } else {
        assert(prefix + rest =~= rest);
    }
}

/// A session line's id is its first field and its name its second; the
/// session is attached unless its third field is missing, `0` or `false`.
pub proof fn law_session_fields(raw: Seq<char>)
    requires
        trim(raw).len() > 0,
        listing_fields(raw, 6).len() > 1,
        listing_fields(raw, 6)[1].len() > 0,
    ensures
        session_line(raw) matches Some(s) && {
            let f = listing_fields(raw, 6);
            &&& s.id == f[0]
            &&& s.name == f[1]
            &&& s.attached == (f.len() > 2 && f[2] != seq!['0'] && f[2] != seq!['f', 'a', 'l', 's', 'e'])
        },
{
    reveal_strlit("0");
    reveal_strlit("false");
    assert("0"@ =~= seq!['0']);
    assert("false"@ =~= seq!['f', 'a', 'l', 's', 'e']);
}

/// A window line's id is its first field and its name its second; the window
/// is active when its third field is present, not empty, and neither `0` nor
/// `false`.
pub proof fn law_window_fields(raw: Seq<char>)
    requires
        trim(raw).len() > 0,
        listing_fields(raw, 5).len() > 1,
        listing_fields(raw, 5)[1].len() > 0,
    ensures
        window_line(raw) matches Some(w) && {
            let f = listing_fields(raw, 5);
            &&& w.id == f[0]
            &&& w.name == f[1]
            &&& w.active == (f.len() > 2 && f[2].len() > 0 && f[2] != seq!['0'] && f[2] != seq![
                'f',
                'a',
                'l',
                's',
                'e',
            ])
        },
{
    reveal_strlit("0");
    reveal_strlit("false");
    assert("0"@ =~= seq!['0']);
    assert("false"@ =~= seq!['f', 'a', 'l', 's', 'e']);
}

/// The grid's columns for moving up and down: at least one.
pub open spec fn step_columns(columns: usize) -> int {
    if columns == 0 {
        1
    } else {
        columns as int
    }
}

/// Where each move puts the selection: Left and Right one card back or
/// forward, stopping at the first and last card; Up one row back, staying on
/// the first row; Down one row forward, onto the last card where the next row
/// is shorter, staying on the last row. No move changes the sessions, the
/// zoom or the flags.
pub proof fn law_move_targets(pre: App, post: App, columns: usize)
    ensures
        pre.after_move_left(post) ==> card_index(post) == if card_index(pre) > 0 {
            card_index(pre) - 1
        } else {
            card_index(pre)
        },
        pre.after_move_right(post) ==> card_index(post) == if card_index(pre) + 1 < card_count(pre) {
            card_index(pre) + 1
        } else {
            card_index(pre)
        },
        pre.after_move_up(post, columns) ==> card_index(post) == if card_index(pre) >= step_columns(columns) {
            card_index(pre) - step_columns(columns)
        } else {
            card_index(pre)
        },
        pre.after_move_down(post, columns) ==> card_index(post) == if card_count(pre) > 0 && card_index(pre)
            / step_columns(columns) < (card_count(pre) - 1) / step_columns(columns) {
            if card_index(pre) + step_columns(columns) < card_count(pre) {
                card_index(pre) + step_columns(columns)
            } else {
                card_count(pre) - 1
            }
        } else {
            card_index(pre)
        },
        pre.after_move_left(post) || pre.after_move_right(post) || pre.after_move_up(post, columns)
            || pre.after_move_down(post, columns) ==> {
            &&& post.sessions@ == pre.sessions@
            &&& post.search_query == pre.search_query
            &&& post.zoomed_session == pre.zoomed_session
            &&& post.windows@ == pre.windows@
            &&& post.should_quit == pre.should_quit
            &&& post.should_switch == pre.should_switch
        },
{
}

/// Whether the cell `(x, y)` lies in the rectangle `r`.
pub open spec fn covers(r: Rect, x: u16, y: u16) -> bool {
    &&& r.x <= x
    &&& x < if r.x + r.width <= u16::MAX { r.x + r.width } else { u16::MAX as int }
    &&& r.y <= y
    &&& y < if r.y + r.height <= u16::MAX { r.y + r.height } else { u16::MAX as int }
}

/// A left click on a card of the grid selects the first card under the
/// pointer and asks to switch to it; a left click on no card, or any other
/// mouse event, changes nothing.
pub proof fn law_click_selects_card_under_pointer(
    pre: App,
    post: App,
    mouse: MouseEvent,
    grid_area: Rect,
    min_card_width: Option<u16>,
    forced_columns: Option<usize>,
)
    requires
        mouse_effect(pre, post, mouse, grid_area, min_card_width, forced_columns),
    ensures
        ({
            let cards = grid_cards(grid_area, card_count(pre), min_card_width, forced_columns);
            mouse.kind == MouseEventKind::Down(MouseButton::Left) && (exists|i: int|
                0 <= i < cards.len() && covers(#[trigger] cards[i], mouse.column, mouse.row)) ==> {
                &&& post.should_switch
                &&& post.zoomed() == pre.zoomed()
                &&& 0 <= card_index(post) < cards.len()
                &&& covers(cards[card_index(post)], mouse.column, mouse.row)
                &&& forall|j: int| 0 <= j < card_index(post) ==> !covers(#[trigger] cards[j], mouse.column, mouse.row)
            }
        }),
        ({
            let cards = grid_cards(grid_area, card_count(pre), min_card_width, forced_columns);
            !(mouse.kind == MouseEventKind::Down(MouseButton::Left) && (exists|i: int|
                0 <= i < cards.len() && covers(#[trigger] cards[i], mouse.column, mouse.row))) ==> post == pre
        }),
{
    let cards = grid_cards(grid_area, card_count(pre), min_card_width, forced_columns);
    let x = mouse.column;
    let y = mouse.row;
    assert forall|r: Rect| #[trigger] holds_point(x, y)(r) == covers(r, x, y) by {}
    if mouse.kind == MouseEventKind::Down(MouseButton::Left) {
        if exists|i: int| 0 <= i < cards.len() && covers(#[trigger] cards[i], x, y) {
            let i = choose|i: int| 0 <= i < cards.len() && covers(#[trigger] cards[i], x, y);
            assert(holds_point(x, y)(cards[i]));
            lemma_first_index_exists(cards, holds_point(x, y), i);
            let m = first_index(cards, holds_point(x, y)).unwrap();
            assert(is_first(cards, holds_point(x, y), m)) by {
                assert(exists|z: int| is_first(cards, holds_point(x, y), z));
            }
            assert(m < card_count(pre));
            assert(card_count(pre) <= usize::MAX) by {
                assert(pre.windows@.len() == pre.windows.len());
                assert(pre.sessions@.len() == pre.sessions.len());
                match pre.query() {
                    Some(q) => {
                        pre.sessions@.lemma_filter_len(|x: Session| fuzzy_match(x.name@, q));
                    },
                    None => {},
                }
            }
            assert(card_index(post) == m);
            assert forall|j: int| 0 <= j < m implies !covers(#[trigger] cards[j], x, y) by {
                assert(!holds_point(x, y)(cards[j]));
            }
        } else {
            assert forall|j: int| 0 <= j < cards.len() implies !holds_point(x, y)(#[trigger] cards[j]) by {
                assert(!covers(cards[j], x, y));
            }
            crate::model::lemma_first_index_none(cards, holds_point(x, y));
        }
    }
}

/// tmux key names: a single character is that key, an uppercase ASCII letter
/// with Shift; an `M-` prefix adds Alt and a `C-` prefix Control; `Esc` is the
/// Escape key.
pub proof fn law_tmux_key_names(ch: char)
    ensures
        tmux_key(seq![ch]) == Some(
            (KeyCode::Char(ch), if 'A' <= ch && ch <= 'Z' { 1u8 } else { 0u8 }),
        ),
        tmux_key(seq!['M', '-', ch]) == Some(
            (KeyCode::Char(ch), if 'A' <= ch && ch <= 'Z' { 5u8 } else { 4u8 }),
        ),
        tmux_key(seq!['C', '-', ch]) == Some(
            (KeyCode::Char(ch), if 'A' <= ch && ch <= 'Z' { 3u8 } else { 2u8 }),
        ),
        tmux_key(seq!['E', 's', 'c']) == Some((KeyCode::Esc, 0u8)),
        tmux_key(seq!['M', '-', 'E', 's', 'c']) == Some((KeyCode::Esc, 4u8)),
{
    reveal_strlit("Esc");
    assert("Esc"@ =~= seq!['E', 's', 'c']);
    assert(seq![ch].skip(0) =~= seq![ch]);
    assert(seq!['M', '-', ch].skip(2) =~= seq![ch]);
    assert(seq!['C', '-', ch].skip(2) =~= seq![ch]);
    assert(seq!['E', 's', 'c'].skip(0) =~= seq!['E', 's', 'c']);
    assert(seq!['M', '-', 'E', 's', 'c'].skip(2) =~= seq!['E', 's', 'c']);
}

/// A preview keeps the last lines of the capture: the trimmed lines without
/// trailing blank lines, of which the last `max_lines` (or all, where fewer).
pub proof fn law_preview_keeps_last_lines(output: Seq<char>, max_lines: nat)
    ensures
        ({
            let kept = drop_trailing_blank(lines(output).map_values(|l: Seq<char>| trim_end(l)));
            let p = preview_lines(output, max_lines);
            &&& p.len() == if kept.len() < max_lines { kept.len() } else { max_lines }
            &&& forall|i: int| 0 <= i < p.len() ==> #[trigger] p[i] == kept[kept.len() - p.len() + i]
        }),
{
}

} // verus!
