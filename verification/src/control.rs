//! The decisions of the picker's main loop, apart from the tmux calls that
//! carry them out: what a pending switch asks tmux to do and what its outcome
//! leaves behind, what a refresh of the session or window listing does to the
//! state, and how a failure is reported with the hint for leaving the picker.
use vstd::prelude::*;

use crate::model::{
    App, Session, Window, card_count, carry_previews, first_index, id_of, name_is, opt_view, session_views,
    with_preview_of,
};
use crate::text::same_text;
use crate::ui::{Rect, sat_sub};

verus! {

/// The hint shown under an error that leaves the picker with nothing to do.
pub open spec fn quit_hint(vim_keys: bool) -> Seq<char> {
    if vim_keys {
        "Press q or Esc to quit."@
    } else {
        "Press Esc to quit."@
    }
}

/// The hint shown under an error met inside the window grid of a session.
pub open spec fn return_hint(vim_keys: bool) -> Seq<char> {
    if vim_keys {
        "Press q to quit or Esc to return."@
    } else {
        "Press Esc to return or Ctrl-C to quit."@
    }
}

/// An error message followed by a blank line and a hint.
pub open spec fn with_hint(error: Seq<char>, hint: Seq<char>) -> Seq<char> {
    error + "\n\n"@ + hint
}

/// The hint for leaving the picker after an error.
pub fn quit_hint_text(vim_keys: bool) -> (r: &'static str)
    ensures
        r@ == quit_hint(vim_keys),
{
    if vim_keys {
        "Press q or Esc to quit."
    } else {
        "Press Esc to quit."
    }
}

/// The hint for leaving the window grid after an error.
pub fn return_hint_text(vim_keys: bool) -> (r: &'static str)
    ensures
        r@ == return_hint(vim_keys),
{
    if vim_keys {
        "Press q to quit or Esc to return."
    } else {
        "Press Esc to return or Ctrl-C to quit."
    }
}

/// `error`, a blank line, then `hint`.
pub fn error_with_hint(error: &str, hint: &str) -> (r: String)
    ensures
        r@ == with_hint(error@, hint@),
{
    let mut r = String::from_str(error);
    r.append("\n\n");
    r.append(hint);
    r
}

/// The state the picker starts in: the listed sessions, or no session and the
/// listing's error with the hint for quitting.
pub fn startup_app(
    listing: Result<Vec<Session>, String>,
    current_session_name: Option<String>,
    vim_keys: bool,
) -> (app: App)
    ensures
        app.vim_keys == vim_keys,
        app.current_session_name == current_session_name,
        !app.should_quit,
        !app.should_switch,
        app.query() is None,
        app.zoomed_session is None,
        app.windows@.len() == 0,
        app.selected_window_index == 0,
        app.zoom_key@ == seq!['z'],
        match listing {
            Ok(sessions) => {
                &&& app.sessions@ == sessions@
                &&& app.error is None
                &&& app.selected_index == (match current_session_name {
                    Some(n) => match first_index(sessions@, name_is(n@)) {
                        Some(i) => i,
                        None => 0,
                    },
                    None => 0,
                })
            },
            Err(e) => {
                &&& app.sessions@.len() == 0
                &&& app.selected_index == 0
                &&& opt_view(app.error) == Some(with_hint(e@, quit_hint(vim_keys)))
            },
        },
{
    let mut app = match listing {
        Ok(sessions) => App::new(sessions, current_session_name),
        Err(error) => {
            let mut app = App::new(Vec::new(), current_session_name);
            app.error = Some(error_with_hint(error.as_str(), quit_hint_text(vim_keys)));
            app
        },
    };
    app.vim_keys = vim_keys;
    app
}

/// What a pending switch asks of tmux.
#[derive(Debug, Clone, PartialEq, Eq)]
pub enum SwitchStep {
    /// No switch is pending.
    Idle,
    /// The switch was dropped because nothing is selected.
    Dropped,
    /// The selected session is the one the picker runs in: the picker ends
    /// without asking tmux anything.
    Done,
    /// tmux is to switch the client to this target (a window id when zoomed
    /// into a session, else a session id).
    Switch(String),
}

/// `post` is `pre` with the pending switch dropped.
pub open spec fn switch_dropped(pre: App, post: App) -> bool {
    post == App { should_switch: false, ..pre }
}

/// Decides what a pending switch does. When zoomed into a session the target
/// is the selected window; otherwise it is the selected session, unless that
/// session is the one the picker runs in. With nothing selected the switch is
/// dropped.
pub fn begin_switch(app: &mut App) -> (step: SwitchStep)
    ensures
        !old(app).should_switch ==> step == SwitchStep::Idle && *final(app) == *old(app),
        old(app).should_switch && old(app).zoomed() ==> match old(app).window_selection() {
            Some(w) => step matches SwitchStep::Switch(t) && t@ == w.id@ && *final(app) == *old(app),
            None => step == SwitchStep::Dropped && switch_dropped(*old(app), *final(app)),
        },
        old(app).should_switch && !old(app).zoomed() ==> match old(app).selection() {
            Some(s) => if opt_view(old(app).current_session_name) == Some(s.name@) {
                step == SwitchStep::Done && *final(app) == *old(app)
            } else {
                step matches SwitchStep::Switch(t) && t@ == s.id@ && *final(app) == *old(app)
            },
            None => step == SwitchStep::Dropped && switch_dropped(*old(app), *final(app)),
        },
{
    if !app.should_switch {
        return SwitchStep::Idle;
    }
    if app.is_zoomed() {
        match app.selected_target() {
            Some(target) => SwitchStep::Switch(target),
            None => {
                app.should_switch = false;
                SwitchStep::Dropped
            },
        }
    } else {
        let (name, id) = match app.selected_session() {
            Some(session) => (session.name.clone(), session.id.clone()),
            None => {
                app.should_switch = false;
                return SwitchStep::Dropped;
            },
        };
        let current = match &app.current_session_name {
            Some(current) => same_text(current.as_str(), name.as_str()),
            None => false,
        };
        if current {
            SwitchStep::Done
        } else {
            SwitchStep::Switch(id)
        }
    }
}

/// Takes in what tmux answered to a switch: success ends the picker; a failure
/// is reported with the hint for leaving (the window grid or the picker) and
/// drops the switch. Returns whether the picker is done.
pub fn finish_switch(app: &mut App, outcome: Result<(), String>) -> (done: bool)
    ensures
        match outcome {
            Ok(()) => done && *final(app) == *old(app),
            Err(e) => {
                &&& !done
                &&& opt_view(final(app).error) == Some(
                    with_hint(
                        e@,
                        if old(app).zoomed() {
                            return_hint(old(app).vim_keys)
                        } else {
                            quit_hint(old(app).vim_keys)
                        },
                    ),
                )
                &&& *final(app) == App { error: final(app).error, should_switch: false, ..*old(app) }
            },
        },
{
    match outcome {
        Ok(()) => true,
        Err(error) => {
            let hint = if app.is_zoomed() {
                return_hint_text(app.vim_keys)
            } else {
                quit_hint_text(app.vim_keys)
            };
            app.error = Some(error_with_hint(error.as_str(), hint));
            app.should_switch = false;
            false
        },
    }
}

/// The session whose windows a refresh lists: the zoomed-in session's id.
pub fn window_refresh_target(app: &App) -> (r: Option<String>)
    ensures
        opt_view(r) == id_of(app.zoom_target()),
{
    match app.zoomed_session() {
        Some(session) => Some(session.id.clone()),
        None => None,
    }
}

/// Takes in a fresh window listing of the zoomed-in session: the windows are
/// shown and the error banner cleared, or the listing's error is reported with
/// the hint for leaving the window grid.
pub fn apply_window_refresh(app: &mut App, listing: Result<Vec<Window>, String>)
    ensures
        match listing {
            Ok(windows) => {
                &&& final(app).error is None
                &&& old(app).after_set_windows(App { error: old(app).error, ..*final(app) }, windows@)
            },
            Err(e) => {
                &&& opt_view(final(app).error) == Some(with_hint(e@, return_hint(old(app).vim_keys)))
                &&& *final(app) == App { error: final(app).error, ..*old(app) }
            },
        },
{
    match listing {
        Ok(windows) => {
            app.set_windows_for_zoomed_session(windows);
            app.error = None;
        },
        Err(error) => {
            app.error = Some(error_with_hint(error.as_str(), return_hint_text(app.vim_keys)));
        },
    }
}

/// Takes in a fresh session listing while the session grid shows: the sessions
/// are replaced, the session the picker runs in keeping its preview, and the
/// error banner cleared; or the listing's error is reported with the hint for
/// quitting.
pub fn apply_session_refresh(
    app: &mut App,
    listing: Result<Vec<Session>, String>,
    current_session_id: Option<&str>,
)
    ensures
        match listing {
            Ok(sessions) => {
                &&& final(app).error is None
                &&& old(app).after_replace(App { error: old(app).error, ..*final(app) }, final(app).sessions@)
                &&& session_views(final(app).sessions@) == match current_session_id {
                    Some(id) => with_preview_of(session_views(sessions@), session_views(old(app).sessions@), id@),
                    None => session_views(sessions@),
                }
            },
            Err(e) => {
                &&& opt_view(final(app).error) == Some(with_hint(e@, quit_hint(old(app).vim_keys)))
                &&& *final(app) == App { error: final(app).error, ..*old(app) }
            },
        },
{
    match listing {
        Ok(sessions) => {
            app.replace_sessions_preserving_preview_for(sessions, current_session_id);
            app.error = None;
        },
        Err(error) => {
            app.error = Some(error_with_hint(error.as_str(), quit_hint_text(app.vim_keys)));
        },
    }
}

/// Takes in a fresh session listing (without previews) while zoomed into a
/// session: the sessions are replaced, each keeping the preview it had. Where
/// the zoom survives, returns true: the zoomed session's windows are to be
/// listed next. Where it does not, the error banner is cleared. A failed
/// listing is reported with the hint for quitting.
pub fn apply_metadata_refresh(app: &mut App, listing: Result<Vec<Session>, String>) -> (list_windows: bool)
    ensures
        match listing {
            Ok(sessions) => {
                &&& old(app).after_replace(App { error: old(app).error, ..*final(app) }, final(app).sessions@)
                &&& session_views(final(app).sessions@) == carry_previews(
                    session_views(old(app).sessions@),
                    session_views(sessions@),
                )
                &&& list_windows == final(app).zoomed()
                &&& final(app).error == if final(app).zoomed() {
                    old(app).error
                } else {
                    None
                }
            },
            Err(e) => {
                &&& !list_windows
                &&& opt_view(final(app).error) == Some(with_hint(e@, quit_hint(old(app).vim_keys)))
                &&& *final(app) == App { error: final(app).error, ..*old(app) }
            },
        },
{
    match listing {
        Ok(sessions) => {
            app.replace_sessions_preserving_all_previews(sessions);
            if app.is_zoomed() {
                true
            } else {
                app.error = None;
                false
            }
        },
        Err(error) => {
            app.error = Some(error_with_hint(error.as_str(), quit_hint_text(app.vim_keys)));
            false
        },
    }
}

/// Whether the window grid is waiting for its first listing: zoomed in, no
/// window listed, and no error to show instead.
pub fn needs_window_listing(app: &App) -> (r: bool)
    ensures
        r == (app.zoomed() && app.windows@.len() == 0 && app.error is None),
{
    app.is_zoomed() && app.windows.len() == 0 && app.error.is_none()
}

/// The number of cards on screen: windows when zoomed in, else the sessions
/// that match the search.
pub fn card_total(app: &App) -> (r: usize)
    ensures
        r == card_count(*app),
{
    if app.is_zoomed() {
        app.visible_window_count()
    } else {
        app.visible_session_count()
    }
}

/// The part of a `width` by `height` screen that the card grid may use: all
/// but the footer line.
pub fn grid_area(width: u16, height: u16) -> (r: Rect)
    ensures
        r == (Rect { x: 0, y: 0, width, height: sat_sub(height as int, 1) as u16 }),
{
    let h = if height >= 1 { height - 1 } else { 0 };
    Rect::new(0, 0, width, h)
}

} // verus!
