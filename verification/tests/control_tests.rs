use tmux_expose::control::{
    SwitchStep, apply_metadata_refresh, apply_session_refresh, apply_window_refresh, begin_switch, card_total,
    error_with_hint, finish_switch, grid_area, needs_window_listing, quit_hint_text,
    return_hint_text, startup_app, window_refresh_target,
};
use tmux_expose::model::{App, Session, Window};
use tmux_expose::ui::Rect;

fn session(name: &str) -> Session {
    Session {
        id: format!("${name}"),
        name: name.to_string(),
        attached: false,
        window_count: 1,
        current_window: None,
        last_activity: None,
        preview: Vec::new(),
        preview_error: None,
    }
}

fn window(id: &str, active: bool) -> Window {
    Window {
        id: id.to_string(),
        index: 0,
        name: id.to_string(),
        active,
        last_activity: None,
        panes: Vec::new(),
        preview_error: None,
    }
}

#[test]
fn hints_name_the_keys_of_the_mode() {
    assert_eq!(quit_hint_text(true), "Press q or Esc to quit.");
    assert_eq!(quit_hint_text(false), "Press Esc to quit.");
    assert_eq!(return_hint_text(true), "Press q to quit or Esc to return.");
    assert_eq!(return_hint_text(false), "Press Esc to return or Ctrl-C to quit.");
    assert_eq!(error_with_hint("boom", "Press Esc to quit."), "boom\n\nPress Esc to quit.");
}

#[test]
fn startup_selects_the_current_session_or_reports_the_error() {
    let app = startup_app(Ok(vec![session("a"), session("b")]), Some("b".to_string()), true);
    assert_eq!(app.selected_index, 1);
    assert!(app.vim_keys);
    assert_eq!(app.error, None);

    let failed = startup_app(Err("tmux list-sessions failed".to_string()), None, false);
    assert!(failed.sessions.is_empty());
    assert_eq!(failed.error.as_deref(), Some("tmux list-sessions failed\n\nPress Esc to quit."));
}

#[test]
fn switch_targets_the_selected_session() {
    let mut app = App::new(vec![session("a"), session("b")], Some("a".to_string()));
    assert_eq!(begin_switch(&mut app), SwitchStep::Idle);

    app.should_switch = true;
    app.move_right();
    assert_eq!(begin_switch(&mut app), SwitchStep::Switch("$b".to_string()));
    assert!(app.should_switch);
    assert!(finish_switch(&mut app, Ok(())));
}

#[test]
fn switch_to_the_current_session_is_done_at_once() {
    let mut app = App::new(vec![session("a"), session("b")], Some("a".to_string()));
    app.should_switch = true;
    assert_eq!(begin_switch(&mut app), SwitchStep::Done);
}

#[test]
fn switch_in_the_window_grid_targets_the_window() {
    let mut app = App::new(vec![session("a")], Some("a".to_string()));
    app.toggle_zoom();
    app.should_switch = true;
    assert_eq!(begin_switch(&mut app), SwitchStep::Dropped);
    assert!(!app.should_switch);

    app.set_windows_for_zoomed_session(vec![window("@1", false), window("@2", true)]);
    app.should_switch = true;
    assert_eq!(begin_switch(&mut app), SwitchStep::Switch("@2".to_string()));
}

#[test]
fn failed_switch_reports_the_error_and_stays() {
    let mut app = App::new(vec![session("a"), session("b")], None);
    app.should_switch = true;
    assert!(!finish_switch(&mut app, Err("tmux switch-client failed for '$b'".to_string())));
    assert!(!app.should_switch);
    assert_eq!(
        app.error.as_deref(),
        Some("tmux switch-client failed for '$b'\n\nPress Esc to quit.")
    );

    app.toggle_zoom();
    app.vim_keys = true;
    app.should_switch = true;
    assert!(!finish_switch(&mut app, Err("nope".to_string())));
    assert_eq!(app.error.as_deref(), Some("nope\n\nPress q to quit or Esc to return."));
}

#[test]
fn switch_with_nothing_selected_is_dropped() {
    let mut app = App::new(Vec::new(), None);
    app.should_switch = true;
    assert_eq!(begin_switch(&mut app), SwitchStep::Dropped);
    assert!(!app.should_switch);
}

#[test]
fn window_refresh_shows_windows_or_the_error() {
    let mut app = App::new(vec![session("dev")], None);
    assert_eq!(window_refresh_target(&app), None);
    app.toggle_zoom();
    assert_eq!(window_refresh_target(&app).as_deref(), Some("$dev"));
    assert!(needs_window_listing(&app));

    apply_window_refresh(&mut app, Err("tmux list-windows failed".to_string()));
    assert_eq!(
        app.error.as_deref(),
        Some("tmux list-windows failed\n\nPress Esc to return or Ctrl-C to quit.")
    );
    assert!(!needs_window_listing(&app));

    apply_window_refresh(&mut app, Ok(vec![window("@1", false), window("@2", true)]));
    assert_eq!(app.error, None);
    assert_eq!(app.selected_window_index, 1);
    assert_eq!(card_total(&app), 2);
    assert!(!needs_window_listing(&app));
}

#[test]
fn session_refresh_keeps_the_current_preview_or_reports_the_error() {
    let mut app = App::new(vec![session("dev"), session("logs")], Some("dev".to_string()));
    app.sessions[0].preview = vec!["kept".to_string()];
    app.error = Some("old".to_string());

    apply_session_refresh(&mut app, Ok(vec![session("dev"), session("logs")]), Some("$dev"));
    assert_eq!(app.error, None);
    assert_eq!(app.sessions[0].preview, vec!["kept".to_string()]);

    apply_session_refresh(&mut app, Err("tmux list-sessions failed".to_string()), Some("$dev"));
    assert_eq!(app.error.as_deref(), Some("tmux list-sessions failed\n\nPress Esc to quit."));
    assert_eq!(app.sessions.len(), 2);
    assert_eq!(card_total(&app), 2);
}

#[test]
fn metadata_refresh_asks_for_windows_while_zoomed() {
    let mut app = App::new(vec![session("dev"), session("logs")], None);
    app.sessions[1].preview = vec!["logs screen".to_string()];
    app.toggle_zoom();

    assert!(apply_metadata_refresh(&mut app, Ok(vec![session("dev"), session("logs")])));
    assert!(app.is_zoomed());
    assert_eq!(app.sessions[1].preview, vec!["logs screen".to_string()]);

    app.error = Some("stale".to_string());
    assert!(!apply_metadata_refresh(&mut app, Ok(vec![session("logs")])));
    assert!(!app.is_zoomed());
    assert_eq!(app.error, None);

    assert!(!apply_metadata_refresh(&mut app, Err("down".to_string())));
    assert_eq!(app.error.as_deref(), Some("down\n\nPress Esc to quit."));
}

#[test]
fn grid_area_leaves_the_footer_line() {
    assert_eq!(grid_area(80, 24), Rect::new(0, 0, 80, 23));
    assert_eq!(grid_area(80, 0), Rect::new(0, 0, 80, 0));
}
