use tmux_expose::model::{App, Session, Window};

fn session(name: &str) -> Session {
    Session {
        id: format!("${name}"),
        name: name.to_string(),
        attached: false,
        window_count: 1,
        current_window: None,
        last_activity: None,
        preview: Vec::new(),
        preview_error: None,
    }
}

fn window(id: &str, index: u32, name: &str, active: bool) -> Window {
    Window {
        id: id.to_string(),
        index,
        name: name.to_string(),
        active,
        last_activity: None,
        panes: Vec::new(),
        preview_error: None,
    }
}

#[test]
fn selects_current_session_when_present() {
    let app = App::new(
        vec![session("dev"), session("logs"), session("notes")],
        Some("logs".to_string()),
    );

    assert_eq!(app.selected_index, 1);
}

#[test]
fn clamps_navigation_at_grid_edges() {
    let mut app = App::new(vec![session("one"), session("two"), session("three")], None);

    app.move_left();
    assert_eq!(app.selected_index, 0);

    app.move_right();
    app.move_right();
    app.move_right();
    assert_eq!(app.selected_index, 2);

    app.move_down(2);
    assert_eq!(app.selected_index, 2);

    app.move_up(2);
    assert_eq!(app.selected_index, 0);
}

#[test]
fn preserves_selected_session_by_name_after_refresh() {
    let mut app = App::new(
        vec![session("dev"), session("logs"), session("notes")],
        None,
    );
    app.selected_index = 1;

    app.replace_sessions(vec![session("new"), session("logs"), session("dev")]);

    assert_eq!(app.selected_session().unwrap().name, "logs");
}

#[test]
fn preserves_preview_for_matching_session_after_refresh() {
    let mut app = App::new(
        vec![session("dev"), session("logs")],
        Some("dev".to_string()),
    );
    app.sessions[0].preview = vec!["snapshot".to_string()];
    app.sessions[0].preview_error = None;

    let mut refreshed_dev = session("dev");
    refreshed_dev.preview = Vec::new();
    refreshed_dev.preview_error = Some("Current session preview disabled".to_string());

    let mut refreshed_logs = session("logs");
    refreshed_logs.preview = vec!["live".to_string()];

    app.replace_sessions_preserving_preview_for(
        vec![refreshed_dev, refreshed_logs],
        Some("$dev"),
    );

    assert_eq!(app.sessions[0].preview, vec!["snapshot".to_string()]);
    assert_eq!(app.sessions[0].preview_error, None);
    assert_eq!(app.sessions[1].preview, vec!["live".to_string()]);
}

#[test]
fn search_filters_sessions_by_fuzzy_name() {
    let mut app = App::new(
        vec![
            session("backend-api"),
            session("frontend"),
            session("database"),
        ],
        None,
    );

    app.start_search();
    app.push_search_char('b');
    app.push_search_char('a');

    let names: Vec<&str> = app
        .visible_sessions()
        .into_iter()
        .map(|session| session.name.as_str())
        .collect();
    assert_eq!(names, vec!["backend-api", "database"]);
}

#[test]
fn selected_session_uses_filtered_selection() {
    let mut app = App::new(
        vec![session("backend"), session("frontend"), session("database")],
        None,
    );

    app.start_search();
    app.push_search_char('f');

    assert_eq!(app.selected_index, 0);
    assert_eq!(app.selected_session().unwrap().name, "frontend");
}

#[test]
fn clearing_search_restores_all_sessions() {
    let mut app = App::new(vec![session("backend"), session("frontend")], None);

    app.start_search();
    app.push_search_char('f');
    app.clear_search();

    assert!(!app.is_searching());
    assert_eq!(app.visible_session_count(), 2);
}

#[test]
fn up_from_first_row_keeps_selection_in_place() {
    let mut app = App::new(vec![session("one"), session("two"), session("three")], None);
    app.selected_index = 1;

    app.move_up(2);

    assert_eq!(app.selected_index, 1);
}

#[test]
fn down_to_incomplete_row_selects_nearest_card() {
    let mut app = App::new(
        vec![
            session("one"),
            session("two"),
            session("three"),
            session("four"),
            session("five"),
        ],
        None,
    );
    app.selected_index = 2;

    app.move_down(3);

    assert_eq!(app.selected_index, 4);
}

#[test]
fn zoomed_window_navigation_and_selection() {
    let mut app = App::new(vec![session("dev")], None);
    assert!(!app.is_zoomed());
    assert_eq!(app.selected_target().as_deref(), Some("$dev"));

    app.toggle_zoom();
    assert!(app.is_zoomed());
    assert_eq!(app.zoomed_session().map(|s| s.name.as_str()), Some("dev"));

    app.set_windows_for_zoomed_session(vec![
        window("@1", 0, "bash", false),
        window("@2", 1, "editor", true),
        window("@3", 2, "logs", false),
    ]);

    assert_eq!(app.visible_window_count(), 3);
    assert_eq!(app.selected_window_index, 1);
    assert_eq!(app.selected_index, 1);
    assert_eq!(app.selected_target().as_deref(), Some("@2"));

    app.move_right();
    assert_eq!(app.selected_window_index, 2);
    assert_eq!(app.selected_index, 2);
    assert_eq!(app.selected_target().as_deref(), Some("@3"));

    app.move_left();
    assert_eq!(app.selected_window_index, 1);
    assert_eq!(app.selected_index, 1);

    app.move_up(2);
    assert_eq!(app.selected_window_index, 1);
    assert_eq!(app.selected_index, 1);

    app.toggle_zoom();
    assert!(!app.is_zoomed());
    assert_eq!(app.selected_target().as_deref(), Some("$dev"));
    assert_eq!(app.visible_window_count(), 0);
}

#[test]
fn zoom_out_clears_windows_and_prevents_stale_ids_across_sessions() {
    let mut app = App::new(vec![session("dev"), session("prod")], None);
    app.selected_index = 0;
    app.toggle_zoom();
    assert!(app.is_zoomed());

    app.set_windows_for_zoomed_session(vec![
        window("@1", 0, "bash", true),
        window("@2", 1, "editor", false),
    ]);
    assert_eq!(app.visible_window_count(), 2);
    assert_eq!(app.selected_target().as_deref(), Some("@1"));

    // Zoom out
    app.toggle_zoom();
    assert!(!app.is_zoomed());
    assert_eq!(app.visible_window_count(), 0);
    assert_eq!(app.selected_target().as_deref(), Some("$dev"));

    // Move to session "prod" and zoom in
    app.selected_index = 1;
    app.toggle_zoom();
    assert!(app.is_zoomed());
    assert_eq!(app.zoomed_session().unwrap().name, "prod");
    // Windows list is empty until fetched for "prod" - no stale windows from "dev"
    assert_eq!(app.visible_window_count(), 0);
    assert_eq!(app.selected_target(), None);

    app.set_windows_for_zoomed_session(vec![window("@3", 0, "server", true)]);
    assert_eq!(app.visible_window_count(), 1);
    assert_eq!(app.selected_target().as_deref(), Some("@3"));
}

#[test]
fn replace_sessions_clears_zoom_and_windows_if_zoomed_session_disappears() {
    let mut app = App::new(vec![session("dev"), session("prod")], None);
    app.toggle_zoom();
    app.set_windows_for_zoomed_session(vec![window("@1", 0, "bash", true)]);
    assert!(app.is_zoomed());

    // Replace sessions with list not containing "dev"
    app.replace_sessions(vec![session("prod")]);
    assert!(!app.is_zoomed());
    assert_eq!(app.visible_window_count(), 0);
}

#[test]
fn zoomed_session_resolves_exact_id_over_colliding_name() {
    let session_colliding = Session {
        id: "$0".to_string(),
        name: "$1".to_string(),
        attached: false,
        window_count: 1,
        current_window: None,
        last_activity: None,
        preview: Vec::new(),
        preview_error: None,
    };
    let session_target = Session {
        id: "$1".to_string(),
        name: "work".to_string(),
        attached: false,
        window_count: 2,
        current_window: None,
        last_activity: None,
        preview: Vec::new(),
        preview_error: None,
    };
    let mut app = App::new(vec![session_colliding, session_target], None);
    app.zoomed_session = Some("$1".to_string());

    assert_eq!(app.zoomed_session().unwrap().name, "work");
    assert_eq!(app.zoomed_session().unwrap().id, "$1");
}

#[test]
fn toggle_zoom_clears_window_error_on_zoom_out() {
    let mut app = App::new(vec![session("dev")], None);
    app.toggle_zoom();
    app.error = Some("window fetch error".to_string());

    app.toggle_zoom();
    assert!(!app.is_zoomed());
    assert_eq!(app.error, None);
}

#[test]
fn toggle_zoom_preserves_session_refresh_error_on_zoom_out() {
    let mut app = App::new(vec![session("dev")], None);
    app.toggle_zoom();
    app.error = Some("tmux list-sessions failed: connection refused".to_string());

    app.toggle_zoom();
    assert!(!app.is_zoomed());
    assert_eq!(
        app.error,
        Some("tmux list-sessions failed: connection refused".to_string())
    );
}

// Further cases of the model.

#[test]
fn fuzzy_matching_ignores_case_and_gaps() {
    assert!(tmux_expose::model::fuzzy_matches("Backend-API", "bapi"));
    assert!(tmux_expose::model::fuzzy_matches("frontend", ""));
    assert!(!tmux_expose::model::fuzzy_matches("frontend", "df"));
    assert!(!tmux_expose::model::fuzzy_matches("dev", "devx"));
    assert!(tmux_expose::model::fuzzy_matches("Dev-Box", "Dev-Box"));
    assert!(tmux_expose::model::is_subsequence_of("bpi", "backend-api"));
    assert!(!tmux_expose::model::is_subsequence_of("B", "backend"));
    assert!(tmux_expose::model::is_subsequence_of("", ""));
    assert!(!tmux_expose::model::is_subsequence_of("ab", "ba"));
}

#[test]
fn search_keeps_the_query_a_character_removes() {
    let mut app = App::new(vec![session("alpha"), session("beta")], None);
    app.start_search();
    app.push_search_char('a');
    app.push_search_char('l');
    app.pop_search_char();
    assert_eq!(app.search_text(), Some("a"));
    app.pop_search_char();
    app.pop_search_char();
    assert_eq!(app.search_text(), Some(""));
    assert_eq!(app.visible_session_count(), 2);
}

#[test]
fn typing_without_an_open_search_changes_nothing() {
    let mut app = App::new(vec![session("alpha")], None);
    app.push_search_char('x');
    assert_eq!(app.search_text(), None);
    app.pop_search_char();
    assert_eq!(app.search_text(), None);
}

#[test]
fn zoom_round_trip_returns_to_the_session() {
    let mut app = App::new(vec![session("one"), session("two"), session("three")], None);
    app.start_search();
    app.push_search_char('t');
    app.move_right();
    assert_eq!(app.selected_session().unwrap().name, "three");
    app.toggle_zoom();
    assert!(app.is_zoomed());
    assert!(!app.is_searching());
    app.toggle_zoom();
    assert!(!app.is_zoomed());
    assert_eq!(app.selected_index, 2);
    assert_eq!(app.selected_session().unwrap().name, "three");
}

#[test]
fn zoom_with_nothing_selected_changes_nothing() {
    let mut app = App::new(Vec::new(), None);
    app.toggle_zoom();
    assert!(!app.is_zoomed());
    assert_eq!(app.selected_target(), None);
}

#[test]
fn window_refresh_keeps_the_selected_window_by_id() {
    let mut app = App::new(vec![session("dev")], None);
    app.toggle_zoom();
    app.set_windows_for_zoomed_session(vec![window("@1", 0, "a", true), window("@2", 1, "b", false)]);
    app.move_right();
    assert_eq!(app.selected_target().as_deref(), Some("@2"));
    app.set_windows_for_zoomed_session(vec![
        window("@0", 0, "new", false),
        window("@1", 1, "a", true),
        window("@2", 2, "b", false),
    ]);
    assert_eq!(app.selected_window_index, 2);
    assert_eq!(app.selected_target().as_deref(), Some("@2"));
}

#[test]
fn refresh_keeps_zoom_while_session_is_listed() {
    let mut app = App::new(vec![session("dev"), session("prod")], None);
    app.selected_index = 1;
    app.toggle_zoom();
    app.set_windows_for_zoomed_session(vec![window("@7", 0, "shell", true)]);
    app.replace_sessions(vec![session("new"), session("prod")]);
    assert!(app.is_zoomed());
    assert_eq!(app.zoomed_session().unwrap().name, "prod");
    assert_eq!(app.visible_window_count(), 1);
}

#[test]
fn refresh_clamps_selection_when_selected_name_is_gone() {
    let mut app = App::new(vec![session("a"), session("b"), session("c")], None);
    app.selected_index = 2;
    app.replace_sessions(vec![session("x"), session("y")]);
    assert_eq!(app.selected_index, 1);
    app.replace_sessions(Vec::new());
    assert_eq!(app.selected_index, 0);
    assert!(app.selected_session().is_none());
}

#[test]
fn refresh_without_previews_keeps_every_preview() {
    let mut app = App::new(vec![session("dev"), session("logs")], None);
    app.sessions[0].preview = vec!["dev screen".to_string()];
    app.sessions[0].current_window = Some("vim".to_string());
    app.sessions[1].preview_error = Some("capture failed".to_string());

    let mut fresh_logs = session("logs");
    fresh_logs.current_window = Some("tail".to_string());
    app.replace_sessions_preserving_all_previews(vec![fresh_logs, session("dev"), session("new")]);

    assert_eq!(app.sessions[0].name, "logs");
    assert_eq!(app.sessions[0].preview_error, Some("capture failed".to_string()));
    assert_eq!(app.sessions[0].current_window, Some("tail".to_string()));
    assert_eq!(app.sessions[1].preview, vec!["dev screen".to_string()]);
    assert_eq!(app.sessions[1].current_window, Some("vim".to_string()));
    assert!(app.sessions[2].preview.is_empty());
}
