use tmux_expose::model::{PanePreview, Session, Window};
use tmux_expose::tmux::{
    ListingError, command_error_message, detect_separator, fill_session, fill_window, parse_sessions,
    parse_sessions_output, parse_windows, preview_disabled_message, should_capture_preview, trim_preview,
};

#[test]
fn parses_session_lines_from_tmux_format() {
    let sessions = parse_sessions(
        "$1\u{1f}dev\u{1f}1\u{1f}4\u{1f}1710000000\u{1f}1710000300\n$2\u{1f}logs\u{1f}0\u{1f}2\u{1f}1710000100\u{1f}1710000400\n",
    );

    assert_eq!(sessions.len(), 2);
    assert_eq!(sessions[0].id, "$1");
    assert_eq!(sessions[0].name, "dev");
    assert!(sessions[0].attached);
    assert_eq!(sessions[0].window_count, 4);
    assert_eq!(sessions[0].last_activity.as_deref(), Some("1710000300"));
    assert_eq!(sessions[1].name, "logs");
    assert!(!sessions[1].attached);
}

#[test]
fn parses_window_lines_from_tmux_format() {
    let windows = parse_windows("@1\u{1f}bash\u{1f}1\u{1f}0\n@2\u{1f}editor\u{1f}0\u{1f}1\n");

    assert_eq!(windows.len(), 2);
    assert_eq!(windows[0].id, "@1");
    assert_eq!(windows[0].index, 0);
    assert_eq!(windows[0].name, "bash");
    assert!(windows[0].active);
    assert_eq!(windows[1].id, "@2");
    assert_eq!(windows[1].index, 1);
    assert_eq!(windows[1].name, "editor");
    assert!(!windows[1].active);
}

#[test]
fn parses_window_lines_with_colon_in_name() {
    let windows_unit = parse_windows("@1\u{1f}api:server\u{1f}1\u{1f}0\n");
    assert_eq!(windows_unit.len(), 1);
    assert_eq!(windows_unit[0].id, "@1");
    assert_eq!(windows_unit[0].index, 0);
    assert_eq!(windows_unit[0].name, "api:server");
    assert!(windows_unit[0].active);
}

#[test]
fn parses_window_lines_colon_delimited() {
    let windows = parse_windows("@1:bash:1:0\n@2:editor:0:1\n");

    assert_eq!(windows.len(), 2);
    assert_eq!(windows[0].id, "@1");
    assert_eq!(windows[0].index, 0);
    assert_eq!(windows[0].name, "bash");
    assert!(windows[0].active);
    assert_eq!(windows[1].id, "@2");
    assert_eq!(windows[1].index, 1);
    assert_eq!(windows[1].name, "editor");
    assert!(!windows[1].active);
}

#[test]
fn parses_window_lines_without_index() {
    let windows = parse_windows("@1:bash:1\n@2:editor:0\n");

    assert_eq!(windows.len(), 2);
    assert_eq!(windows[0].id, "@1");
    assert_eq!(windows[0].index, 0);
    assert_eq!(windows[0].name, "bash");
    assert!(windows[0].active);
    assert_eq!(windows[1].id, "@2");
    assert_eq!(windows[1].index, 0);
    assert_eq!(windows[1].name, "editor");
    assert!(!windows[1].active);
}

#[test]
fn parses_session_names_containing_pipe_characters() {
    let sessions = parse_sessions("$3\u{1f}dev|api\u{1f}0\u{1f}1\u{1f}1710000000\u{1f}1710000300\n");

    assert_eq!(sessions[0].id, "$3");
    assert_eq!(sessions[0].name, "dev|api");
}

#[test]
fn parses_colon_delimited_session_lines() {
    let sessions = parse_sessions("$3:dev|api:0:1:1710000000:1710000300\n");

    assert_eq!(sessions.len(), 1);
    assert_eq!(sessions[0].id, "$3");
    assert_eq!(sessions[0].name, "dev|api");
    assert!(!sessions[0].attached);
    assert_eq!(sessions[0].window_count, 1);
    assert_eq!(sessions[0].last_activity.as_deref(), Some("1710000300"));
}

#[test]
fn rejects_non_empty_unparseable_session_output() {
    let error = parse_sessions_output("$3dev011710000000171000300\n")
        .unwrap_err()
        .message();

    assert!(error.contains("unexpected format"));
}

#[test]
fn trims_preview_to_last_non_empty_visible_lines() {
    let preview = trim_preview("first\nsecond\nthird\n\n", 2);

    assert_eq!(preview, vec!["second".to_string(), "third".to_string()]);
}

#[test]
fn preserves_ansi_escape_sequences_from_preview() {
    let preview = trim_preview("\u{1b}[31mred\u{1b}[0m plain", 5);

    assert_eq!(preview, vec!["\u{1b}[31mred\u{1b}[0m plain".to_string()]);
}

#[test]
fn skips_preview_capture_for_current_session_only_when_requested() {
    assert!(!should_capture_preview("$1", Some("$1")));
    assert!(should_capture_preview("$2", Some("$1")));
    assert!(should_capture_preview("$1", None));
}

// Further cases of the listing parsers.

#[test]
fn blank_session_output_is_no_sessions() {
    assert_eq!(parse_sessions_output("  \n\n").unwrap().len(), 0);
    assert_eq!(parse_sessions_output("").unwrap().len(), 0);
    assert_eq!(
        parse_sessions_output("garbage"),
        Err(ListingError::UnexpectedFormat)
    );
}

#[test]
fn session_lines_need_a_name_and_skip_blank_lines() {
    let sessions = parse_sessions("\n$1\u{1f}\u{1f}1\u{1f}2\n  \n$2\u{1f}web\n");
    assert_eq!(sessions.len(), 1);
    assert_eq!(sessions[0].id, "$2");
    assert_eq!(sessions[0].name, "web");
    assert!(!sessions[0].attached);
    assert_eq!(sessions[0].window_count, 0);
    assert_eq!(sessions[0].last_activity, None);
}

#[test]
fn session_flags_read_false_only_for_zero_and_false() {
    let sessions = parse_sessions("$1:a:false:1\n$2:b:0:1\n$3:c:yes:1\n$4:d:2:x\n");
    assert!(!sessions[0].attached);
    assert!(!sessions[1].attached);
    assert!(sessions[2].attached);
    assert!(sessions[3].attached);
    assert_eq!(sessions[3].window_count, 0);
}

#[test]
fn separator_is_the_unit_separator_where_present() {
    assert_eq!(detect_separator("a\u{1f}b:c"), '\u{1f}');
    assert_eq!(detect_separator("a:b"), ':');
    assert_eq!(detect_separator(""), ':');
}

#[test]
fn preview_keeps_all_lines_when_fewer_than_the_limit() {
    assert_eq!(
        trim_preview("a\r\n\nb\n", 10),
        vec!["a".to_string(), "".to_string(), "b".to_string()]
    );
    assert!(trim_preview("\n \n", 3).is_empty());
    assert!(trim_preview("x", 0).is_empty());
}

#[test]
fn command_errors_append_the_trimmed_error_output() {
    assert_eq!(
        command_error_message("tmux list-sessions failed", "  no server running \n"),
        "tmux list-sessions failed: no server running"
    );
    assert_eq!(command_error_message("tmux capture-pane failed", " \n"), "tmux capture-pane failed");
}

#[test]
fn filling_a_session_records_its_capture() {
    let mut session = Session {
        id: "$1".to_string(),
        name: "dev".to_string(),
        attached: true,
        window_count: 2,
        current_window: None,
        last_activity: Some("1".to_string()),
        preview: vec!["old".to_string()],
        preview_error: None,
    };
    fill_session(&mut session, Some("vim".to_string()), Some(Ok(vec!["new".to_string()])));
    assert_eq!(session.current_window.as_deref(), Some("vim"));
    assert_eq!(session.preview, vec!["new".to_string()]);

    fill_session(&mut session, None, Some(Err("capture failed".to_string())));
    assert!(session.preview.is_empty());
    assert_eq!(session.preview_error.as_deref(), Some("capture failed"));

    fill_session(&mut session, None, None);
    assert_eq!(session.preview_error, Some(preview_disabled_message()));
    assert_eq!(session.preview_error.as_deref(), Some("Current session preview disabled"));
    assert_eq!(session.name, "dev");
}

#[test]
fn filling_a_window_records_its_panes() {
    let mut window = Window {
        id: "@1".to_string(),
        index: 0,
        name: "bash".to_string(),
        active: true,
        last_activity: None,
        panes: Vec::new(),
        preview_error: Some("stale".to_string()),
    };
    let pane = PanePreview { id: "%1".to_string(), active: true, lines: vec!["$ ls".to_string()] };
    fill_window(&mut window, Some(Ok(vec![pane.clone()])));
    assert_eq!(window.panes, vec![pane]);
    assert_eq!(window.preview_error, None);

    fill_window(&mut window, Some(Err("tmux capture-pane failed".to_string())));
    assert!(window.panes.is_empty());
    assert_eq!(window.preview_error.as_deref(), Some("tmux capture-pane failed"));

    fill_window(&mut window, None);
    assert!(window.panes.is_empty());
    assert_eq!(window.preview_error.as_deref(), Some("Current session preview disabled"));
    assert_eq!(window.index, 0);
}
