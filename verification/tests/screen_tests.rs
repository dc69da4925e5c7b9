use tmux_expose::model::{App, Session, Window};
use tmux_expose::screen::{
    CardBody, GridContent, card_body, card_text_limits, card_title, grid_content, icon_row, is_current_attached,
    pane_grid, pane_text_limits, push_decimal, tail_start, too_small, window_card_title,
};

fn session(name: &str) -> Session {
    Session {
        id: format!("${name}"),
        name: name.to_string(),
        attached: false,
        window_count: 1,
        current_window: None,
        last_activity: None,
        preview: Vec::new(),
        preview_error: None,
    }
}

#[test]
fn small_terminals_show_no_cards() {
    assert!(too_small(19, 30));
    assert!(too_small(80, 5));
    assert!(!too_small(20, 6));
}

#[test]
fn content_prefers_the_error_then_the_empty_states() {
    let mut app = App::new(Vec::new(), None);
    assert_eq!(
        grid_content(&app),
        GridContent::Message("No tmux sessions found.\nPress q or Esc to quit.".to_string())
    );
    app.error = Some("boom".to_string());
    assert_eq!(grid_content(&app), GridContent::Message("boom".to_string()));

    let mut app = App::new(vec![session("dev")], None);
    assert_eq!(grid_content(&app), GridContent::Sessions);
    app.start_search();
    app.push_search_char('x');
    assert_eq!(grid_content(&app), GridContent::Message("No matching sessions".to_string()));
    app.clear_search();
    app.toggle_zoom();
    assert_eq!(grid_content(&app), GridContent::Message("No windows in session".to_string()));
    app.set_windows_for_zoomed_session(vec![Window {
        id: "@1".to_string(),
        index: 0,
        name: "bash".to_string(),
        active: true,
        last_activity: None,
        panes: Vec::new(),
        preview_error: None,
    }]);
    assert_eq!(grid_content(&app), GridContent::Windows);
}

#[test]
fn only_the_attached_current_session_is_highlighted() {
    let mut dev = session("dev");
    assert!(!is_current_attached(&dev, &Some("dev".to_string())));
    dev.attached = true;
    assert!(is_current_attached(&dev, &Some("dev".to_string())));
    assert!(!is_current_attached(&dev, &Some("logs".to_string())));
    assert!(!is_current_attached(&dev, &None));
}

#[test]
fn previews_show_their_last_lines() {
    assert_eq!(tail_start(10, 4), 6);
    assert_eq!(tail_start(3, 4), 0);
}

#[test]
fn panes_tile_in_up_to_three_columns() {
    assert_eq!(pane_grid(1), (1, 1));
    assert_eq!(pane_grid(3), (2, 2));
    assert_eq!(pane_grid(4), (2, 2));
    assert_eq!(pane_grid(7), (3, 3));
}

#[test]
fn card_titles_leave_room_for_the_border() {
    assert_eq!(card_title("backend", 40), " backend ");
    assert_eq!(card_title("backend", 15), " bac ");
    assert_eq!(card_title("backend", 5), "  ");
    assert_eq!(icon_row(3), " \u{eb7f} \u{eb7f} \u{eb7f} ");
    assert_eq!(icon_row(0), "  ");
}

#[test]
fn card_bodies_name_what_is_missing() {
    assert_eq!(
        card_body(true, false, 3),
        CardBody::Message { text: "Preview unavailable".to_string(), alert: true }
    );
    assert_eq!(
        card_body(false, true, 0),
        CardBody::Message { text: "No visible panes".to_string(), alert: false }
    );
    assert_eq!(
        card_body(false, false, 0),
        CardBody::Message { text: "No visible content".to_string(), alert: false }
    );
    assert_eq!(card_body(false, false, 2), CardBody::Lines);
    assert_eq!(card_body(false, true, 2), CardBody::Panes);
}

#[test]
fn text_limits_leave_room_for_borders() {
    assert_eq!(card_text_limits(30, 12), (7, 26));
    assert_eq!(card_text_limits(3, 4), (0, 0));
    assert_eq!(pane_text_limits(10, 5), (3, 8));
    assert_eq!(pane_text_limits(1, 1), (0, 0));
}

#[test]
fn window_titles_show_the_index() {
    assert_eq!(window_card_title(3, "editor", 40), " 3:editor ");
    assert_eq!(window_card_title(12, "editor", 17), " 12:ed ");
    let mut s = String::from("#");
    push_decimal(&mut s, 4096);
    assert_eq!(s, "#4096");
    let mut z = String::new();
    push_decimal(&mut z, 0);
    assert_eq!(z, "0");
}
