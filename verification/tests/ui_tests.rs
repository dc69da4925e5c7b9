use tmux_expose::style::{BOLD, TermColor, ITALIC, Style, StyledText, UNDERLINED};
use tmux_expose::ui::{
    CardColors, MIN_CARD_WIDTH, Rect, ansi_color, ansi_to_line, apply_sgr, calculate_automatic_columns,
    calculate_grid, card_border_style, card_title_style, check_grid_fits, footer_hint_line,
    session_status_span, truncate, truncate_ansi, window_status_span,
};

fn shortcuts(line: &[StyledText]) -> Vec<&str> {
    line.iter()
        .filter(|span| span.style.fg == Some(TermColor::Yellow))
        .map(|span| span.content.as_str())
        .collect()
}

#[test]
fn grid_fits_default_cards_to_available_screen_space() {
    let grid = calculate_grid(Rect::new(0, 0, 100, 30), 8, None, None);

    assert_eq!(grid.columns, 4);
    assert_eq!(grid.rows, 2);
    assert_eq!(grid.cards.len(), 8);
    assert_eq!(grid.cards[0].width, 24);
    assert_eq!(grid.cards[0].height, 14);
    assert_eq!(grid.cards[3].x + grid.cards[3].width, 100);
}

#[test]
fn grid_keeps_wide_screens_balanced_by_default() {
    let grid = calculate_grid(Rect::new(0, 0, 240, 60), 9, None, None);

    assert_eq!(grid.columns, 3);
    assert_eq!(grid.rows, 3);
    assert!(grid.cards[0].width > grid.cards[0].height);
}

#[test]
fn grid_prefers_complete_rows_when_space_is_available() {
    let grid = calculate_grid(Rect::new(0, 0, 240, 60), 6, None, None);

    assert_eq!(grid.columns, 3);
    assert_eq!(grid.rows, 2);
    assert_eq!(grid.cards.len(), 6);
    assert_eq!(grid.cards[5].x + grid.cards[5].width, 240);
}

#[test]
fn grid_prefers_fewer_empty_slots_when_rows_cannot_be_complete() {
    let grid = calculate_grid(Rect::new(0, 0, 240, 60), 7, None, None);

    assert_eq!(grid.columns, 4);
    assert_eq!(grid.rows, 2);
    assert_eq!(grid.cards.len(), 7);
}

#[test]
fn thumbnail_width_uses_as_many_min_width_columns_as_fit() {
    let grid = calculate_grid(Rect::new(0, 0, 100, 30), 6, Some(MIN_CARD_WIDTH), None);

    assert_eq!(grid.columns, 3);
    assert_eq!(grid.rows, 2);
    assert_eq!(grid.cards.len(), 6);
    assert!(grid.cards[0].width >= MIN_CARD_WIDTH);
}

#[test]
fn grid_always_has_one_column_for_narrow_terminals() {
    let grid = calculate_grid(Rect::new(0, 0, 20, 30), 2, None, None);

    assert_eq!(grid.columns, 1);
    assert_eq!(grid.rows, 2);
    assert_eq!(grid.cards.len(), 2);
}

#[test]
fn custom_min_card_width_makes_automatic_cards_larger() {
    let grid = calculate_grid(Rect::new(0, 0, 100, 30), 6, Some(50), None);

    assert_eq!(grid.columns, 1);
    assert_eq!(grid.cards[0].width, 100);
}

#[test]
fn forced_columns_override_automatic_width_calculation() {
    let grid = calculate_grid(Rect::new(0, 0, 100, 30), 6, Some(50), Some(3));

    assert_eq!(grid.columns, 3);
    assert_eq!(grid.rows, 2);
}

#[test]
fn attached_status_is_highlighted() {
    let span = session_status_span(true);

    assert_eq!(span.content, " attached ");
    assert_eq!(span.style.fg, Some(TermColor::Green));
    assert!(span.style.add_modifier & BOLD != 0);
}

#[test]
fn detached_status_stays_muted() {
    let span = session_status_span(false);

    assert_eq!(span.content, " detached ");
    assert_eq!(span.style.fg, Some(TermColor::DarkGray));
    assert!(span.style.add_modifier & BOLD == 0);
}

#[test]
fn selected_session_title_is_yellow_and_bold() {
    let style = card_title_style(true, false, CardColors::default());

    assert_eq!(style.fg, Some(TermColor::Yellow));
    assert!(style.add_modifier & BOLD != 0);
}

#[test]
fn current_attached_session_title_is_green_and_bold() {
    let style = card_title_style(false, true, CardColors::default());

    assert_eq!(style.fg, Some(TermColor::Green));
    assert!(style.add_modifier & BOLD != 0);
}

#[test]
fn other_session_titles_are_white_and_bold() {
    let style = card_title_style(false, false, CardColors::default());

    assert_eq!(style.fg, Some(TermColor::White));
    assert!(style.add_modifier & BOLD != 0);
}

#[test]
fn current_attached_session_border_is_green_when_not_selected() {
    let style = card_border_style(false, true, CardColors::default());

    assert_eq!(style.fg, Some(TermColor::Green));
    assert!(style.add_modifier & BOLD == 0);
}

#[test]
fn selected_session_border_stays_yellow_and_bold() {
    let style = card_border_style(true, true, CardColors::default());

    assert_eq!(style.fg, Some(TermColor::Yellow));
    assert!(style.add_modifier & BOLD != 0);
}

#[test]
fn custom_colors_override_card_styles() {
    let colors = CardColors {
        selected: TermColor::Magenta,
        attached: TermColor::Blue,
        inactive: TermColor::Cyan,
    };

    assert_eq!(card_title_style(true, false, colors).fg, Some(TermColor::Magenta));
    assert_eq!(card_border_style(true, false, colors).fg, Some(TermColor::Magenta));
    assert_eq!(card_title_style(false, true, colors).fg, Some(TermColor::Blue));
    assert_eq!(card_border_style(false, true, colors).fg, Some(TermColor::Blue));
    assert_eq!(card_title_style(false, false, colors).fg, Some(TermColor::Cyan));
    // Unselected border stays dimmed regardless of the configured color.
    assert_eq!(card_border_style(false, false, colors).fg, Some(TermColor::DarkGray));
}

#[test]
fn footer_highlights_shortcuts_only() {
    let line = footer_hint_line(false, None, false, "z");

    let shortcut_spans: Vec<&StyledText> = line
        .iter()
        .filter(|span| span.style.fg == Some(TermColor::Yellow))
        .collect();
    let shortcut_text: Vec<&str> = shortcut_spans.iter().map(|span| span.content.as_str()).collect();

    assert_eq!(shortcut_text, vec!["↑/↓/←/→", "z", "Enter", "Esc/Ctrl-C"]);
    assert!(shortcut_spans.iter().all(|span| span.style.add_modifier & BOLD != 0));
    assert!(
        line.iter()
            .filter(|span| span.style.fg != Some(TermColor::Yellow))
            .all(|span| span.style.fg == Some(TermColor::DarkGray))
    );
}

#[test]
fn search_footer_highlights_search_shortcuts() {
    let line = footer_hint_line(false, Some("api"), false, "z");

    assert_eq!(shortcuts(&line), vec!["Backspace", "↑/↓/←/→", "Enter", "Esc"]);
    assert_eq!(line[0].content, "Search: api");
    assert_eq!(line[0].style.fg, Some(TermColor::Cyan));
}

#[test]
fn vim_normal_footer_highlights_vim_shortcuts() {
    let line = footer_hint_line(false, None, true, "z");

    assert_eq!(shortcuts(&line), vec!["hjkl", "z", "/", "Enter", "q/Esc"]);
}

#[test]
fn vim_search_footer_offers_return_to_normal() {
    let line = footer_hint_line(false, Some("api"), true, "z");

    assert_eq!(shortcuts(&line), vec!["Backspace", "Enter", "Esc"]);
    assert_eq!(line[0].content, "Search: api");
}

#[test]
fn zoomed_footer_highlights_zoom_out_shortcuts() {
    let default_zoomed = footer_hint_line(true, None, false, "z");
    assert_eq!(shortcuts(&default_zoomed), vec!["↑/↓/←/→", "z/Esc", "Enter", "Ctrl-C"]);

    let vim_zoomed = footer_hint_line(true, None, true, "z");
    assert_eq!(shortcuts(&vim_zoomed), vec!["hjkl", "z/Esc", "Enter", "q"]);
}

#[test]
fn ansi_foreground_colors_become_styled_spans() {
    let line = ansi_to_line("plain \u{1b}[31mred\u{1b}[0m done");

    assert_eq!(line.len(), 3);
    assert_eq!(line[0].content, "plain ");
    assert_eq!(line[0].style.fg, None);
    assert_eq!(line[1].content, "red");
    assert_eq!(line[1].style.fg, Some(TermColor::Red));
    assert_eq!(line[2].content, " done");
    assert_eq!(line[2].style.fg, None);
}

#[test]
fn ansi_truncation_counts_only_visible_characters() {
    let truncated = truncate_ansi("\u{1b}[31mred\u{1b}[0m plain", 5);

    assert_eq!(truncated, "\u{1b}[31mred\u{1b}[0m p");
}

#[test]
fn footer_renders_custom_zoom_key() {
    let normal_line = footer_hint_line(false, None, false, "x");
    assert_eq!(shortcuts(&normal_line), vec!["↑/↓/←/→", "x", "Enter", "Esc/Ctrl-C"]);

    let zoomed_line = footer_hint_line(true, None, false, "x");
    assert_eq!(shortcuts(&zoomed_line), vec!["↑/↓/←/→", "x/Esc", "Enter", "Ctrl-C"]);

    let vim_normal = footer_hint_line(false, None, true, "M-z");
    assert_eq!(shortcuts(&vim_normal), vec!["hjkl", "M-z", "/", "Enter", "q/Esc"]);

    let vim_zoomed = footer_hint_line(true, None, true, "M-z");
    assert_eq!(shortcuts(&vim_zoomed), vec!["hjkl", "M-z/Esc", "Enter", "q"]);
}

// Further cases of the layout and the text helpers.

#[test]
fn empty_grids_have_no_cards() {
    let none = calculate_grid(Rect::new(0, 0, 100, 30), 0, None, None);
    assert_eq!((none.columns, none.rows, none.cards.len()), (1, 0, 0));
    let flat = calculate_grid(Rect::new(0, 0, 100, 0), 3, None, None);
    assert_eq!((flat.columns, flat.rows, flat.cards.len()), (1, 0, 0));
}

#[test]
fn grid_cards_follow_reading_order_with_gaps() {
    let grid = calculate_grid(Rect::new(2, 1, 50, 20), 3, None, Some(2));
    assert_eq!(grid.cards[0], Rect::new(2, 1, 24, 9));
    assert_eq!(grid.cards[1], Rect::new(28, 1, 24, 9));
    assert_eq!(grid.cards[2], Rect::new(2, 12, 24, 9));
}

#[test]
fn grid_fit_check_rejects_coordinates_past_the_limit() {
    assert!(check_grid_fits(Rect::new(0, 0, 100, 30), 8, None, None));
    assert!(!check_grid_fits(Rect::new(65000, 0, 535, 30), 400, None, Some(400)));
}

#[test]
fn automatic_columns_for_one_card_is_one() {
    assert_eq!(calculate_automatic_columns(Rect::new(0, 0, 100, 30), 1, None), 1);
    assert_eq!(calculate_automatic_columns(Rect::new(0, 0, 100, 30), 0, None), 1);
    assert_eq!(calculate_automatic_columns(Rect::new(0, 0, 100, 30), 5, Some(30)), 3);
}

#[test]
fn rect_is_cut_at_the_coordinate_limit() {
    let r = Rect::new(65530, 65534, 10, 10);
    assert_eq!((r.width, r.height), (5, 1));
}

#[test]
fn window_status_names_the_active_window() {
    let active = window_status_span(true);
    let inactive = window_status_span(false);
    assert_eq!(active.style.fg, Some(TermColor::Green));
    assert_ne!(active.content, inactive.content);
    assert_eq!(inactive.style.fg, Some(TermColor::DarkGray));
}

#[test]
fn truncation_keeps_the_first_characters() {
    assert_eq!(truncate("abcdef", 4), "abcd");
    assert_eq!(truncate("abc", 3), "abc");
    assert_eq!(truncate("abc", 0), "");
}

#[test]
fn ansi_truncation_keeps_short_text() {
    assert_eq!(truncate_ansi("\u{1b}[1mhi", 5), "\u{1b}[1mhi");
    assert_eq!(truncate_ansi("hello", 0), "");
}

#[test]
fn sgr_codes_set_colors_and_modifiers() {
    let mut style = Style::new();
    apply_sgr("1;4;32;44", &mut style);
    assert_eq!(style.fg, Some(TermColor::Green));
    assert_eq!(style.bg, Some(TermColor::Blue));
    assert!(style.add_modifier & BOLD != 0);
    assert!(style.add_modifier & UNDERLINED != 0);
    apply_sgr("38;5;208;48;2;1;2;3;3", &mut style);
    assert_eq!(style.fg, Some(TermColor::Indexed(208)));
    assert_eq!(style.bg, Some(TermColor::Rgb(1, 2, 3)));
    assert!(style.add_modifier & ITALIC != 0);
    apply_sgr("0", &mut style);
    assert_eq!(style, Style::new());
    apply_sgr("91", &mut style);
    assert_eq!(style.fg, Some(ansi_color(1, true)));
    assert_eq!(ansi_color(1, true), TermColor::LightRed);
    assert_eq!(ansi_color(9, false), TermColor::Reset);
}
