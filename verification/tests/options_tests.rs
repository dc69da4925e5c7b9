use ratatui::style::Color;
use tmux_expose::options::{choose_color, parse_color, parse_tmux_colour};

#[test]
fn parses_tmux_style_indexed_color() {
    // tmux spells indexed colors as `colour208`; ratatui only accepts `208`.
    assert_eq!(parse_color("colour208"), Ok(Color::Indexed(208)));
    assert_eq!(parse_color("color208"), Ok(Color::Indexed(208)));
    assert_eq!(parse_color("208"), Ok(Color::Indexed(208)));
}

// Further cases of the colour options.

#[test]
fn colour_names_indices_and_hex_values_are_read() {
    assert_eq!(parse_color("cyan"), Ok(Color::Cyan));
    assert_eq!(parse_color("magenta"), Ok(Color::Magenta));
    assert_eq!(parse_color("#ff8700"), Ok(Color::Rgb(255, 135, 0)));
    assert_eq!(parse_color("green"), Ok(Color::Green));
    assert_eq!(parse_color("white"), Ok(Color::White));
    assert_eq!(parse_color("Light-Blue"), Ok(Color::LightBlue));
}

#[test]
fn texts_that_name_no_colour_are_rejected() {
    assert!(parse_color("not-a-color").is_err());
    assert!(parse_color("colourize").is_err());
    assert!(parse_color("colour999").is_err());
    assert_eq!(
        parse_color("nope"),
        Err("invalid color \"nope\"; expected a name (e.g. `yellow`), an index (`208` or `colour208`), or a hex value (`#rrggbb`)".to_string())
    );
}

#[test]
fn ratatui_reading_comes_first() {
    assert_eq!(choose_color("colour1", Some(Color::Red)), Ok(Color::Red));
    assert_eq!(choose_color("colour5", None), Ok(Color::Indexed(5)));
    assert_eq!(
        choose_color("x\"y", None),
        Err("invalid color \"x\\\"y\"; expected a name (e.g. `yellow`), an index (`208` or `colour208`), or a hex value (`#rrggbb`)".to_string())
    );
}

#[test]
fn tmux_colour_names_give_their_index() {
    assert_eq!(parse_tmux_colour("colour208"), Some(208));
    assert_eq!(parse_tmux_colour("color208"), Some(208));
    assert_eq!(parse_tmux_colour("colour0"), Some(0));
    assert_eq!(parse_tmux_colour("208"), None);
    assert_eq!(parse_tmux_colour("colourize"), None);
    assert_eq!(parse_tmux_colour("colour999"), None);
    assert_eq!(parse_tmux_colour("colour"), None);
}
